//! Points and frames on the screen, in hundredths of a point.

use vstd::prelude::*;

verus! {

/// The farthest a coordinate may lie from the origin: far beyond any screen.
pub const FAR: i64 = 1_000_000_000_000;

/// A place on the screen. Down is positive.
#[derive(Clone, Copy, PartialEq, Eq, Debug, Structural)]
pub struct Point {
    /// From the left.
    pub x: i64,
    /// From the top.
    pub y: i64,
}

/// An upright rectangle.
#[derive(Clone, Copy, PartialEq, Eq, Debug, Structural)]
pub struct Frame {
    /// Its left edge.
    pub left: i64,
    /// Its top edge.
    pub top: i64,
    /// Its right edge.
    pub right: i64,
    /// Its bottom edge.
    pub bottom: i64,
}

impl Frame {
    /// Whether no edge lies too far out.
    pub open spec fn near(self) -> bool {
        &&& -FAR <= self.left <= FAR
        &&& -FAR <= self.top <= FAR
        &&& -FAR <= self.right <= FAR
        &&& -FAR <= self.bottom <= FAR
    }

    /// Whether there is anything inside.
    pub open spec fn positive(self) -> bool {
        self.left < self.right && self.top < self.bottom
    }

    /// Whether there is anything inside.
    pub fn is_positive(&self) -> (r: bool)
        ensures
            r == self.positive(),
    {
        self.left < self.right && self.top < self.bottom
    }

    /// Whether a point lies inside or on an edge.
    pub open spec fn holds(self, p: Point) -> bool {
        self.left <= p.x <= self.right && self.top <= p.y <= self.bottom
    }

    /// Whether a point lies inside or on an edge.
    pub fn contains(&self, p: Point) -> (r: bool)
        ensures
            r == self.holds(p),
    {
        self.left <= p.x && p.x <= self.right && self.top <= p.y && p.y <= self.bottom
    }
}

/// The lesser of two lengths.
pub open spec fn lesser(a: int, b: int) -> int {
    if a < b {
        a
    } else {
        b
    }
}

/// The larger of two lengths.
pub open spec fn larger(a: int, b: int) -> int {
    if a < b {
        b
    } else {
        a
    }
}

/// The lesser of two lengths.
pub fn min_of(a: i64, b: i64) -> (r: i64)
    ensures
        r == lesser(a as int, b as int),
{
    if a < b {
        a
    } else {
        b
    }
}

/// The larger of two lengths.
pub fn max_of(a: i64, b: i64) -> (r: i64)
    ensures
        r == larger(a as int, b as int),
{
    if a < b {
        b
    } else {
        a
    }
}

/// The place halfway between two, rounded down.
pub open spec fn middle(a: int, b: int) -> int {
    (a + b) / 2
}

/// The place halfway between two, rounded down.
pub fn mid_of(a: i64, b: i64) -> (r: i64)
    requires
        -4 * FAR <= a <= 4 * FAR,
        -4 * FAR <= b <= 4 * FAR,
    ensures
        r == middle(a as int, b as int),
        -4 * FAR <= r <= 4 * FAR,
{
    let sum: i64 = a + b;
    let q: i64 = sum / 2;
    if sum < 0 && q * 2 != sum {
        q - 1
    } else {
        q
    }
}

/// The lesser and the larger of two are one of the two each, in order.
pub proof fn law_of_two_one_is_the_lesser(a: i64, b: i64, lo: i64, hi: i64)
    requires
        call_ensures(min_of, (a, b), lo),
        call_ensures(max_of, (a, b), hi),
    ensures
        lo <= a && lo <= b && (lo == a || lo == b),
        hi >= a && hi >= b && (hi == a || hi == b),
        lo + hi == a + b,
{
}

/// The middle lies as far from one end as from the other, but for half a step.
pub proof fn law_the_middle_lies_between(a: int, b: int)
    ensures
        0 <= a + b - 2 * middle(a, b) <= 1,
        a <= b ==> a <= middle(a, b) <= b,
{
}

} // verus!
