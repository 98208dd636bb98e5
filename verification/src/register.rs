//! The register: ruled entries under a column ruler, with a margin that carries
//! the folio number or the seal of what is held.
//!
//! A view must say whether it shows entries, is empty, is still loading, or
//! failed to read: [`Content`] has no case for drawing nothing, and a failed
//! read is never drawn as an empty page.
//!
//! Lengths are in hundredths of a point, and text scales in ten-thousandths.
//! A length that is no number comes in as `None`.

use crate::a11y::{SCALE_MAX, SCALE_MIN};
use crate::geometry::{self, mid_of, Frame, Point};
use crate::text::{self, same, trim};
use crate::theme::{
    self, sized, snap, Custody, Density, SPACE_M, SPACE_S, SPACE_XL, STEP_BODY, STEP_LABEL, STEP_META,
};
use vstd::prelude::*;

verus! {

/// The narrowest that the margin is ruled.
pub const MARGIN_W: i32 = 3_400;

/// The shortest that an empty register is drawn.
pub const EMPTY_MIN_H: i32 = 9_600;

/// How many blank entries a loading register shows.
pub const LOADING_ROWS: usize = 6;

// ---------------------------------------------------------------------------
// Columns
// ---------------------------------------------------------------------------

/// How a column claims its width.
#[derive(Clone, Copy, PartialEq, Eq, Debug, Structural)]
pub enum ColW {
    /// So much at the ordinary text size, growing with the text.
    Fixed(i32),
    /// A share of what the fixed columns leave.
    Flex(i32),
}

/// On which side of its lane a column sets its type.
#[derive(Clone, Copy, PartialEq, Eq, Debug, Structural)]
pub enum Align {
    /// On the left.
    Left,
    /// On the right.
    Right,
}

/// One column of the ruler.
#[derive(Clone, Copy, Debug)]
pub struct Col {
    /// Its heading.
    pub head: &'static str,
    /// How it claims its width.
    pub width: ColW,
    /// On which side it sets its type.
    pub align: Align,
    /// The key that its heading sorts by, if it does.
    pub sort_key: Option<&'static str>,
}

impl Col {
    /// A column set on the left.
    pub fn new(head: &'static str, width: ColW) -> (r: Col)
        ensures
            r == (Col { head, width, align: Align::Left, sort_key: None }),
    {
        Col { head, width, align: Align::Left, sort_key: None }
    }

    /// The same column, set on the right.
    pub fn right(self) -> (r: Col)
        ensures
            r == (Col { align: Align::Right, ..self }),
    {
        Col { head: self.head, width: self.width, align: Align::Right, sort_key: self.sort_key }
    }

    /// The same column, with a heading that sorts by `key`.
    pub fn sortable(self, key: &'static str) -> (r: Col)
        ensures
            r == (Col { sort_key: Some(key), ..self }),
    {
        Col { head: self.head, width: self.width, align: self.align, sort_key: Some(key) }
    }

    /// The width that a fixed column asks for; a flexible one asks for none.
    pub open spec fn asked(self, scale: int) -> int {
        match self.width {
            ColW::Fixed(w) => if w < 0 {
                0
            } else {
                w * scale / 10_000
            },
            ColW::Flex(_) => 0,
        }
    }

    /// The weight of a flexible column; a fixed one has none.
    pub open spec fn weight(self) -> int {
        match self.width {
            ColW::Flex(w) => if w < 0 {
                0
            } else {
                w as int
            },
            ColW::Fixed(_) => 0,
        }
    }

    /// How many flexible columns this is.
    pub open spec fn flexes(self) -> int {
        match self.width {
            ColW::Flex(_) => 1,
            ColW::Fixed(_) => 0,
        }
    }
}

/// What the first `n` columns ask for.
pub open spec fn asked_by(cols: Seq<Col>, scale: int, n: int) -> int
    decreases n,
{
    if n <= 0 {
        0
    } else {
        asked_by(cols, scale, n - 1) + cols[n - 1].asked(scale)
    }
}

/// The weight of the first `n` columns.
pub open spec fn weight_of(cols: Seq<Col>, n: int) -> int
    decreases n,
{
    if n <= 0 {
        0
    } else {
        weight_of(cols, n - 1) + cols[n - 1].weight()
    }
}

/// How many of the first `n` columns are flexible.
pub open spec fn flexes_of(cols: Seq<Col>, n: int) -> int
    decreases n,
{
    if n <= 0 {
        0
    } else {
        flexes_of(cols, n - 1) + cols[n - 1].flexes()
    }
}

/// The narrowest a flexible column may become: about a dozen characters.
pub open spec fn flex_least(scale: int) -> int {
    theme::sized_of(STEP_LABEL as int, scale) * 7
}

/// The narrowest a flexible column may become.
pub fn flex_min(scale: i32) -> (r: i32)
    requires
        SCALE_MIN <= scale <= SCALE_MAX,
    ensures
        r == flex_least(scale as int),
{
    let s: i32 = sized(STEP_LABEL, scale);
    s * 7
}

/// A width that is no less than nothing.
pub open spec fn room(avail: int) -> int {
    if avail < 0 {
        0
    } else {
        avail
    }
}

/// How much of the ruler the fixed columns share out.
pub open spec fn fixed_share(cols: Seq<Col>, avail: int, scale: int) -> int {
    let n = cols.len() as int;
    let asked = asked_by(cols, scale, n);
    let whole = room(avail);
    let floor = flex_least(scale) * flexes_of(cols, n);
    if asked == 0 {
        0
    } else if asked >= whole {
        whole
    } else if flexes_of(cols, n) > 0 && whole - asked < floor {
        room(whole - floor)
    } else {
        asked
    }
}

/// How much of the ruler the flexible columns share out.
pub open spec fn flex_share(cols: Seq<Col>, avail: int, scale: int) -> int {
    let n = cols.len() as int;
    if weight_of(cols, n) == 0 || asked_by(cols, scale, n) >= room(avail) {
        0
    } else {
        room(avail) - fixed_share(cols, avail, scale)
    }
}

/// Where the share of the parts before `upto` out of `whole` parts ends, when
/// `total` is shared out.
pub open spec fn cut(total: int, upto: int, whole: int) -> int {
    if whole <= 0 {
        0
    } else {
        upto * total / whole
    }
}

/// The lane of column `i`: its part of what the fixed columns share out, or of
/// what the flexible ones do. The cuts between lanes are rounded down, so that
/// no lane is off by a hundredth of a point and none of the ruler is lost.
pub open spec fn lane(cols: Seq<Col>, avail: int, scale: int, i: int) -> int {
    let n = cols.len() as int;
    let asked = asked_by(cols, scale, n);
    let weight = weight_of(cols, n);
    let fixed = fixed_share(cols, avail, scale);
    let flex = flex_share(cols, avail, scale);
    match cols[i].width {
        ColW::Fixed(_) => cut(fixed, asked_by(cols, scale, i + 1), asked) - cut(
            fixed,
            asked_by(cols, scale, i),
            asked,
        ),
        ColW::Flex(_) => cut(flex, weight_of(cols, i + 1), weight) - cut(
            flex,
            weight_of(cols, i),
            weight,
        ),
    }
}

proof fn lemma_asked(cols: Seq<Col>, scale: int, n: int)
    requires
        0 <= n <= cols.len(),
        SCALE_MIN <= scale <= SCALE_MAX,
    ensures
        0 <= asked_by(cols, scale, n) <= n * 4_724_464_026,
        0 <= weight_of(cols, n) <= n * 2_147_483_647,
        0 <= flexes_of(cols, n) <= n,
    decreases n,
{
    if n > 0 {
        lemma_asked(cols, scale, n - 1);
        let c = cols[n - 1];
        lemma_asked_one(c, scale);
        assert(n * 4_724_464_026 == (n - 1) * 4_724_464_026 + 4_724_464_026) by (nonlinear_arith);
        assert(n * 2_147_483_647 == (n - 1) * 2_147_483_647 + 2_147_483_647) by (nonlinear_arith);
    }
}

proof fn lemma_asked_one(c: Col, scale: int)
    requires
        SCALE_MIN <= scale <= SCALE_MAX,
    ensures
        0 <= c.asked(scale) <= 4_724_464_026,
        0 <= c.weight() <= 2_147_483_647,
{
    match c.width {
        ColW::Fixed(w) => {
            if w >= 0 {
                assert(0 <= w * scale <= 2_147_483_647 * 22_000) by (nonlinear_arith)
                    requires
                        0 <= w <= 2_147_483_647,
                        0 <= scale <= 22_000,
                ;
            }
        },
        ColW::Flex(_) => {},
    }
}

proof fn lemma_asked_grows(cols: Seq<Col>, scale: int, i: int, n: int)
    requires
        0 <= i <= n <= cols.len(),
        SCALE_MIN <= scale <= SCALE_MAX,
    ensures
        asked_by(cols, scale, i) <= asked_by(cols, scale, n),
        weight_of(cols, i) <= weight_of(cols, n),
        flexes_of(cols, i) <= flexes_of(cols, n),
    decreases n,
{
    if i < n {
        lemma_asked_grows(cols, scale, i, n - 1);
        lemma_asked_one(cols[n - 1], scale);
    }
}

proof fn lemma_cut(total: int, a: int, b: int, whole: int)
    requires
        0 <= a <= b <= whole,
        0 <= total,
    ensures
        0 <= cut(total, a, whole) <= cut(total, b, whole) <= total,
        whole > 0 ==> cut(total, whole, whole) == total,
        cut(total, 0, whole) == 0,
{
    if whole > 0 {
        assert(0 <= a * total <= b * total <= whole * total) by (nonlinear_arith)
            requires
                0 <= a <= b <= whole,
                0 <= total,
        ;
        assert(0int * total == 0) by (nonlinear_arith);
        vstd::arithmetic::div_mod::lemma_div_is_ordered(0, a * total, whole);
        vstd::arithmetic::div_mod::lemma_div_is_ordered(a * total, b * total, whole);
        vstd::arithmetic::div_mod::lemma_div_is_ordered(b * total, whole * total, whole);
        vstd::arithmetic::div_mod::lemma_div_multiples_vanish(total, whole);
        assert(whole * total == total * whole) by (nonlinear_arith);
        vstd::arithmetic::div_mod::lemma_div_basics(whole);
    }
}

/// Splits `avail` into one lane per column. Fixed columns are served first, and
/// what remains is split between the flexible ones by weight. Where the fixed
/// columns alone overflow, they shrink in proportion; where they would squeeze a
/// flexible column below its least width, they give way in proportion too.
pub fn lanes(cols: &[Col], avail: i32, scale: i32) -> (r: Vec<u64>)
    requires
        SCALE_MIN <= scale <= SCALE_MAX,
    ensures
        r@.len() == cols@.len(),
        forall|i: int|
            0 <= i < cols@.len() ==> r@[i] == lane(cols@, avail as int, scale as int, i),
{
    let ghost k = scale as int;
    let n: usize = cols.len();
    let mut asked: u128 = 0;
    let mut weight: u128 = 0;
    let mut flexes: u128 = 0;
    let mut i: usize = 0;
    while i < n
        invariant
            i <= n,
            n == cols@.len(),
            k == scale,
            SCALE_MIN <= scale <= SCALE_MAX,
            asked == asked_by(cols@, k, i as int),
            weight == weight_of(cols@, i as int),
            flexes == flexes_of(cols@, i as int),
        decreases n - i,
    {
        proof {
            lemma_asked(cols@, k, i + 1);
            lemma_bound(i + 1);
        }
        asked = asked + asked_width(cols[i], scale) as u128;
        weight = weight + flex_weight(cols[i]) as u128;
        flexes = flexes + match cols[i].width {
            ColW::Flex(_) => 1,
            ColW::Fixed(_) => 0,
        };
        i = i + 1;
    }
    proof {
        lemma_asked(cols@, k, n as int);
        lemma_bound(n as int);
    }
    let whole: u128 = if avail < 0 {
        0
    } else {
        avail as u128
    };
    let least: u128 = flex_min(scale) as u128;
    proof {
        assert(least * flexes <= 200_000 * 0x1_0000_0000_0000_0000) by (nonlinear_arith)
            requires
                0 <= least <= 200_000,
                0 <= flexes <= 0x1_0000_0000_0000_0000,
        ;
    }
    let floor: u128 = least * flexes;
    let fixed: u128 = if asked == 0 {
        0
    } else if asked >= whole {
        whole
    } else if flexes > 0 && whole - asked < floor {
        if whole < floor {
            0
        } else {
            whole - floor
        }
    } else {
        asked
    };
    let flex: u128 = if weight == 0 || asked >= whole {
        0
    } else {
        whole - fixed
    };
    assert(fixed == fixed_share(cols@, avail as int, k));
    assert(flex == flex_share(cols@, avail as int, k));
    let mut r: Vec<u64> = Vec::new();
    let mut before_asked: u128 = 0;
    let mut before_weight: u128 = 0;
    let mut j: usize = 0;
    while j < n
        invariant
            j <= n,
            n == cols@.len(),
            k == scale,
            SCALE_MIN <= scale <= SCALE_MAX,
            asked == asked_by(cols@, k, n as int),
            weight == weight_of(cols@, n as int),
            fixed == fixed_share(cols@, avail as int, k),
            flex == flex_share(cols@, avail as int, k),
            fixed <= whole,
            flex <= whole,
            whole <= 2_147_483_647,
            before_asked == asked_by(cols@, k, j as int),
            before_weight == weight_of(cols@, j as int),
            r@.len() == j,
            forall|i: int| 0 <= i < j ==> r@[i] == lane(cols@, avail as int, k, i),
        decreases n - j,
    {
        proof {
            lemma_asked(cols@, k, j + 1);
            lemma_bound(j + 1);
            lemma_asked(cols@, k, n as int);
            lemma_bound(n as int);
            lemma_asked_grows(cols@, k, j as int, j + 1);
            lemma_asked_grows(cols@, k, j + 1, n as int);
            lemma_asked(cols@, k, j as int);
            lemma_cut(fixed as int, before_asked as int, asked_by(cols@, k, j + 1), asked as int);
            lemma_cut(flex as int, before_weight as int, weight_of(cols@, j + 1), weight as int);
        }
        let after_asked: u128 = before_asked + asked_width(cols[j], scale) as u128;
        let after_weight: u128 = before_weight + flex_weight(cols[j]) as u128;
        let w: u128 = match cols[j].width {
            ColW::Fixed(_) => cut_at(fixed, after_asked, asked) - cut_at(
                fixed,
                before_asked,
                asked,
            ),
            ColW::Flex(_) => cut_at(flex, after_weight, weight) - cut_at(
                flex,
                before_weight,
                weight,
            ),
        };
        r.push(w as u64);
        before_asked = after_asked;
        before_weight = after_weight;
        j = j + 1;
    }
    r
}

proof fn lemma_bound(n: int)
    requires
        0 <= n <= 0x1_0000_0000_0000_0000,
    ensures
        n * 4_724_464_026 <= 0x1_0000_0000_0000_0000 * 4_724_464_026,
        n * 2_147_483_647 <= 0x1_0000_0000_0000_0000 * 2_147_483_647,
{
}

fn asked_width(c: Col, scale: i32) -> (r: u64)
    requires
        SCALE_MIN <= scale <= SCALE_MAX,
    ensures
        r == c.asked(scale as int),
{
    proof {
        lemma_asked_one(c, scale as int);
    }
    match c.width {
        ColW::Fixed(w) => if w < 0 {
            0
        } else {
            proof {
                assert(0 <= w * scale <= 2_147_483_647 * 22_000) by (nonlinear_arith)
                    requires
                        0 <= w <= 2_147_483_647,
                        0 <= scale <= 22_000,
                ;
            }
            w as u64 * scale as u64 / 10_000
        },
        ColW::Flex(_) => 0,
    }
}

fn flex_weight(c: Col) -> (r: u64)
    ensures
        r == c.weight(),
{
    match c.width {
        ColW::Flex(w) => if w < 0 {
            0
        } else {
            w as u64
        },
        ColW::Fixed(_) => 0,
    }
}

fn cut_at(total: u128, upto: u128, whole: u128) -> (r: u128)
    requires
        upto <= whole,
        total <= 2_147_483_647,
        whole <= 0x1_0000_0000_0000_0000 * 4_724_464_026,
    ensures
        r == cut(total as int, upto as int, whole as int),
{
    if whole == 0 {
        return 0;
    }
    proof {
        assert(upto * total <= 0x1_0000_0000_0000_0000 * 4_724_464_026 * 2_147_483_647)
            by (nonlinear_arith)
            requires
                0 <= upto <= 0x1_0000_0000_0000_0000 * 4_724_464_026,
                0 <= total <= 2_147_483_647,
        ;
    }
    upto * total / whole
}

/// What the first `n` lanes take together.
pub open spec fn lanes_width(cols: Seq<Col>, avail: int, scale: int, n: int) -> int
    decreases n,
{
    if n <= 0 {
        0
    } else {
        lanes_width(cols, avail, scale, n - 1) + lane(cols, avail, scale, n - 1)
    }
}

proof fn lemma_lanes_so_far(cols: Seq<Col>, avail: int, scale: int, n: int)
    requires
        0 <= n <= cols.len(),
    ensures
        ({
            let all = cols.len() as int;
            lanes_width(cols, avail, scale, n) == cut(
                fixed_share(cols, avail, scale),
                asked_by(cols, scale, n),
                asked_by(cols, scale, all),
            ) + cut(
                flex_share(cols, avail, scale),
                weight_of(cols, n),
                weight_of(cols, all),
            )
        }),
    decreases n,
{
    let all = cols.len() as int;
    if n > 0 {
        lemma_lanes_so_far(cols, avail, scale, n - 1);
    } else {
        let a = asked_by(cols, scale, all);
        let w = weight_of(cols, all);
        assert(0 * fixed_share(cols, avail, scale) == 0) by (nonlinear_arith);
        assert(0 * flex_share(cols, avail, scale) == 0) by (nonlinear_arith);
        if a > 0 {
            vstd::arithmetic::div_mod::lemma_div_basics(a);
        }
        if w > 0 {
            vstd::arithmetic::div_mod::lemma_div_basics(w);
        }
    }
}

/// The lanes fill the ruler: with a flexible column that has a weight, or with
/// fixed columns that ask for all of it, they sum to the width available, and
/// they never sum to more.
pub proof fn law_lanes_fill_the_ruler(cols: Seq<Col>, avail: int, scale: int)
    requires
        SCALE_MIN <= scale <= SCALE_MAX,
    ensures
        ({
            let n = cols.len() as int;
            let sum = lanes_width(cols, avail, scale, n);
            &&& sum == fixed_share(cols, avail, scale) + flex_share(cols, avail, scale)
            &&& sum <= room(avail)
            &&& weight_of(cols, n) > 0 ==> sum == room(avail)
            &&& asked_by(cols, scale, n) > 0 && asked_by(cols, scale, n) >= room(avail) ==> sum
                == room(avail)
        }),
{
    let n = cols.len() as int;
    lemma_asked(cols, scale, n);
    lemma_lanes_so_far(cols, avail, scale, n);
    let fixed = fixed_share(cols, avail, scale);
    let flex = flex_share(cols, avail, scale);
    lemma_shares(cols, avail, scale);
    lemma_cut(fixed, 0, asked_by(cols, scale, n), asked_by(cols, scale, n));
    lemma_cut(flex, 0, weight_of(cols, n), weight_of(cols, n));
}

proof fn lemma_shares(cols: Seq<Col>, avail: int, scale: int)
    requires
        SCALE_MIN <= scale <= SCALE_MAX,
    ensures
        0 <= fixed_share(cols, avail, scale) <= room(avail),
        fixed_share(cols, avail, scale) <= asked_by(cols, scale, cols.len() as int),
        0 <= flex_share(cols, avail, scale) <= room(avail),
{
    let n = cols.len() as int;
    lemma_asked(cols, scale, n);
    assert(flex_least(scale) * flexes_of(cols, n) >= 0) by (nonlinear_arith)
        requires
            flex_least(scale) >= 0,
            flexes_of(cols, n) >= 0,
    ;
}

/// A lane is off its exact share by less than a hundredth of a point: the fixed
/// columns share out in proportion to what they ask for, and the flexible ones
/// in proportion to their weights.
pub proof fn law_lanes_keep_their_proportions(cols: Seq<Col>, avail: int, scale: int, i: int)
    requires
        SCALE_MIN <= scale <= SCALE_MAX,
        0 <= i < cols.len(),
    ensures
        ({
            let n = cols.len() as int;
            let asked = asked_by(cols, scale, n);
            let weight = weight_of(cols, n);
            let w = lane(cols, avail, scale, i);
            &&& w >= 0
            &&& cols[i].width is Fixed && asked > 0 ==> -asked < w * asked - cols[i].asked(scale)
                * fixed_share(cols, avail, scale) < asked
            &&& cols[i].width is Flex && weight > 0 ==> -weight < w * weight - cols[i].weight()
                * flex_share(cols, avail, scale) < weight
        }),
{
    let n = cols.len() as int;
    lemma_asked(cols, scale, n);
    lemma_asked(cols, scale, i);
    lemma_asked_grows(cols, scale, i, i + 1);
    lemma_asked_grows(cols, scale, i + 1, n);
    lemma_shares(cols, avail, scale);
    let fixed = fixed_share(cols, avail, scale);
    let flex = flex_share(cols, avail, scale);
    let asked = asked_by(cols, scale, n);
    let weight = weight_of(cols, n);
    lemma_cut(fixed, asked_by(cols, scale, i), asked_by(cols, scale, i + 1), asked);
    lemma_cut(flex, weight_of(cols, i), weight_of(cols, i + 1), weight);
    if cols[i].width is Fixed && asked > 0 {
        lemma_cut_share(fixed, asked_by(cols, scale, i), cols[i].asked(scale), asked);
    }
    if cols[i].width is Flex && weight > 0 {
        lemma_cut_share(flex, weight_of(cols, i), cols[i].weight(), weight);
    }
}

proof fn lemma_cut_share(total: int, a: int, part: int, whole: int)
    requires
        whole > 0,
    ensures
        -whole < (cut(total, a + part, whole) - cut(total, a, whole)) * whole - part * total
            < whole,
{
    let x = a * total;
    let y = (a + part) * total;
    assert(y == x + part * total) by (nonlinear_arith)
        requires
            x == a * total,
            y == (a + part) * total,
    ;
    vstd::arithmetic::div_mod::lemma_fundamental_div_mod(x, whole);
    vstd::arithmetic::div_mod::lemma_fundamental_div_mod(y, whole);
    vstd::arithmetic::div_mod::lemma_mod_bound(x, whole);
    vstd::arithmetic::div_mod::lemma_mod_bound(y, whole);
    assert((y / whole - x / whole) * whole == whole * (y / whole) - whole * (x / whole))
        by (nonlinear_arith);
}

/// A fixed column that is not crowded gets exactly what it asks for.
pub proof fn law_a_roomy_ruler_squeezes_nothing(cols: Seq<Col>, avail: int, scale: int, i: int)
    requires
        SCALE_MIN <= scale <= SCALE_MAX,
        0 <= i < cols.len(),
        cols[i].width is Fixed,
        asked_by(cols, scale, cols.len() as int) + flex_least(scale) * flexes_of(
            cols,
            cols.len() as int,
        ) <= room(avail),
    ensures
        lane(cols, avail, scale, i) == cols[i].asked(scale),
{
    let n = cols.len() as int;
    lemma_asked(cols, scale, n);
    lemma_asked(cols, scale, i);
    lemma_asked_grows(cols, scale, i, i + 1);
    lemma_asked_grows(cols, scale, i + 1, n);
    let asked = asked_by(cols, scale, n);
    assert(flex_least(scale) * flexes_of(cols, n) >= 0) by (nonlinear_arith)
        requires
            flex_least(scale) >= 0,
            flexes_of(cols, n) >= 0,
    ;
    assert(fixed_share(cols, avail, scale) == asked);
    if asked > 0 {
        vstd::arithmetic::div_mod::lemma_div_multiples_vanish(asked_by(cols, scale, i), asked);
        vstd::arithmetic::div_mod::lemma_div_multiples_vanish(asked_by(cols, scale, i + 1), asked);
        assert(asked_by(cols, scale, i) * asked == asked * asked_by(cols, scale, i))
            by (nonlinear_arith);
        assert(asked_by(cols, scale, i + 1) * asked == asked * asked_by(cols, scale, i + 1))
            by (nonlinear_arith);
    }
}

/// The flexible columns together keep their least widths, as long as the fixed
/// ones alone do not overflow the ruler and the ruler holds those least widths.
pub proof fn law_a_flexible_column_survives_a_crowd(cols: Seq<Col>, avail: int, scale: int)
    requires
        SCALE_MIN <= scale <= SCALE_MAX,
        weight_of(cols, cols.len() as int) > 0,
        asked_by(cols, scale, cols.len() as int) < room(avail),
        flex_least(scale) * flexes_of(cols, cols.len() as int) <= room(avail),
    ensures
        flex_share(cols, avail, scale) >= flex_least(scale) * flexes_of(cols, cols.len() as int),
{
    let n = cols.len() as int;
    lemma_asked(cols, scale, n);
    lemma_some_flex(cols, n);
}

proof fn lemma_some_flex(cols: Seq<Col>, n: int)
    requires
        0 <= n <= cols.len(),
    ensures
        flexes_of(cols, n) >= 0,
        weight_of(cols, n) > 0 ==> flexes_of(cols, n) > 0,
    decreases n,
{
    if n > 0 {
        lemma_some_flex(cols, n - 1);
    }
}

// ---------------------------------------------------------------------------
// Vertical measure
// ---------------------------------------------------------------------------

/// The height of one laid-out line: half as much again as its type, since the
/// tallest face needs that much.
pub open spec fn line_of(step: int, scale: int) -> int {
    step * scale * 3 / 20_000
}

/// The height of one laid-out line of type at a text scale.
pub fn line_h(step: i32, scale: i32) -> (r: i64)
    requires
        SCALE_MIN <= scale <= SCALE_MAX,
    ensures
        r == line_of(step as int, scale as int),
{
    proof {
        assert(-2_147_483_648 * 22_000 <= step * scale <= 2_147_483_647 * 22_000)
            by (nonlinear_arith)
            requires
                -2_147_483_648 <= step <= 2_147_483_647,
                0 <= scale <= 22_000,
        ;
    }
    let v: i64 = step as i64 * scale as i64 * 3;
    // Rounded down, also below nothing.
    if v < 0 {
        -((19_999 - v) / 20_000)
    } else {
        v / 20_000
    }
}

/// The vertical measure of an entry that stacks lines of type.
#[derive(Clone, Copy, PartialEq, Eq, Debug, Structural)]
pub struct Stack {
    /// The lines and the gaps between them.
    pub content: i128,
    /// The height the entry is ruled at.
    pub row: i128,
}

/// The height of the lines at those sizes. A size that is no number, or less
/// than nothing, costs nothing.
pub open spec fn lines_of(steps: Seq<Option<i32>>, scale: int) -> int
    decreases steps.len(),
{
    if steps.len() == 0 {
        0
    } else {
        lines_of(steps.drop_last(), scale) + match steps.last() {
            Some(s) => if s < 0 {
                0
            } else {
                line_of(s as int, scale)
            },
            None => 0,
        }
    }
}

/// The lines at those sizes, with a gap between one and the next.
pub open spec fn content_of(steps: Seq<Option<i32>>, scale: int) -> int {
    lines_of(steps, scale) + SPACE_S * (if steps.len() == 0 {
        0
    } else {
        steps.len() - 1
    })
}

/// The air of a one-line entry around a label.
pub open spec fn lead_of(scale: int, one_line: int) -> int {
    room(one_line - line_of(STEP_LABEL as int, scale))
}

/// The height of an entry that stacks those lines: its content with the air of
/// a one-line entry, and never less than one.
pub open spec fn row_of(steps: Seq<Option<i32>>, scale: int, one_line: int) -> int {
    let r = content_of(steps, scale) + lead_of(scale, one_line);
    if r < one_line {
        one_line
    } else {
        r
    }
}

proof fn lemma_lines(steps: Seq<Option<i32>>, scale: int)
    requires
        SCALE_MIN <= scale <= SCALE_MAX,
    ensures
        0 <= lines_of(steps, scale) <= steps.len() * 7_086_696_036,
    decreases steps.len(),
{
    if steps.len() > 0 {
        lemma_lines(steps.drop_last(), scale);
        match steps.last() {
            Some(s) => {
                if s >= 0 {
                    assert(0 <= s * scale <= 2_147_483_647 * 22_000) by (nonlinear_arith)
                        requires
                            0 <= s <= 2_147_483_647,
                            0 <= scale <= 22_000,
                    ;
                }
            },
            None => {},
        }
        assert(steps.len() * 7_086_696_036 == (steps.len() - 1) * 7_086_696_036 + 7_086_696_036)
            by (nonlinear_arith);
    }
}

/// Measures an entry that stacks one line per size, against the height of a
/// one-line entry.
pub fn measure(steps: &[Option<i32>], scale: i32, one_line: i32) -> (r: Stack)
    requires
        SCALE_MIN <= scale <= SCALE_MAX,
    ensures
        r.content == content_of(steps@, scale as int),
        r.row == row_of(steps@, scale as int, one_line as int),
{
    let mut lines: i128 = 0;
    let mut i: usize = 0;
    while i < steps.len()
        invariant
            i <= steps@.len(),
            SCALE_MIN <= scale <= SCALE_MAX,
            lines == lines_of(steps@.take(i as int), scale as int),
        decreases steps@.len() - i,
    {
        proof {
            lemma_lines(steps@.take(i + 1), scale as int);
            lemma_lines(steps@.take(i as int), scale as int);
            assert(steps@.take(i + 1).drop_last() =~= steps@.take(i as int));
            assert(i as int * 7_086_696_036 <= 0x1_0000_0000_0000_0000 * 7_086_696_036);
        }
        let h: i64 = match steps[i] {
            Some(s) => if s < 0 {
                0
            } else {
                line_h(s, scale)
            },
            None => 0,
        };
        lines = lines + h as i128;
        i = i + 1;
    }
    proof {
        assert(steps@.take(i as int) =~= steps@);
        lemma_lines(steps@, scale as int);
        assert(i as int * 7_086_696_036 <= 0x1_0000_0000_0000_0000 * 7_086_696_036);
    }
    let gaps: i128 = if steps.len() == 0 {
        0
    } else {
        SPACE_S as i128 * (steps.len() - 1) as i128
    };
    let content: i128 = lines + gaps;
    let label: i64 = line_h(STEP_LABEL, scale);
    let lead: i128 = if (one_line as i64) < label {
        0
    } else {
        one_line as i128 - label as i128
    };
    let row: i128 = content + lead;
    Stack {
        content,
        row: if row < one_line as i128 {
            one_line as i128
        } else {
            row
        },
    }
}

/// Measures an entry that stacks one line per size, at a density.
pub fn stacked(steps: &[Option<i32>], scale: i32, density: Density) -> (r: Stack)
    requires
        SCALE_MIN <= scale <= SCALE_MAX,
    ensures
        r.content == content_of(steps@, scale as int),
        r.row == row_of(steps@, scale as int, density.row(scale as int)),
{
    measure(steps, scale, density.row_h(scale))
}

/// An entry is never ruled lower than what it holds, nor lower than a one-line
/// entry, and what it has to spare is the air of a one-line entry.
pub proof fn law_an_entry_clears_its_content(
    steps: Seq<Option<i32>>,
    scale: int,
    one_line: int,
)
    requires
        SCALE_MIN <= scale <= SCALE_MAX,
        one_line >= line_of(STEP_LABEL as int, scale),
    ensures
        row_of(steps, scale, one_line) >= content_of(steps, scale),
        row_of(steps, scale, one_line) >= one_line,
        content_of(steps, scale) >= line_of(STEP_LABEL as int, scale) ==> row_of(
            steps,
            scale,
            one_line,
        ) - content_of(steps, scale) == one_line - line_of(STEP_LABEL as int, scale),
{
}

/// One line of label type measures the row that the density rules anyway, and so
/// does an entry that declares no lines.
pub proof fn law_one_label_is_one_row(density: Density, scale: int)
    requires
        SCALE_MIN <= scale <= SCALE_MAX,
    ensures
        row_of(seq![Some(STEP_LABEL)], scale, density.row(scale)) == density.row(scale),
        row_of(Seq::<Option<i32>>::empty(), scale, density.row(scale)) == density.row(scale),
{
    let one = seq![Some(STEP_LABEL)];
    assert(one.drop_last() =~= Seq::<Option<i32>>::empty());
    reveal_with_fuel(lines_of, 2);
    let k = if scale < 10_000 {
        10_000
    } else {
        scale
    };
    assert(density.base() * k >= 2_400 * k) by (nonlinear_arith)
        requires
            density.base() >= 2_400,
            k >= 0,
    ;
}

/// More text in an entry never makes its row lower.
pub proof fn law_a_longer_stack_is_no_lower(
    steps: Seq<Option<i32>>,
    more: Option<i32>,
    scale: int,
    one_line: int,
)
    requires
        SCALE_MIN <= scale <= SCALE_MAX,
    ensures
        row_of(steps, scale, one_line) <= row_of(steps.push(more), scale, one_line),
        content_of(steps, scale) <= content_of(steps.push(more), scale),
{
    assert(steps.push(more).drop_last() =~= steps);
    match more {
        Some(s) => {
            if s >= 0 {
                assert(s * scale >= 0) by (nonlinear_arith)
                    requires
                        s >= 0,
                        scale >= 0,
                ;
            }
        },
        None => {},
    }
}

// ---------------------------------------------------------------------------
// What the register shows
// ---------------------------------------------------------------------------

/// What the register has to show.
#[derive(Clone, Copy, Debug)]
pub enum Content<'a> {
    /// So many entries.
    Entries(usize),
    /// The source was read and holds nothing.
    Empty {
        /// What is not here.
        title: &'a str,
        /// What can be done about it.
        hint: &'a str,
    },
    /// The source has not been read yet.
    Loading,
    /// The source could not be read.
    Failed {
        /// What could not be read.
        what: &'a str,
        /// Why.
        because: &'a str,
    },
}

/// What the user did to the register in one frame.
#[derive(Clone, Copy, Debug)]
pub struct Out {
    /// The key of the heading that was clicked.
    pub sort: Option<&'static str>,
    /// Whether the retry of a failed read was clicked.
    pub retry: bool,
}

impl Default for Out {
    fn default() -> (r: Out)
        ensures
            r.sort is None,
            !r.retry,
    {
        Out { sort: None, retry: false }
    }
}

/// The body that is drawn below the ruler.
#[derive(Clone, Copy, Debug)]
pub enum Page<'a> {
    /// So many ruled rows.
    Rows(usize),
    /// A watermarked page with two lines on it.
    Blank {
        /// The first line.
        title: &'a str,
        /// The second line.
        hint: &'a str,
    },
    /// So many ruled blanks that wait to be written.
    Skeleton(usize),
    /// A notice of what went wrong, with a button that tries again.
    Failure {
        /// Its first line.
        what: &'a str,
        /// Its second line.
        because: &'a str,
    },
}

/// The body for a content.
pub open spec fn page_for(content: Content<'_>) -> Page<'_> {
    match content {
        Content::Entries(n) => Page::Rows(n),
        Content::Empty { title, hint } => Page::Blank { title, hint },
        Content::Loading => Page::Skeleton(LOADING_ROWS),
        Content::Failed { what, because } => Page::Failure { what, because },
    }
}

/// The body for a content.
pub fn page<'a>(content: Content<'a>) -> (r: Page<'a>)
    ensures
        r == page_for(content),
{
    match content {
        Content::Entries(n) => Page::Rows(n),
        Content::Empty { title, hint } => Page::Blank { title, hint },
        Content::Loading => Page::Skeleton(LOADING_ROWS),
        Content::Failed { what, because } => Page::Failure { what, because },
    }
}

/// Only a source that was read and holds nothing is drawn as an empty page, and
/// every failed read says so and offers to try again.
pub proof fn law_a_failed_read_is_never_an_empty_page(content: Content<'_>)
    ensures
        page_for(content) is Blank <==> content is Empty,
        page_for(content) is Failure <==> content is Failed,
{
}

/// A ruled register.
#[derive(Clone, Copy, Debug)]
pub struct Register<'a> {
    /// What tells it apart from the other registers of its view.
    pub id_salt: &'a str,
    /// Its columns.
    pub cols: &'a [Col],
    /// Whether it has a margin.
    pub margin: bool,
    /// The key it is sorted by, and whether it runs downwards.
    pub sort: Option<(&'a str, bool)>,
    /// The height its body is held to.
    pub max_height: Option<i32>,
    /// The height of one entry, where it is not the density's.
    pub row: Option<i128>,
    /// The height of the lines in one entry, where they are stacked.
    pub stack: Option<i128>,
}

impl<'a> Register<'a> {
    /// A register over those columns.
    pub fn new(id_salt: &'a str, cols: &'a [Col]) -> (r: Register<'a>)
        ensures
            r == (Register {
                id_salt,
                cols,
                margin: true,
                sort: None,
                max_height: None,
                row: None,
                stack: None,
            }),
    {
        Register {
            id_salt,
            cols,
            margin: true,
            sort: None,
            max_height: None,
            row: None,
            stack: None,
        }
    }

    /// The same register without a margin.
    pub fn no_margin(self) -> (r: Register<'a>)
        ensures
            r == (Register { margin: false, ..self }),
    {
        let mut r: Register<'a> = self;
        r.margin = false;
        r
    }

    /// The same register, sorted by `key`.
    pub fn sorted_by(self, key: &'a str, descending: bool) -> (r: Register<'a>)
        ensures
            r == (Register { sort: Some((key, descending)), ..self }),
    {
        let mut r: Register<'a> = self;
        r.sort = Some((key, descending));
        r
    }

    /// The same register, with its body held to a height.
    pub fn max_height(self, h: i32) -> (r: Register<'a>)
        ensures
            r == (Register { max_height: Some(h), ..self }),
    {
        let mut r: Register<'a> = self;
        r.max_height = Some(h);
        r
    }

    /// The same register, with entries that stack one line per size.
    pub fn stacked_rows(self, steps: &[Option<i32>], scale: i32, density: Density) -> (r: Register<
        'a,
    >)
        requires
            SCALE_MIN <= scale <= SCALE_MAX,
        ensures
            r.stack is Some,
            (r.stack->0) as int == content_of(steps@, scale as int),
            r.row is Some,
            (r.row->0) as int == row_of(steps@, scale as int, density.row(scale as int)),
            r == (Register { stack: r.stack, row: r.row, ..self }),
    {
        let s: Stack = stacked(steps, scale, density);
        let mut r: Register<'a> = self;
        r.stack = Some(s.content);
        r.row = Some(s.row);
        r
    }

    /// The same register, ruled at a height of its own: no less than nothing, and
    /// nothing for what is no number.
    pub fn row_height(self, h: Option<i32>) -> (r: Register<'a>)
        ensures
            r.row is Some,
            (r.row->0) as int == (match h {
                Some(v) => room(v as int),
                None => 0,
            }),
            r == (Register { row: r.row, ..self }),
    {
        let mut r: Register<'a> = self;
        let v: i128 = match h {
            Some(v) => if v < 0 {
                0
            } else {
                v as i128
            },
            None => 0,
        };
        r.row = Some(v);
        r
    }

    /// The height of one entry: its own, or else the density's.
    pub fn row_h(&self, scale: i32, density: Density) -> (r: i128)
        requires
            SCALE_MIN <= scale <= SCALE_MAX,
        ensures
            r as int == (match self.row {
                Some(h) => h as int,
                None => density.row(scale as int),
            }),
    {
        match self.row {
            Some(h) => h,
            None => density.row_h(scale) as i128,
        }
    }

    /// The height that the content of a cell is centred in, in a row of that
    /// height: the stacked lines, as far as the row holds them, or else the row.
    pub fn band(&self, row: i128) -> (r: i128)
        ensures
            r == (match self.stack {
                Some(h) => if h < row {
                    h
                } else {
                    row
                },
                None => row,
            }),
    {
        match self.stack {
            Some(h) => if h < row {
                h
            } else {
                row
            },
            None => row,
        }
    }

    /// Whether the ruler is drawn: not where no column has a heading.
    pub open spec fn is_ruled(self) -> bool {
        exists|i: int|
            0 <= i < self.cols@.len() && text::trimmed(#[trigger] self.cols@[i].head@).len() > 0
    }

    /// Whether the ruler is drawn.
    pub fn ruled(&self) -> (r: bool)
        ensures
            r == self.is_ruled(),
    {
        let mut i: usize = 0;
        while i < self.cols.len()
            invariant
                i <= self.cols@.len(),
                forall|j: int|
                    0 <= j < i ==> text::trimmed(#[trigger] self.cols@[j].head@).len() == 0,
            decreases self.cols@.len() - i,
        {
            let t: &str = trim(self.cols[i].head);
            if !t.is_empty() {
                return true;
            }
            i = i + 1;
        }
        false
    }

    /// Whether the register is sorted by a column: `Some(descending)` if it is.
    pub open spec fn sorts(self, col: Col) -> Option<bool> {
        match (self.sort, col.sort_key) {
            (Some((key, descending)), Some(own)) => if key@ == own@ {
                Some(descending)
            } else {
                None
            },
            _ => None,
        }
    }

    /// Whether the register is sorted by a column: `Some(descending)` if it is.
    pub fn active(&self, col: &Col) -> (r: Option<bool>)
        ensures
            r == self.sorts(*col),
    {
        match self.sort {
            None => None,
            Some((key, descending)) => match col.sort_key {
                None => None,
                Some(own) => if same(key, own) {
                    Some(descending)
                } else {
                    None
                },
            },
        }
    }

    /// How much of the full width is left for the lanes: what the margin and the
    /// gaps between columns do not take.
    pub open spec fn for_lanes(self, full: int, pad: int, scale: int) -> int {
        room(
            full - (if self.margin {
                margin_of(scale)
            } else {
                0
            }) - pad * (if self.cols@.len() == 0 {
                0
            } else {
                self.cols@.len() - 1
            }),
        )
    }

    /// What one frame reports. `head_clicked` is the column whose heading was
    /// clicked, and `retry_clicked` says whether the button of a failure was.
    /// Only the heading of a column that sorts reports anything, and only a
    /// failed read can be retried.
    pub fn show(&self, content: &Content<'_>, head_clicked: Option<usize>, retry_clicked: bool) -> (r:
        Out)
        ensures
            r.retry == (content is Failed && retry_clicked),
            r.sort == (match head_clicked {
                Some(i) => if self.is_ruled() && i < self.cols@.len() {
                    self.cols@[i as int].sort_key
                } else {
                    None
                },
                None => None,
            }),
    {
        let sort: Option<&'static str> = match head_clicked {
            Some(i) => if i < self.cols.len() && self.ruled() {
                self.cols[i].sort_key
            } else {
                None
            },
            None => None,
        };
        let failed: bool = match content {
            Content::Failed { .. } => true,
            _ => false,
        };
        Out { sort, retry: failed && retry_clicked }
    }

    /// The lanes of the register in a view of that width, with that much padding
    /// between columns.
    pub fn layout(&self, full: i32, pad: i32, scale: i32) -> (r: Vec<u64>)
        requires
            SCALE_MIN <= scale <= SCALE_MAX,
            self.for_lanes(full as int, pad as int, scale as int) <= i32::MAX,
        ensures
            r@.len() == self.cols@.len(),
            forall|i: int|
                0 <= i < self.cols@.len() ==> r@[i] == lane(
                    self.cols@,
                    self.for_lanes(full as int, pad as int, scale as int),
                    scale as int,
                    i,
                ),
    {
        let margin: i128 = if self.margin {
            margin_w(scale) as i128
        } else {
            0
        };
        let n: usize = self.cols.len();
        let between: i128 = if n == 0 {
            0
        } else {
            (n - 1) as i128
        };
        proof {
            assert(-0x8000_0000 * 0x1_0000_0000_0000_0000 <= pad * between <= 0x8000_0000
                * 0x1_0000_0000_0000_0000) by (nonlinear_arith)
                requires
                    -0x8000_0000 <= pad <= 0x7fff_ffff,
                    0 <= between <= 0x1_0000_0000_0000_0000,
            ;
        }
        let left: i128 = full as i128 - margin - pad as i128 * between;
        let avail: i32 = if left < 0 {
            0
        } else {
            left as i32
        };
        lanes(self.cols, avail, scale)
    }
}

/// The width of the margin: room for three figures, and never less than its
/// least.
pub open spec fn margin_of(scale: int) -> int {
    let w = theme::sized_of(STEP_META as int, scale) * 18 / 10 + SPACE_M;
    if w < MARGIN_W {
        MARGIN_W as int
    } else {
        w
    }
}

/// The width of the margin at a text scale.
pub fn margin_w(scale: i32) -> (r: i32)
    requires
        SCALE_MIN <= scale <= SCALE_MAX,
    ensures
        r == margin_of(scale as int),
        r >= MARGIN_W,
{
    let s: i32 = sized(STEP_META, scale);
    let w: i32 = s * 18 / 10 + SPACE_M;
    if w < MARGIN_W {
        MARGIN_W
    } else {
        w
    }
}

/// The height of the ruler: the type with its gap, and never less than its line.
pub fn ruler_h(scale: i32) -> (r: i64)
    requires
        SCALE_MIN <= scale <= SCALE_MAX,
    ensures
        r == geometry::larger(
            theme::sized_of(STEP_META as int, scale as int) + SPACE_M,
            line_of(STEP_META as int, scale as int),
        ),
{
    let a: i64 = sized(STEP_META, scale) as i64 + SPACE_M as i64;
    let b: i64 = line_h(STEP_META, scale);
    if a < b {
        b
    } else {
        a
    }
}

/// Where the two lines of an empty page stand.
#[derive(Clone, Copy, PartialEq, Eq, Debug, Structural)]
pub struct EmptyPage {
    /// How far the middles of the two lines stand apart.
    pub apart: i64,
    /// The height of the page.
    pub height: i64,
}

/// The empty page at a text scale and a density: the lines never run into one
/// another, and the page holds them both.
pub fn empty_page(scale: i32, density: Density) -> (r: EmptyPage)
    requires
        SCALE_MIN <= scale <= SCALE_MAX,
    ensures
        ({
            let title = line_of(STEP_BODY as int, scale as int);
            let hint = line_of(STEP_META as int, scale as int);
            &&& r.apart == geometry::larger(
                theme::sized_of(STEP_BODY as int, scale as int) + SPACE_M,
                (title + hint) / 2,
            )
            &&& r.height == geometry::larger(
                geometry::larger(density.row(scale as int) * 4, EMPTY_MIN_H as int),
                r.apart + title + hint,
            )
        }),
{
    let title: i64 = line_h(STEP_BODY, scale);
    let hint: i64 = line_h(STEP_META, scale);
    let near: i64 = sized(STEP_BODY, scale) as i64 + SPACE_M as i64;
    let half: i64 = (title + hint) / 2;
    let apart: i64 = if near < half {
        half
    } else {
        near
    };
    let rows: i64 = density.row_h(scale) as i64 * 4;
    let least: i64 = if rows < EMPTY_MIN_H as i64 {
        EMPTY_MIN_H as i64
    } else {
        rows
    };
    let needs: i64 = apart + title + hint;
    EmptyPage {
        apart,
        height: if least < needs {
            needs
        } else {
            least
        },
    }
}

// ---------------------------------------------------------------------------
// One entry
// ---------------------------------------------------------------------------

/// One ruled entry, filled lane by lane.
#[derive(Clone, Copy, Debug)]
pub struct Entry<'u> {
    /// Its place in the register.
    pub index: usize,
    /// The lanes of the register.
    pub widths: &'u [u64],
    /// The width of the margin; none where the register has no margin.
    pub margin_w: i32,
    /// The padding between columns.
    pub pad: i32,
    /// The next lane to fill.
    pub lane: usize,
    /// Who holds it.
    pub custody: Option<Custody>,
    /// Whether it is selected.
    pub selected: bool,
    /// Whether its margin carries a mark.
    pub mark: bool,
    /// The folio it carries, where it is not its place.
    pub folio: Option<usize>,
    /// Whether it closes with a divider.
    pub heavy_rule: bool,
    /// How far its first lane is indented.
    pub indent: i64,
}

/// Where a cell stands in its row.
#[derive(Clone, Copy, PartialEq, Eq, Debug, Structural)]
pub struct Cell {
    /// Its left edge, from the left edge of the row.
    pub x: i128,
    /// Its width.
    pub w: i128,
}

/// The ground of an entry.
#[derive(Clone, Copy, PartialEq, Eq, Debug, Structural)]
pub enum Ground {
    /// The ground of the selection, with a bar on its leading edge.
    Selected,
    /// A raised ground.
    Raised,
    /// A tint that asks for attention.
    Tint(Custody),
    /// No ground.
    Bare,
}

/// What stands in the margin of an entry.
#[derive(Clone, Copy, PartialEq, Eq, Debug, Structural)]
pub enum Mark {
    /// Nothing.
    Blank,
    /// The seal of what is held.
    Seal(Custody),
    /// A number.
    Folio(u128),
}

/// What the first `n` lanes take.
pub open spec fn width_of(widths: Seq<u64>, n: int) -> int
    decreases n,
{
    if n <= 0 {
        0
    } else {
        width_of(widths, n - 1) + widths[n - 1]
    }
}

proof fn lemma_width_of(widths: Seq<u64>, n: int)
    requires
        0 <= n <= widths.len(),
    ensures
        0 <= width_of(widths, n) <= n * 0x1_0000_0000_0000_0000,
    decreases n,
{
    if n > 0 {
        lemma_width_of(widths, n - 1);
        assert(n * 0x1_0000_0000_0000_0000 == (n - 1) * 0x1_0000_0000_0000_0000
            + 0x1_0000_0000_0000_0000) by (nonlinear_arith);
    }
}

/// Where lane `i` starts.
pub open spec fn lane_x(widths: Seq<u64>, margin_w: int, pad: int, i: int) -> int {
    margin_w + width_of(widths, i) + pad * i
}

impl<'u> Entry<'u> {
    /// A plain entry.
    pub fn new(index: usize, widths: &'u [u64], margin_w: i32, pad: i32) -> (r: Entry<'u>)
        ensures
            r == (Entry {
                index,
                widths,
                margin_w,
                pad,
                lane: 0,
                custody: None,
                selected: false,
                mark: true,
                folio: None,
                heavy_rule: false,
                indent: 0,
            }),
    {
        Entry {
            index,
            widths,
            margin_w,
            pad,
            lane: 0,
            custody: None,
            selected: false,
            mark: true,
            folio: None,
            heavy_rule: false,
            indent: 0,
        }
    }

    /// Its place in the register.
    pub fn index(&self) -> (r: usize)
        ensures
            r == self.index,
    {
        self.index
    }

    /// Says who holds the entry.
    pub fn custody(&mut self, c: Custody)
        ensures
            *final(self) == (Entry { custody: Some(c), ..*old(self) }),
    {
        self.custody = Some(c);
    }

    /// Says whether the entry is selected.
    pub fn selected(&mut self, yes: bool)
        ensures
            *final(self) == (Entry { selected: yes, ..*old(self) }),
    {
        self.selected = yes;
    }

    /// Leaves the margin blank.
    pub fn no_mark(&mut self)
        ensures
            *final(self) == (Entry { mark: false, ..*old(self) }),
    {
        self.mark = false;
    }

    /// Says which folio the entry carries.
    pub fn folio(&mut self, n: usize)
        ensures
            *final(self) == (Entry { folio: Some(n), ..*old(self) }),
    {
        self.folio = Some(n);
    }

    /// Closes the entry with a divider.
    pub fn divider(&mut self)
        ensures
            *final(self) == (Entry { heavy_rule: true, ..*old(self) }),
    {
        self.heavy_rule = true;
    }

    /// Indents the first lane by so many steps, in hundredths of a step.
    pub fn indent(&mut self, steps: i32)
        ensures
            *final(self) == (Entry { indent: final(self).indent, ..*old(self) }),
            final(self).indent == steps * SPACE_XL / 100,
    {
        self.indent = steps as i64 * 16;
    }

    /// How far the next cell stands in from its lane.
    pub open spec fn lead(self) -> int {
        if self.lane == 0 {
            self.indent as int
        } else {
            0
        }
    }

    /// The next cell, if there is a lane left that is wide enough to show
    /// anything.
    pub open spec fn next_cell(self) -> Option<(int, int)> {
        if self.lane >= self.widths@.len() {
            None
        } else {
            let w = room(self.widths@[self.lane as int] - self.lead());
            if w <= 100 {
                None
            } else {
                Some(
                    (
                        lane_x(
                            self.widths@,
                            self.margin_w as int,
                            self.pad as int,
                            self.lane as int,
                        ) + self.lead(),
                        w,
                    ),
                )
            }
        }
    }

    /// Takes the next lane and says where its cell stands, if it has one. Beyond
    /// the last lane nothing happens.
    pub fn cell(&mut self) -> (r: Option<Cell>)
        requires
            old(self).widths@.len() <= 0x3fff_ffff_ffff_ffff,
        ensures
            *final(self) == (Entry { lane: final(self).lane, ..*old(self) }),
            final(self).lane == (if old(self).lane < old(self).widths@.len() {
                old(self).lane + 1
            } else {
                old(self).lane as int
            }),
            match r {
                Some(c) => old(self).next_cell() == Some((c.x as int, c.w as int)),
                None => old(self).next_cell() is None,
            },
    {
        if self.lane >= self.widths.len() {
            return None;
        }
        let at: usize = self.lane;
        let widths: &[u64] = self.widths;
        let mut sum: i128 = 0;
        let mut i: usize = 0;
        while i < at
            invariant
                i <= at,
                at < widths@.len() <= 0x3fff_ffff_ffff_ffff,
                sum == width_of(widths@, i as int),
                0 <= sum <= i * 0x1_0000_0000_0000_0000,
            decreases at - i,
        {
            proof {
                lemma_width_of(widths@, i + 1);
            }
            sum = sum + widths[i] as i128;
            i = i + 1;
        }
        let lead: i128 = if at == 0 {
            self.indent as i128
        } else {
            0
        };
        let wide: i128 = widths[at] as i128;
        self.lane = at + 1;
        let w: i128 = if wide < lead {
            0
        } else {
            wide - lead
        };
        if w <= 100 {
            return None;
        }
        proof {
            assert(-0x8000_0000 * 0x4000_0000_0000_0000 <= self.pad * at <= 0x7fff_ffff
                * 0x4000_0000_0000_0000) by (nonlinear_arith)
                requires
                    -0x8000_0000 <= self.pad <= 0x7fff_ffff,
                    0 <= at <= 0x4000_0000_0000_0000,
            ;
        }
        let x: i128 = self.margin_w as i128 + sum + self.pad as i128 * at as i128 + lead;
        Some(Cell { x, w })
    }

    /// The ground of an entry: the selection before the pointer, and the pointer
    /// before a state that asks for attention. What is held or free is quiet.
    pub fn ground(&self, hovered: bool) -> (r: Ground)
        ensures
            r == (if self.selected {
                Ground::Selected
            } else if hovered {
                Ground::Raised
            } else {
                match self.custody {
                    Some(c) => if c.is_alarming() {
                        Ground::Tint(c)
                    } else {
                        Ground::Bare
                    },
                    None => Ground::Bare,
                }
            }),
    {
        if self.selected {
            Ground::Selected
        } else if hovered {
            Ground::Raised
        } else {
            match self.custody {
                Some(c) => if c.alarming() {
                    Ground::Tint(c)
                } else {
                    Ground::Bare
                },
                None => Ground::Bare,
            }
        }
    }

    /// What stands in the margin.
    pub open spec fn marked(self) -> Mark {
        if self.margin_w <= 0 || !self.mark {
            Mark::Blank
        } else if self.custody is Some && (self.custody->0).is_sealed() {
            Mark::Seal(self.custody->0)
        } else {
            Mark::Folio(
                match self.folio {
                    Some(n) => n as u128,
                    None => (self.index + 1) as u128,
                },
            )
        }
    }

    /// What stands in the margin: the seal of what is held, or else the folio,
    /// which is the entry's place where none was given.
    pub fn finish(&self) -> (r: Mark)
        ensures
            r == self.marked(),
    {
        if self.margin_w <= 0 || !self.mark {
            return Mark::Blank;
        }
        match self.custody {
            Some(c) => if c.sealed() {
                return Mark::Seal(c);
            },
            None => {},
        }
        match self.folio {
            Some(n) => Mark::Folio(n as u128),
            None => Mark::Folio(self.index as u128 + 1),
        }
    }
}

/// The seal means that an entry is held, and nothing else is sealed.
pub proof fn law_only_what_is_held_is_sealed(e: Entry<'_>)
    ensures
        e.marked() is Seal ==> e.custody is Some && ((e.custody->0) == Custody::Mine || (
        e.custody->0) == Custody::Peer),
        e.margin_w > 0 && e.mark && e.custody == Some(Custody::Mine) ==> e.marked() == Mark::Seal(
            Custody::Mine,
        ),
        e.margin_w > 0 && e.mark && e.custody == Some(Custody::Peer) ==> e.marked() == Mark::Seal(
            Custody::Peer,
        ),
{
}

/// Cells stand side by side: one lane ends, with its padding, where the next one
/// starts, and an indented cell stays inside its lane.
pub proof fn law_cells_stay_in_their_lanes(e: Entry<'_>)
    requires
        e.lane < e.widths@.len(),
        e.next_cell() is Some,
    ensures
        ({
            let (x, w) = e.next_cell()->0;
            let i = e.lane as int;
            &&& e.indent >= 0 ==> lane_x(e.widths@, e.margin_w as int, e.pad as int, i) <= x
            &&& x + w + e.pad == lane_x(e.widths@, e.margin_w as int, e.pad as int, i + 1)
        }),
{
    let i = e.lane as int;
    assert(e.pad * (i + 1) == e.pad * i + e.pad) by (nonlinear_arith);
}

// ---------------------------------------------------------------------------
// Setting the ruler
// ---------------------------------------------------------------------------

/// Where the parts of a column heading stand.
#[derive(Clone, Copy, Debug)]
pub struct ColumnHead {
    /// Its word.
    pub text: Frame,
    /// Where a press reaches it.
    pub hit: Frame,
    /// The rule under it while the pointer is on it.
    pub under: i64,
    /// The middle of the mark of the sort in force.
    pub mark: Option<Point>,
}

/// Sets the heading of a column in its cell. A heading that is set to the right
/// carries its mark before the word, any other behind it; the mark rides below
/// the middle where the sort descends and above it where it ascends.
pub fn heading(cell: Frame, w: u32, h: u32, align: Align, active: Option<bool>) -> (r: ColumnHead)
    requires
        cell.near(),
    ensures
        ({
            let right = align == Align::Right;
            let top = geometry::middle(cell.top as int, cell.bottom - h);
            let mid = geometry::middle(r.text.top as int, r.text.bottom as int);
            &&& r.text.left == (if right {
                cell.right - w
            } else {
                cell.left as int
            })
            &&& r.text.right == r.text.left + w
            &&& r.text.top == top && r.text.bottom == top + h
            &&& r.hit.left == r.text.left - SPACE_M && r.hit.right == r.text.right + SPACE_M
            &&& r.hit.top == r.text.top - SPACE_S && r.hit.bottom == r.text.bottom + SPACE_S
            &&& r.under == theme::pixel(r.text.bottom + 100)
            &&& r.mark is Some <==> active is Some
            &&& active is Some ==> {
                &&& (r.mark->0).x == (if right {
                    r.text.left - SPACE_S
                } else {
                    r.text.right + SPACE_S
                })
                &&& (r.mark->0).y == (if active->0 {
                    mid + 250
                } else {
                    mid - 250
                })
            }
        }),
{
    let right: bool = match align {
        Align::Right => true,
        Align::Left => false,
    };
    let left: i64 = if right {
        cell.right - w as i64
    } else {
        cell.left
    };
    let top: i64 = mid_of(cell.top, cell.bottom - h as i64);
    let text: Frame = Frame { left, top, right: left + w as i64, bottom: top + h as i64 };
    let m: i64 = SPACE_M as i64;
    let s: i64 = SPACE_S as i64;
    let hit: Frame = Frame {
        left: text.left - m,
        top: text.top - s,
        right: text.right + m,
        bottom: text.bottom + s,
    };
    let mark: Option<Point> = match active {
        None => None,
        Some(descending) => {
            let mid: i64 = mid_of(text.top, text.bottom);
            Some(
                Point {
                    x: if right {
                        text.left - s
                    } else {
                        text.right + s
                    },
                    y: if descending {
                        mid + 250
                    } else {
                        mid - 250
                    },
                },
            )
        },
    };
    ColumnHead { text, hit, under: snap(text.bottom + 100), mark }
}

/// The length of the blank that stands for an entry not yet read, in a lane of
/// that width: somewhat less than two thirds of it, and none in a narrow lane.
pub fn blank_len(w: u64) -> (r: Option<u64>)
    ensures
        r is Some <==> w > 800,
        r is Some ==> (r->0) as int == w as int * 62 / 100,
{
    if w > 800 {
        Some((w as u128 * 62 / 100) as u64)
    } else {
        None
    }
}

/// A column of a fixed width asks for it at the text's scale, a flexible one for
/// none; and a flexible one has its weight in what is left, a fixed one none.
pub proof fn law_a_column_asks_for_its_own_width(c: Col, scale: int)
    requires
        SCALE_MIN <= scale <= SCALE_MAX,
    ensures
        c.width is Fixed && c.width->Fixed_0 >= 0 ==> {
            let a = c.asked(scale);
            &&& 10_000 * a <= c.width->Fixed_0 * scale < 10_000 * (a + 1)
            &&& c.weight() == 0
        },
        c.width is Flex ==> c.asked(scale) == 0,
        c.width is Flex && c.width->Flex_0 >= 0 ==> c.weight() == c.width->Flex_0,
{
}

/// What the columns ask for and weigh is the sum over each of them.
pub proof fn law_columns_are_summed(cols: Seq<Col>, scale: int, n: int)
    requires
        0 <= n < cols.len(),
    ensures
        asked_by(cols, scale, 0) == 0,
        asked_by(cols, scale, n + 1) - asked_by(cols, scale, n) == cols[n].asked(scale),
        weight_of(cols, 0) == 0,
        weight_of(cols, n + 1) - weight_of(cols, n) == cols[n].weight(),
        flexes_of(cols, 0) == 0,
        flexes_of(cols, n + 1) - flexes_of(cols, n) == (if cols[n].width is Flex {
            1int
        } else {
            0
        }),
{
}

/// A line is half as high again as its type.
pub proof fn law_a_line_is_half_as_high_again(step: i32, scale: i32, r: i64)
    requires
        call_ensures(line_h, (step, scale), r),
        step >= 0,
        SCALE_MIN <= scale <= SCALE_MAX,
    ensures
        20_000 * r <= 3 * (step * scale) < 20_000 * (r + 1),
{
    assert(step as int * scale as int * 3 == 3 * (step * scale));
}

/// A stack is its lines one under the other with a small space between each two.
pub proof fn law_a_stack_is_its_lines(steps: Seq<Option<i32>>, step: i32, scale: int)
    requires
        step >= 0,
    ensures
        content_of(seq![Some(step)], scale) == line_of(step as int, scale),
        steps.len() > 0 ==> content_of(steps.push(Some(step)), scale) == content_of(steps, scale)
            + SPACE_S + line_of(step as int, scale),
        content_of(Seq::empty(), scale) == 0,
{
    assert(seq![Some(step)].drop_last() =~= Seq::<Option<i32>>::empty());
    assert(lines_of(seq![Some(step)].drop_last(), scale) == 0);
    assert(steps.push(Some(step)).drop_last() =~= steps);
}

/// An entry that is selected shows that before anything; one under the pointer is
/// raised; and one that needs attention is tinted, the others bare.
pub proof fn law_an_entry_shows_its_state(e: Entry<'_>, hovered: bool, r: Ground)
    requires
        call_ensures(Entry::ground, (&e, hovered), r),
    ensures
        r == Ground::Selected <==> e.selected,
        r == Ground::Raised <==> !e.selected && hovered,
        !e.selected && !hovered && e.custody is Some && (e.custody->0 == Custody::Stale || e.custody->0
            == Custody::Blocked || e.custody->0 == Custody::Quarantined) ==> r == Ground::Tint(
            e.custody->0,
        ),
        !e.selected && !hovered && (e.custody is None || e.custody->0 == Custody::Mine || e.custody->0
            == Custody::Peer) ==> r == Ground::Bare,
{
}

/// The margin holds a seal where the entry is held, else its number: the folio
/// where it has one, and else its place counted from one.
pub proof fn law_the_margin_numbers_an_entry(e: Entry<'_>, r: Mark)
    requires
        call_ensures(Entry::finish, (&e,), r),
        e.custody is None,
    ensures
        e.margin_w <= 0 || !e.mark ==> r == Mark::Blank,
        e.margin_w > 0 && e.mark && e.folio is Some ==> r == Mark::Folio(e.folio->0 as u128),
        e.margin_w > 0 && e.mark && e.folio is None ==> r == Mark::Folio((e.index + 1) as u128),
{
}

/// A click on a head asks for its sort; one on the retry asks for another read,
/// and only after one that failed.
pub proof fn law_a_click_asks_for_its_sort(
    g: Register<'_>,
    content: Content<'_>,
    at: usize,
    retry: bool,
    r: Out,
)
    requires
        call_ensures(Register::show, (&g, &content, Some(at), retry), r),
    ensures
        g.is_ruled() && at < g.cols@.len() ==> r.sort == g.cols@[at as int].sort_key,
        !g.is_ruled() || at >= g.cols@.len() ==> r.sort is None,
        r.retry <==> content is Failed && retry,
{
}

/// A column is the sorted one exactly where its key is the one sorted by.
pub proof fn law_the_sorted_column_is_the_one_of_its_key(g: Register<'_>, c: Col, r: Option<bool>)
    requires
        call_ensures(Register::active, (&g, &c), r),
    ensures
        r is Some <==> g.sort is Some && c.sort_key is Some && (g.sort->0).0@ == (c.sort_key->0)@,
        r is Some ==> r->0 == (g.sort->0).1,
{
}

/// The lanes of an entry stand side by side from the margin on, with the padding
/// between each two.
pub proof fn law_lanes_stand_side_by_side(widths: Seq<u64>, margin_w: int, pad: int, i: int)
    requires
        0 <= i < widths.len(),
    ensures
        lane_x(widths, margin_w, pad, 0) == margin_w,
        lane_x(widths, margin_w, pad, i + 1) == lane_x(widths, margin_w, pad, i) + widths[i] + pad,
{
    assert(pad * (i + 1) == pad * i + pad) by (nonlinear_arith);
    assert(pad * 0 == 0) by (nonlinear_arith);
}

/// A blank lane is drawn as a bar of 62 hundredths of it, unless it is too narrow
/// for one.
pub proof fn law_a_blank_lane_is_part_filled(w: u64, r: Option<u64>)
    requires
        call_ensures(blank_len, (w,), r),
    ensures
        w <= 800 ==> r is None,
        w > 800 ==> r is Some && 100 * (r->0) <= 62 * w < 100 * (r->0 + 1),
{
}

/// The lanes have the width that is left of the page beside the margin, where it
/// has one, and the padding between each two columns.
pub proof fn law_lanes_have_what_the_margin_leaves(g: Register<'_>, full: int, pad: int, scale: int)
    requires
        g.cols@.len() > 0,
    ensures
        ({
            let gaps = pad * (g.cols@.len() - 1);
            let left = full - gaps - (if g.margin {
                margin_of(scale)
            } else {
                0
            });
            &&& left >= 0 ==> g.for_lanes(full, pad, scale) == left
            &&& left < 0 ==> g.for_lanes(full, pad, scale) == 0
        }),
{
}

/// The margin has room for its mark at every scale, and is never narrower than 34
/// points.
pub proof fn law_the_margin_grows_with_the_text(less: int, more: int)
    requires
        SCALE_MIN <= less <= more <= SCALE_MAX,
    ensures
        3_400 <= margin_of(less) <= margin_of(more),
        margin_of(more) >= theme::sized_of(1_150, more) * 18 / 10 + 800,
{
}

/// Only the first lane of an entry is indented.
pub proof fn law_only_the_first_lane_is_indented(e: Entry<'_>)
    requires
        e.next_cell() is Some,
    ensures
        e.lane > 0 ==> (e.next_cell()->0).0 == lane_x(
            e.widths@,
            e.margin_w as int,
            e.pad as int,
            e.lane as int,
        ) && (e.next_cell()->0).1 == e.widths@[e.lane as int],
        e.lane == 0 ==> (e.next_cell()->0).0 == e.margin_w + e.indent,
        e.lane == 0 && e.indent <= e.widths@[0] ==> (e.next_cell()->0).1 == e.widths@[0] - e.indent,
        (e.next_cell()->0).1 > 100,
{
    assert(e.pad * 0 == 0) by (nonlinear_arith);
}

/// A flexible column keeps room for seven of its letters.
pub proof fn law_a_flexible_column_has_room_for_seven_letters(scale: i32, r: i32)
    requires
        call_ensures(flex_min, (scale,), r),
        SCALE_MIN <= scale <= SCALE_MAX,
    ensures
        r == 7 * theme::sized_of(1_250, scale as int),
{
}

/// The margin is 18 tenths of its type and eight points more, and at least 34.
pub proof fn law_the_margin_fits_its_type(scale: i32, r: i32)
    requires
        call_ensures(margin_w, (scale,), r),
        SCALE_MIN <= scale <= SCALE_MAX,
    ensures
        r == 3_400 || r == theme::sized_of(1_150, scale as int) * 18 / 10 + 800,
        r >= 3_400,
        r >= theme::sized_of(1_150, scale as int) * 18 / 10 + 800,
{
}

} // verus!
