//! The quiet controls: the outlined button, the disclosure mark, the leader
//! between a key and its value, and the tally.
//!
//! Lengths are in hundredths of a point, and text scales in ten-thousandths.

use crate::a11y::{SCALE_MAX, SCALE_MIN};
use crate::components::{self, chip_box, touch, Touch};
use crate::geometry::{self, max_of, Frame, FAR};
use crate::register::{self, line_h};
use crate::text::{self, decimal, Chars};
use crate::theme::{
    self, sized, SPACE_L, SPACE_M, SPACE_S, SPACE_XL, SPACE_XS, STEP_CAPTION, STEP_TITLE,
};
use vstd::prelude::*;

verus! {

/// The edge of the outlined button.
#[derive(Clone, Copy, PartialEq, Eq, Debug, Structural)]
pub enum GhostEdge {
    /// Faded: it cannot be used.
    Faded,
    /// Gold: it is held down.
    Gold,
    /// Deep gold: the pointer is over it.
    DeepGold,
    /// A plain rule.
    Plain,
}

/// How far the rule along the foot of the button is drawn.
#[derive(Clone, Copy, PartialEq, Eq, Debug, Structural)]
pub enum Sweep {
    /// Not at all.
    Absent,
    /// All the way.
    Whole,
    /// As far as the animation has got.
    Animated,
}

/// How the outlined button is drawn.
#[derive(Clone, Copy, PartialEq, Eq, Debug, Structural)]
pub struct GhostLook {
    /// Its edge.
    pub edge: GhostEdge,
    /// Whether its ground is raised.
    pub raised: bool,
    /// Whether its label drops.
    pub struck: bool,
    /// Whether the focus ring is drawn.
    pub ringed: bool,
    /// Whether the pointer turns into a hand.
    pub hand: bool,
    /// Whether the rule along its foot is on its way in.
    pub reached: bool,
    /// How far that rule is drawn.
    pub sweep: Sweep,
}

/// How the outlined button is drawn.
pub fn ghost_look(enabled: bool, down: bool, hovered: bool, focused: bool) -> (r: GhostLook)
    ensures
        r.edge == (match components::touched(enabled, down, hovered) {
            Touch::Disabled => GhostEdge::Faded,
            Touch::Pressed => GhostEdge::Gold,
            Touch::Hovered => GhostEdge::DeepGold,
            Touch::Rest => GhostEdge::Plain,
        }),
        r.raised == (enabled && (hovered || down)),
        r.struck == (enabled && down),
        r.ringed == (enabled && focused),
        r.hand == (enabled && hovered),
        r.reached == (enabled && (hovered || focused)),
        r.sweep == (if !enabled {
            Sweep::Absent
        } else if down {
            Sweep::Whole
        } else {
            Sweep::Animated
        }),
{
    GhostLook {
        edge: match touch(enabled, down, hovered) {
            Touch::Disabled => GhostEdge::Faded,
            Touch::Pressed => GhostEdge::Gold,
            Touch::Hovered => GhostEdge::DeepGold,
            Touch::Rest => GhostEdge::Plain,
        },
        raised: enabled && (hovered || down),
        struck: enabled && down,
        ringed: enabled && focused,
        hand: enabled && hovered,
        reached: enabled && (hovered || focused),
        sweep: if !enabled {
            Sweep::Absent
        } else if down {
            Sweep::Whole
        } else {
            Sweep::Animated
        },
    }
}

/// What the disclosure mark is called.
pub fn chevron_name(open: bool) -> (r: &'static str)
    ensures
        r@ == (if open {
            "Collapse"@
        } else {
            "Expand"@
        }),
{
    if open {
        "Collapse"
    } else {
        "Expand"
    }
}

/// The ink of the disclosure mark.
#[derive(Clone, Copy, PartialEq, Eq, Debug, Structural)]
pub enum MarkInk {
    /// It cannot be used.
    Disabled,
    /// It is held down.
    Gold,
    /// It is reached.
    Full,
    /// It is at rest.
    Muted,
}

/// The ink of the disclosure mark.
pub fn chevron_ink(enabled: bool, down: bool, hovered: bool, focused: bool) -> (r: MarkInk)
    ensures
        r == (if !enabled {
            MarkInk::Disabled
        } else if down {
            MarkInk::Gold
        } else if hovered || focused {
            MarkInk::Full
        } else {
            MarkInk::Muted
        }),
{
    if !enabled {
        MarkInk::Disabled
    } else if down {
        MarkInk::Gold
    } else if hovered || focused {
        MarkInk::Full
    } else {
        MarkInk::Muted
    }
}

/// The side of the cell of a disclosure mark.
pub fn chevron_side(scale: i32) -> (r: i32)
    requires
        SCALE_MIN <= scale <= SCALE_MAX,
    ensures
        r == theme::sized_of(STEP_TITLE as int, scale as int) + SPACE_XS,
{
    sized(STEP_TITLE, scale) + SPACE_XS
}

/// The height of an outlined button around type of a size: with its padding, and
/// no less than what the type came out at.
pub fn ghost_h(type_size: i64, pad: i64, galley_h: i64) -> (r: i64)
    requires
        -FAR <= type_size <= FAR,
        -FAR <= pad <= FAR,
    ensures
        r == geometry::larger(type_size + 2 * pad, galley_h as int),
{
    max_of(type_size + 2 * pad, galley_h)
}

/// The most dots of a leader.
pub const MAX_DOTS: usize = 2048;

/// A line with a key on its left and a value on its right.
#[derive(Clone, Copy, PartialEq, Eq, Debug, Structural)]
pub struct Leader {
    /// Where the dots between them start.
    pub from: i64,
    /// How many dots there are, one at each small space.
    pub dots: usize,
}

/// The room for the key of a line: what the value leaves, less a gap. The value
/// stays whole.
pub fn label_room(width: i64, value_w: i64) -> (r: i64)
    requires
        -FAR <= width <= FAR,
        -FAR <= value_w <= FAR,
    ensures
        r == geometry::larger(width - value_w - SPACE_XL, 0),
{
    max_of(width - value_w - SPACE_XL as i64, 0)
}

/// The gap between a key and a value on a line.
pub open spec fn gap_of(width: int, label_w: int, value_w: int) -> int {
    (width - value_w - SPACE_M) - (label_w + SPACE_M)
}

/// The dots across that gap: none where it is less than a large space, and else
/// one at its start and one at each step.
pub open spec fn dots_of(gap: int) -> int {
    if gap < SPACE_L {
        0
    } else {
        geometry::lesser(gap / SPACE_S as int + 1, MAX_DOTS as int)
    }
}

/// The dots between a key and a value on a line.
pub fn leader_row(width: i64, label_w: i64, value_w: i64) -> (r: Leader)
    requires
        -FAR <= width <= FAR,
        -FAR <= label_w <= FAR,
        -FAR <= value_w <= FAR,
    ensures
        r.from == label_w + SPACE_M,
        r.dots == dots_of(gap_of(width as int, label_w as int, value_w as int)),
{
    let from: i64 = label_w + SPACE_M as i64;
    let to: i64 = width - value_w - SPACE_M as i64;
    let gap: i64 = to - from;
    if gap < SPACE_L as i64 {
        return Leader { from, dots: 0 };
    }
    let n: i64 = gap / SPACE_S as i64 + 1;
    let dots: usize = if n < 2048 {
        n as usize
    } else {
        MAX_DOTS
    };
    Leader { from, dots }
}

/// The last dot of a leader stays clear of the value.
pub proof fn law_the_dots_stay_clear_of_the_value(width: int, label_w: int, value_w: int)
    requires
        dots_of(gap_of(width, label_w, value_w)) > 0,
    ensures
        label_w + SPACE_M + (dots_of(gap_of(width, label_w, value_w)) - 1) * SPACE_S <= width
            - value_w - SPACE_M,
{
}

/// The size of a tally around a number of that size: a chip as high as its type
/// needs, and no narrower than it is high.
pub fn tally_size(galley_w: i64, galley_h: i64, scale: i32) -> (r: (i64, i64))
    requires
        -FAR <= galley_w <= FAR,
        galley_h <= FAR,
        SCALE_MIN <= scale <= SCALE_MAX,
    ensures
        r.1 == geometry::larger(
            register::line_of(STEP_CAPTION as int, scale as int),
            geometry::larger(galley_h as int, 0) + SPACE_XS,
        ),
        r.0 == geometry::larger(galley_w + SPACE_M, r.1 as int),
{
    let h: i64 = chip_box(line_h(STEP_CAPTION, scale), Some(galley_h));
    (max_of(galley_w + SPACE_M as i64, h), h)
}

/// The text of a tally.
pub open spec fn tally_text(n: nat) -> Option<Chars> {
    if n == 0 {
        None
    } else if n > 99 {
        Some("99+"@)
    } else {
        Some(text::dec(n))
    }
}

/// The text of a tally: none for zero, because an absent count is not a count
/// of none, and "99+" beyond two digits.
pub fn count_text(n: usize) -> (r: Option<String>)
    ensures
        match r {
            Some(s) => tally_text(n as nat) == Some(s@),
            None => tally_text(n as nat) is None,
        },
{
    if n == 0 {
        None
    } else if n > 99 {
        Some("99+".to_owned())
    } else {
        Some(decimal(n as u64))
    }
}

/// From where to where the gold rule along the foot of an outlined button has
/// swept: none while it has not moved, or where the button is too narrow to hold
/// one. `sweep` is in ten-thousandths.
pub fn sweep_line(body: Frame, sweep: u32) -> (r: Option<(i64, i64)>)
    requires
        body.near(),
        sweep <= 10_000,
    ensures
        r is Some <==> sweep > 0 && body.right - body.left > SPACE_M,
        r is Some ==> {
            &&& (r->0).0 == body.left + SPACE_S
            &&& (r->0).1 == body.left + SPACE_S + (body.right - body.left - SPACE_M) * sweep / 10_000
        },
{
    let room: i64 = body.right - body.left - SPACE_M as i64;
    if sweep == 0 || room <= 0 {
        return None;
    }
    proof {
        assert(0 <= room * sweep <= 2_000_000_000_000 * 10_000) by (nonlinear_arith)
            requires
                0 <= room <= 2_000_000_000_000,
                0 <= sweep <= 10_000,
        ;
    }
    let from: i64 = body.left + SPACE_S as i64;
    Some((from, from + room * sweep as i64 / 10_000))
}

/// The sweep ends inside the button: a whole one as far from its right edge as
/// it starts from its left.
pub proof fn law_the_sweep_stays_inside(left: int, right: int, sweep: int)
    requires
        right - left > SPACE_M,
        0 < sweep <= 10_000,
    ensures
        ({
            let to = left + SPACE_S + (right - left - SPACE_M) * sweep / 10_000;
            &&& left + SPACE_S <= to <= right - SPACE_S
            &&& sweep == 10_000 ==> to == right - SPACE_S
        }),
{
    let room = right - left - SPACE_M;
    assert(0 <= room * sweep <= room * 10_000) by (nonlinear_arith)
        requires
            room > 0,
            0 < sweep <= 10_000,
    ;
    if sweep == 10_000 {
        assert(room * sweep == room * 10_000);
    }
}

/// A tally counts up to ninety-nine, says no more beyond, and is not shown for
/// nothing.
pub proof fn law_a_tally_counts_to_ninety_nine(n: usize, r: Option<String>)
    requires
        call_ensures(count_text, (n,), r),
    ensures
        n == 0 <==> r is None,
        1 <= n <= 99 ==> r is Some && (r->0)@ == text::dec(n as nat),
        n > 99 ==> r is Some && (r->0)@ == "99+"@,
{
}

/// The dots fill the gap between a label and its value: another one would come
/// closer to the value than the last may, unless there are as many as there may
/// be.
pub proof fn law_the_dots_fill_their_gap(width: int, label_w: int, value_w: int)
    ensures
        ({
            let gap = gap_of(width, label_w, value_w);
            let n = dots_of(gap);
            &&& gap < SPACE_L <==> n == 0
            &&& n <= MAX_DOTS
            &&& 0 < n < MAX_DOTS ==> label_w + SPACE_M + n * SPACE_S > width - value_w - SPACE_M
        }),
{
}

/// A ghost button shows what is done to it only while it is on: gold when it is
/// pressed, deep gold when it is hovered, plain at rest, faded when it is off.
pub proof fn law_a_ghost_shows_what_is_done_to_it(
    enabled: bool,
    down: bool,
    hovered: bool,
    focused: bool,
    r: GhostLook,
)
    requires
        call_ensures(ghost_look, (enabled, down, hovered, focused), r),
    ensures
        r.edge == GhostEdge::Faded <==> !enabled,
        r.edge == GhostEdge::Gold <==> enabled && down,
        r.edge == GhostEdge::DeepGold <==> enabled && !down && hovered,
        r.edge == GhostEdge::Plain <==> enabled && !down && !hovered,
        r.sweep == Sweep::Absent <==> !enabled,
        r.sweep == Sweep::Whole <==> enabled && down,
        r.raised <==> enabled && (hovered || down),
        r.struck <==> enabled && down,
        r.ringed <==> enabled && focused,
        r.hand <==> enabled && hovered,
        r.reached <==> enabled && (hovered || focused),
{
}

/// A mark is dimmed while it is off, gold while it is pressed, full where it is
/// reached, and muted otherwise; it is named by what a click would do.
pub proof fn law_a_chevron_names_what_a_click_does(
    open: bool,
    enabled: bool,
    down: bool,
    hovered: bool,
    focused: bool,
    name: &'static str,
    ink: MarkInk,
)
    requires
        call_ensures(chevron_name, (open,), name),
        call_ensures(chevron_ink, (enabled, down, hovered, focused), ink),
    ensures
        open ==> name@ == "Collapse"@,
        !open ==> name@ == "Expand"@,
        ink == MarkInk::Disabled <==> !enabled,
        ink == MarkInk::Gold <==> enabled && down,
        ink == MarkInk::Full <==> enabled && !down && (hovered || focused),
        ink == MarkInk::Muted <==> enabled && !down && !hovered && !focused,
{
}

/// A ghost button clears its type by its padding on both sides and is never lower
/// than its words.
pub proof fn law_a_ghost_clears_its_words(size: i64, pad: i64, galley_h: i64, r: i64)
    requires
        call_ensures(ghost_h, (size, pad, galley_h), r),
        -FAR <= size <= FAR,
        -FAR <= pad <= FAR,
    ensures
        r >= size + 2 * pad && r >= galley_h,
        r == size + 2 * pad || r == galley_h,
{
}

/// A label has what its value and their space leave of the row.
pub proof fn law_a_label_has_what_its_value_leaves(width: i64, value_w: i64, r: i64)
    requires
        call_ensures(label_room, (width, value_w), r),
        -FAR <= width <= FAR,
        -FAR <= value_w <= FAR,
    ensures
        value_w + 1_600 <= width ==> r == width - value_w - 1_600,
        value_w + 1_600 > width ==> r == 0,
{
}

/// A sweep starts four points from the left side and reaches as far from the right
/// when it is whole; there is none at its start, or where there is no room.
pub proof fn law_a_sweep_runs_from_side_to_side(body: Frame, sweep: u32, r: Option<(i64, i64)>)
    requires
        call_ensures(sweep_line, (body, sweep), r),
        body.near(),
        sweep <= 10_000,
    ensures
        r is Some <==> sweep > 0 && body.right - body.left > 800,
        r is Some ==> (r->0).0 == body.left + 400,
        r is Some && sweep == 10_000 ==> (r->0).1 == body.right - 400,
{
    if r is Some && sweep == 10_000 {
        law_the_sweep_stays_inside(body.left as int, body.right as int, sweep as int);
    }
}

} // verus!
