//! The text fields: what tints them and how much room they take.
//!
//! Lengths are in hundredths of a point, and text scales in ten-thousandths. A
//! length that is no number comes in as `None`.

use crate::a11y::{SCALE_MAX, SCALE_MIN};
use crate::geometry::{self, max_of, mid_of, Frame, Point, FAR};
use crate::register::{self, line_h};
use crate::theme::{self, sized, RULE_W, SPACE_M, SPACE_S, SPACE_XS, STEP_DATA, STEP_LABEL};
use vstd::prelude::*;

verus! {

/// Whether what is typed into a field can be used.
#[derive(Clone, Copy, PartialEq, Eq, Debug, Structural)]
pub enum FieldState {
    /// It is not judged.
    Neutral,
    /// It can.
    Valid,
    /// It cannot.
    Invalid,
}

/// The colour of a field's rule.
#[derive(Clone, Copy, PartialEq, Eq, Debug, Structural)]
pub enum FieldInk {
    /// Faint ink.
    Faint,
    /// The house's gold.
    Gold,
    /// The colour of what is settled.
    Good,
    /// The colour of what is blocked.
    Blocked,
}

/// How a field's rule is drawn.
#[derive(Clone, Copy, PartialEq, Eq, Debug, Structural)]
pub struct FieldLook {
    /// What it grows into with the focus.
    pub accent: FieldInk,
    /// What it is at rest.
    pub resting: FieldInk,
}

/// How a field's rule is drawn: gold over faint ink, unless what is typed was
/// judged.
pub open spec fn look_of(state: FieldState) -> FieldLook {
    match state {
        FieldState::Neutral => FieldLook { accent: FieldInk::Gold, resting: FieldInk::Faint },
        FieldState::Valid => FieldLook { accent: FieldInk::Good, resting: FieldInk::Good },
        FieldState::Invalid => FieldLook { accent: FieldInk::Blocked, resting: FieldInk::Blocked },
    }
}

/// How a field's rule is drawn: gold over faint ink, unless what is typed was
/// judged.
pub fn field_look(state: FieldState) -> (r: FieldLook)
    ensures
        r == look_of(state),
{
    match state {
        FieldState::Neutral => FieldLook { accent: FieldInk::Gold, resting: FieldInk::Faint },
        FieldState::Valid => FieldLook { accent: FieldInk::Good, resting: FieldInk::Good },
        FieldState::Invalid => FieldLook {
            accent: FieldInk::Blocked,
            resting: FieldInk::Blocked,
        },
    }
}

/// The size of the type in a field.
pub open spec fn step_of(mono: bool) -> int {
    if mono {
        STEP_DATA as int
    } else {
        STEP_LABEL as int
    }
}

/// The size of the type in a field.
pub fn field_step(mono: bool) -> (r: i32)
    ensures
        r == step_of(mono),
{
    if mono {
        STEP_DATA
    } else {
        STEP_LABEL
    }
}

/// The room for marks inside a field, at its leading and its trailing edge.
#[derive(Clone, Copy, PartialEq, Eq, Debug, Structural)]
pub struct MarkRoom {
    /// At the leading edge.
    pub lead: i32,
    /// At the trailing edge.
    pub trail: i32,
}

/// The width of a field: what was asked for, and never less than room for three
/// characters of its type and its marks. What is no number asks for nothing.
pub fn field_width(width: Option<i32>, mono: bool, scale: i32, room: MarkRoom) -> (r: i64)
    requires
        SCALE_MIN <= scale <= SCALE_MAX,
    ensures
        ({
            let least = 3 * theme::sized_of(step_of(mono), scale as int) + room.lead + room.trail;
            r == match width {
                Some(w) => geometry::larger(w as int, least),
                None => least,
            }
        }),
{
    let least: i64 = 3 * sized(field_step(mono), scale) as i64 + room.lead as i64
        + room.trail as i64;
    match width {
        Some(w) => max_of(w as i64, least),
        None => least,
    }
}

/// The height of the well around one line.
pub open spec fn well_of(line: int) -> int {
    line + 2 * SPACE_M
}

/// The height of the well around one line.
pub fn well_h(line: i64) -> (r: i64)
    requires
        -FAR <= line <= FAR,
    ensures
        r == well_of(line as int),
{
    line + 2 * SPACE_M as i64
}

/// The height of a field at a text scale. It is ruled for a label whichever type
/// it holds, so that fields side by side are of one height.
pub fn field_h(scale: i32) -> (r: i64)
    requires
        SCALE_MIN <= scale <= SCALE_MAX,
    ensures
        r == well_of(register::line_of(STEP_LABEL as int, scale as int)),
{
    proof {
        assert(0 <= STEP_LABEL * scale <= 1_250 * 22_000) by (nonlinear_arith)
            requires
                STEP_LABEL == 1_250,
                0 <= scale <= 22_000,
        ;
    }
    well_h(line_h(STEP_LABEL, scale))
}

/// The well clears the line that is typed into it, also between the insets above
/// and below, whichever type it holds.
pub proof fn law_a_well_clears_its_line(scale: int, mono: bool)
    requires
        SCALE_MIN <= scale <= SCALE_MAX,
    ensures
        ({
            let h = well_of(register::line_of(STEP_LABEL as int, scale));
            h - 2 * SPACE_S >= register::line_of(step_of(mono), scale)
        }),
{
    if mono {
        assert(step_of(mono) == 1_200);
    } else {
        assert(step_of(mono) == 1_250);
    }
}

/// How far the type of a field stands in from its edges.
pub fn inset_x() -> (r: i32)
    ensures
        r == SPACE_M + SPACE_XS,
{
    SPACE_M + SPACE_XS
}

/// Where the type of a field is edited: inside its insets and clear of its marks.
pub fn field_inner(rect: Frame, room: MarkRoom) -> (r: Frame)
    requires
        rect.near(),
    ensures
        r.left == rect.left + SPACE_M + SPACE_XS + room.lead,
        r.top == rect.top + SPACE_S,
        r.right == rect.right - SPACE_M - SPACE_XS - room.trail,
        r.bottom == rect.bottom - SPACE_S,
{
    Frame {
        left: rect.left + SPACE_M as i64 + SPACE_XS as i64 + room.lead as i64,
        top: rect.top + SPACE_S as i64,
        right: rect.right - SPACE_M as i64 - SPACE_XS as i64 - room.trail as i64,
        bottom: rect.bottom - SPACE_S as i64,
    }
}

/// The radius of the glass of a search field, in proportion to its type.
pub open spec fn glass_of(scale: int) -> int {
    theme::sized_of(STEP_LABEL as int, scale) * 34 / 100
}

/// The side of the mark that clears a search field, in proportion to its type.
pub open spec fn clear_of(scale: int) -> int {
    theme::sized_of(STEP_LABEL as int, scale) * 13 / 10
}

/// The radius of the glass of a search field.
pub fn glass_r(scale: i32) -> (r: i32)
    requires
        SCALE_MIN <= scale <= SCALE_MAX,
    ensures
        r == glass_of(scale as int),
        0 <= r <= 100_000,
{
    sized(STEP_LABEL, scale) * 34 / 100
}

/// The side of the mark that clears a search field.
pub fn clear_side(scale: i32) -> (r: i32)
    requires
        SCALE_MIN <= scale <= SCALE_MAX,
    ensures
        r == clear_of(scale as int),
        0 <= r <= 300_000,
{
    sized(STEP_LABEL, scale) * 13 / 10
}

/// The room a search field keeps for its marks: for the glass always, and for
/// the mark that clears it only where there is something to clear.
pub fn search_room(empty: bool, scale: i32) -> (r: MarkRoom)
    requires
        SCALE_MIN <= scale <= SCALE_MAX,
    ensures
        r.lead == 2 * glass_of(scale as int) + SPACE_M,
        r.trail == (if empty {
            0
        } else {
            clear_of(scale as int) + SPACE_XS
        }),
{
    MarkRoom {
        lead: 2 * glass_r(scale) + SPACE_M,
        trail: if empty {
            0
        } else {
            clear_side(scale) + SPACE_XS
        },
    }
}

/// Whether a search field was cleared: only what holds text after the edit of
/// this frame has the mark that clears it.
pub fn search_cleared(empty: bool, mark_clicked: bool) -> (r: bool)
    ensures
        r == (!empty && mark_clicked),
{
    !empty && mark_clicked
}

// ---------------------------------------------------------------------------
// Setting a field
// ---------------------------------------------------------------------------

/// A field, ready to be painted.
#[derive(Clone, Copy, Debug)]
pub struct FieldFace {
    /// Where the text is typed.
    pub inner: Frame,
    /// How far down its rule lies.
    pub rule_y: i64,
    /// From where to where the rule has grown, where it has.
    pub grown: Option<(i64, i64)>,
    /// Its inks.
    pub look: FieldLook,
}

/// Sets a field: the text inside the well, the rule under it, and the part of
/// that rule which has grown out from its middle. `t` is how far it has grown,
/// in ten-thousandths.
pub fn field_face(rect: Frame, room: MarkRoom, state: FieldState, t: u32) -> (r: FieldFace)
    requires
        rect.near(),
        t <= 10_000,
    ensures
        r.inner.left == rect.left + SPACE_M + SPACE_XS + room.lead,
        r.inner.top == rect.top + SPACE_S,
        r.inner.right == rect.right - SPACE_M - SPACE_XS - room.trail,
        r.inner.bottom == rect.bottom - SPACE_S,
        r.rule_y == rect.bottom - SPACE_S + RULE_W,
        r.grown is Some <==> t > 0 && r.inner.left < r.inner.right,
        r.grown is Some ==> {
            let mid = geometry::middle(r.inner.left as int, r.inner.right as int);
            let half = (r.inner.right - r.inner.left) * t / 20_000;
            (r.grown->0).0 == mid - half && (r.grown->0).1 == mid + half
        },
        r.look == look_of(state),
{
    let inner: Frame = field_inner(rect, room);
    let width: i64 = inner.right - inner.left;
    let grown: Option<(i64, i64)> = if t > 0 && width > 0 {
        proof {
            assert(0 <= width * t <= 4_000_000_000_000 * 10_000) by (nonlinear_arith)
                requires
                    0 <= width <= 4_000_000_000_000,
                    0 <= t <= 10_000,
            ;
        }
        let mid: i64 = mid_of(inner.left, inner.right);
        let half: i64 = width * t as i64 / 20_000;
        Some((mid - half, mid + half))
    } else {
        None
    };
    FieldFace {
        inner,
        rule_y: rect.bottom - SPACE_S as i64 + RULE_W as i64,
        grown,
        look: field_look(state),
    }
}

/// The rule grows from the middle outward and never past the text: fully grown
/// it is at most a hundredth short of each end.
pub proof fn law_the_rule_stays_under_the_text(left: int, right: int, t: int)
    requires
        left < right,
        0 < t <= 10_000,
    ensures
        ({
            let mid = geometry::middle(left, right);
            let half = (right - left) * t / 20_000;
            &&& left <= mid - half && mid + half <= right
            &&& t == 10_000 ==> mid - half <= left + 1 && mid + half >= right - 1
        }),
{
    let w = right - left;
    assert(0 <= w * t <= w * 10_000) by (nonlinear_arith)
        requires
            w > 0,
            0 < t <= 10_000,
    ;
    if t == 10_000 {
        assert(w * t == w * 10_000);
    }
}

/// The marks of a search field.
#[derive(Clone, Copy, Debug)]
pub struct SearchMarks {
    /// The middle of the magnifier.
    pub glass: Point,
    /// The cell of the mark that clears the field, while there is text.
    pub clear: Option<Frame>,
}

/// Sets the marks of a search field: the magnifier at the leading edge, raised by
/// a third of its radius to make room for its handle, and the clear mark at the
/// trailing edge.
pub fn search_marks(rect: Frame, empty: bool, scale: i32) -> (r: SearchMarks)
    requires
        SCALE_MIN <= scale <= SCALE_MAX,
        rect.near(),
    ensures
        ({
            let mid = geometry::middle(rect.top as int, rect.bottom as int);
            let side = clear_of(scale as int);
            &&& r.glass.x == rect.left + SPACE_M + SPACE_XS + glass_of(scale as int)
            &&& r.glass.y == mid - glass_of(scale as int) * 33 / 100
            &&& r.clear is None <==> empty
            &&& !empty ==> {
                let c = r.clear->0;
                &&& c.right == rect.right - SPACE_S
                &&& c.left == c.right - side
                &&& c.top == mid - side / 2
                &&& c.bottom == c.top + side
            }
        }),
{
    let mid: i64 = mid_of(rect.top, rect.bottom);
    let g: i64 = glass_r(scale) as i64;
    let glass: Point = Point {
        x: rect.left + SPACE_M as i64 + SPACE_XS as i64 + g,
        y: mid - g * 33 / 100,
    };
    let clear: Option<Frame> = if empty {
        None
    } else {
        let side: i64 = clear_side(scale) as i64;
        let right: i64 = rect.right - SPACE_S as i64;
        let top: i64 = mid - side / 2;
        Some(Frame { left: right - side, top, right, bottom: top + side })
    };
    SearchMarks { glass, clear }
}

/// A field shows its own state: gold while it is written in, green where it
/// holds, red where it does not.
pub proof fn law_a_field_shows_its_state(state: FieldState, r: FieldLook)
    requires
        call_ensures(field_look, (state,), r),
    ensures
        state == FieldState::Neutral ==> r.accent == FieldInk::Gold && r.resting == FieldInk::Faint,
        state == FieldState::Valid ==> r.accent == FieldInk::Good && r.resting == FieldInk::Good,
        state == FieldState::Invalid ==> r.accent == FieldInk::Blocked && r.resting
            == FieldInk::Blocked,
{
}

/// A search is cleared by its mark, which it has only while something is in it.
pub proof fn law_a_search_is_cleared_by_its_mark(empty: bool, clicked: bool, r: bool)
    requires
        call_ensures(search_cleared, (empty, clicked), r),
    ensures
        r <==> !empty && clicked,
{
}

/// A field is as wide as it is asked to be, and never narrower than three of its
/// letters and the marks in it.
pub proof fn law_a_field_has_room_for_three_letters(
    width: Option<i32>,
    mono: bool,
    scale: i32,
    room: MarkRoom,
    r: i64,
)
    requires
        call_ensures(field_width, (width, mono, scale, room), r),
        SCALE_MIN <= scale <= SCALE_MAX,
    ensures
        ({
            let least = 3 * theme::sized_of(step_of(mono), scale as int) + room.lead + room.trail;
            &&& r >= least
            &&& width is Some ==> r >= width->0 && (r == width->0 || r == least)
            &&& width is None ==> r == least
        }),
{
}

} // verus!
