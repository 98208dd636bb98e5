//! The frame of the window: its corners, its buttons, and its edges.
//!
//! Lengths are in hundredths of a point.

use crate::geometry::Frame;
use crate::theme::{R_WINDOW, SPACE_M, SPACE_XS, SPACE_XXL};
use vstd::prelude::*;

verus! {

/// The height of the title bar.
pub const TITLEBAR_H: i32 = 4_600;

/// How close to an edge the pointer resizes the window.
pub const RESIZE_BAND: i32 = 600;

/// How close to a corner it resizes both ways.
pub const CORNER_BAND: i32 = 1_400;

/// The width of one window button.
pub const WIN_BUTTON_W: i32 = 3_000;

/// The radius of the window's corners: square when it is maximized.
pub fn radius(maximized: bool) -> (r: u8)
    ensures
        r == (if maximized {
            0
        } else {
            R_WINDOW
        }),
{
    if maximized {
        0
    } else {
        R_WINDOW
    }
}

/// Where the band of ornament is ruled inside a title bar: at its foot, inset
/// from both ends and clear of the seam.
pub fn band_rect(bar: Frame) -> (r: Frame)
    requires
        bar.near(),
    ensures
        r.left == bar.left + SPACE_XXL,
        r.top == bar.bottom - SPACE_M - SPACE_XS,
        r.right == bar.right - SPACE_XXL,
        r.bottom == bar.bottom - SPACE_XS,
{
    Frame {
        left: bar.left + SPACE_XXL as i64,
        top: bar.bottom - SPACE_M as i64 - SPACE_XS as i64,
        right: bar.right - SPACE_XXL as i64,
        bottom: bar.bottom - SPACE_XS as i64,
    }
}

/// The buttons of the window.
#[derive(Clone, Copy, PartialEq, Eq, Debug, Structural)]
pub enum WinButton {
    /// Puts the window away.
    Minimize,
    /// Fills the screen, or goes back.
    MaximizeRestore,
    /// Shuts the window.
    Close,
}

/// What a window button shows.
#[derive(Clone, Copy, PartialEq, Eq, Debug, Structural)]
pub enum WinGlyph {
    /// A line.
    Line,
    /// One square.
    Square,
    /// Two squares, one over the other.
    Squares,
    /// A cross.
    Cross,
}

/// What a window button shows.
pub fn button_glyph(kind: WinButton, maximized: bool) -> (r: WinGlyph)
    ensures
        r == (match kind {
            WinButton::Minimize => WinGlyph::Line,
            WinButton::MaximizeRestore => if maximized {
                WinGlyph::Squares
            } else {
                WinGlyph::Square
            },
            WinButton::Close => WinGlyph::Cross,
        }),
{
    match kind {
        WinButton::Minimize => WinGlyph::Line,
        WinButton::MaximizeRestore => if maximized {
            WinGlyph::Squares
        } else {
            WinGlyph::Square
        },
        WinButton::Close => WinGlyph::Cross,
    }
}

/// How much of the bar's trailing edge the three window buttons take, with that
/// spacing between them.
pub fn window_buttons_width(spacing: i32) -> (r: i64)
    ensures
        r == 3 * WIN_BUTTON_W + 2 * (if spacing < 0 {
            0int
        } else {
            spacing as int
        }),
{
    let s: i64 = if spacing < 0 {
        0
    } else {
        spacing as i64
    };
    3 * WIN_BUTTON_W as i64 + 2 * s
}

/// What a press of the title bar asks of the window.
#[derive(Clone, Copy, PartialEq, Eq, Debug, Structural)]
pub enum BarPress {
    /// Nothing.
    Nothing,
    /// Fill the screen, or go back.
    SetMaximized(bool),
    /// Follow the pointer.
    Drag,
}

/// What a press of the title bar asks: a double click toggles the size, and a
/// drag that is none moves the window.
pub fn titlebar_press(double_clicked: bool, drag_started: bool, maximized: bool) -> (r: BarPress)
    ensures
        r == (if double_clicked {
            BarPress::SetMaximized(!maximized)
        } else if drag_started {
            BarPress::Drag
        } else {
            BarPress::Nothing
        }),
{
    if double_clicked {
        BarPress::SetMaximized(!maximized)
    } else if drag_started {
        BarPress::Drag
    } else {
        BarPress::Nothing
    }
}

/// A direction in which the window can be resized.
#[derive(Clone, Copy, PartialEq, Eq, Debug, Structural)]
pub enum Resize {
    /// Up.
    North,
    /// Down.
    South,
    /// Right.
    East,
    /// Left.
    West,
    /// Up and right.
    NorthEast,
    /// Down and right.
    SouthEast,
    /// Up and left.
    NorthWest,
    /// Down and left.
    SouthWest,
}

/// How far the pointer is from each edge of the window.
#[derive(Clone, Copy, Debug)]
pub struct Edges {
    /// From the left one.
    pub left: i32,
    /// From the right one.
    pub right: i32,
    /// From the top one.
    pub top: i32,
    /// From the bottom one.
    pub bottom: i32,
}

/// Whether the pointer is in the band of one edge and near a second one, or the
/// other way round.
pub open spec fn at_corner(a: int, b: int) -> bool {
    (a <= RESIZE_BAND && b <= CORNER_BAND) || (b <= RESIZE_BAND && a <= CORNER_BAND)
}

/// The direction a press there resizes in: corners before edges.
pub open spec fn resize_for(e: Edges) -> Option<Resize> {
    if at_corner(e.top as int, e.left as int) {
        Some(Resize::NorthWest)
    } else if at_corner(e.top as int, e.right as int) {
        Some(Resize::NorthEast)
    } else if at_corner(e.bottom as int, e.left as int) {
        Some(Resize::SouthWest)
    } else if at_corner(e.bottom as int, e.right as int) {
        Some(Resize::SouthEast)
    } else if e.left <= RESIZE_BAND {
        Some(Resize::West)
    } else if e.right <= RESIZE_BAND {
        Some(Resize::East)
    } else if e.top <= RESIZE_BAND {
        Some(Resize::North)
    } else if e.bottom <= RESIZE_BAND {
        Some(Resize::South)
    } else {
        None
    }
}

fn corner(a: i32, b: i32) -> (r: bool)
    ensures
        r == at_corner(a as int, b as int),
{
    (a <= RESIZE_BAND && b <= CORNER_BAND) || (b <= RESIZE_BAND && a <= CORNER_BAND)
}

/// The direction in which a press resizes the window, if any. A maximized
/// window has no edges.
pub fn resize_zones(maximized: bool, pointer: Option<Edges>) -> (r: Option<Resize>)
    ensures
        r == (match pointer {
            Some(e) => if maximized {
                None
            } else {
                resize_for(e)
            },
            None => None,
        }),
{
    if maximized {
        return None;
    }
    match pointer {
        None => None,
        Some(e) => if corner(e.top, e.left) {
            Some(Resize::NorthWest)
        } else if corner(e.top, e.right) {
            Some(Resize::NorthEast)
        } else if corner(e.bottom, e.left) {
            Some(Resize::SouthWest)
        } else if corner(e.bottom, e.right) {
            Some(Resize::SouthEast)
        } else if e.left <= RESIZE_BAND {
            Some(Resize::West)
        } else if e.right <= RESIZE_BAND {
            Some(Resize::East)
        } else if e.top <= RESIZE_BAND {
            Some(Resize::North)
        } else if e.bottom <= RESIZE_BAND {
            Some(Resize::South)
        } else {
            None
        },
    }
}

/// Away from every edge nothing is resized, and in the band of any edge
/// something is.
pub proof fn law_only_the_edges_resize(e: Edges)
    ensures
        resize_for(e) is Some <==> e.left <= RESIZE_BAND || e.right <= RESIZE_BAND || e.top
            <= RESIZE_BAND || e.bottom <= RESIZE_BAND,
{
}

/// The line along which the pointer shows that it resizes.
#[derive(Clone, Copy, PartialEq, Eq, Debug, Structural)]
pub enum ResizeCursor {
    /// Up and down.
    Vertical,
    /// Left and right.
    Horizontal,
    /// From the top left to the bottom right.
    NwSe,
    /// From the top right to the bottom left.
    NeSw,
}

/// The pointer for a direction: opposite directions share one.
pub fn resize_cursor(dir: Resize) -> (r: ResizeCursor)
    ensures
        r == (match dir {
            Resize::North | Resize::South => ResizeCursor::Vertical,
            Resize::East | Resize::West => ResizeCursor::Horizontal,
            Resize::NorthWest | Resize::SouthEast => ResizeCursor::NwSe,
            Resize::NorthEast | Resize::SouthWest => ResizeCursor::NeSw,
        }),
{
    match dir {
        Resize::North | Resize::South => ResizeCursor::Vertical,
        Resize::East | Resize::West => ResizeCursor::Horizontal,
        Resize::NorthWest | Resize::SouthEast => ResizeCursor::NwSe,
        Resize::NorthEast | Resize::SouthWest => ResizeCursor::NeSw,
    }
}

/// A press on the title bar: two clicks turn the window over, a drag moves it,
/// and nothing else does anything.
pub proof fn law_two_clicks_turn_the_window_over(
    double: bool,
    drag: bool,
    maximized: bool,
    r: BarPress,
)
    requires
        call_ensures(titlebar_press, (double, drag, maximized), r),
    ensures
        double ==> r == BarPress::SetMaximized(!maximized),
        !double && drag ==> r == BarPress::Drag,
        !double && !drag ==> r == BarPress::Nothing,
{
}

/// The pointer pulls at the sides that it is near: at a corner at both, in the
/// band along a side at that one, and nowhere in a window that fills the screen.
pub proof fn law_the_pointer_pulls_where_it_is_near(
    maximized: bool,
    e: Edges,
    r: Option<Resize>,
)
    requires
        call_ensures(resize_zones, (maximized, Some(e)), r),
    ensures
        maximized ==> r is None,
        r == Some(Resize::NorthWest) ==> e.top <= CORNER_BAND && e.left <= CORNER_BAND,
        r == Some(Resize::NorthEast) ==> e.top <= CORNER_BAND && e.right <= CORNER_BAND,
        r == Some(Resize::SouthWest) ==> e.bottom <= CORNER_BAND && e.left <= CORNER_BAND,
        r == Some(Resize::SouthEast) ==> e.bottom <= CORNER_BAND && e.right <= CORNER_BAND,
        r == Some(Resize::West) ==> e.left <= RESIZE_BAND,
        r == Some(Resize::East) ==> e.right <= RESIZE_BAND,
        r == Some(Resize::North) ==> e.top <= RESIZE_BAND,
        r == Some(Resize::South) ==> e.bottom <= RESIZE_BAND,
        !maximized && e.left <= RESIZE_BAND && e.right > CORNER_BAND && e.top > CORNER_BAND
            && e.bottom > CORNER_BAND ==> r == Some(Resize::West),
        !maximized && e.right <= RESIZE_BAND && e.left > CORNER_BAND && e.top > CORNER_BAND
            && e.bottom > CORNER_BAND ==> r == Some(Resize::East),
        !maximized && e.top <= RESIZE_BAND && e.bottom > CORNER_BAND && e.left > CORNER_BAND
            && e.right > CORNER_BAND ==> r == Some(Resize::North),
        !maximized && e.bottom <= RESIZE_BAND && e.top > CORNER_BAND && e.left > CORNER_BAND
            && e.right > CORNER_BAND ==> r == Some(Resize::South),
        !maximized && e.top <= RESIZE_BAND && e.left <= CORNER_BAND ==> r == Some(
            Resize::NorthWest,
        ),
        !maximized && e.top <= RESIZE_BAND && e.right <= CORNER_BAND && e.left > CORNER_BAND ==> r
            == Some(Resize::NorthEast),
        !maximized && e.bottom <= RESIZE_BAND && e.left <= CORNER_BAND && e.top > CORNER_BAND
            && e.right > CORNER_BAND ==> r == Some(Resize::SouthWest),
        !maximized && e.bottom <= RESIZE_BAND && e.right <= CORNER_BAND && e.top > CORNER_BAND
            && e.left > CORNER_BAND ==> r == Some(Resize::SouthEast),
        !maximized && e.top > RESIZE_BAND && e.bottom > RESIZE_BAND && e.left > RESIZE_BAND
            && e.right > RESIZE_BAND ==> r is None,
{
}

/// The cursor lies along the way that the window grows.
pub proof fn law_the_cursor_lies_along_the_pull(dir: Resize, r: ResizeCursor)
    requires
        call_ensures(resize_cursor, (dir,), r),
    ensures
        r == ResizeCursor::Vertical <==> dir == Resize::North || dir == Resize::South,
        r == ResizeCursor::Horizontal <==> dir == Resize::East || dir == Resize::West,
        r == ResizeCursor::NwSe <==> dir == Resize::NorthWest || dir == Resize::SouthEast,
        r == ResizeCursor::NeSw <==> dir == Resize::NorthEast || dir == Resize::SouthWest,
{
}

/// Each window button has its own glyph, and the middle one shows what it would
/// do.
pub proof fn law_a_button_shows_what_it_does(kind: WinButton, maximized: bool, r: WinGlyph)
    requires
        call_ensures(button_glyph, (kind, maximized), r),
    ensures
        r == WinGlyph::Line <==> kind == WinButton::Minimize,
        r == WinGlyph::Cross <==> kind == WinButton::Close,
        r == WinGlyph::Squares <==> kind == WinButton::MaximizeRestore && maximized,
        r == WinGlyph::Square <==> kind == WinButton::MaximizeRestore && !maximized,
{
}

/// A window has its round corners exactly while it does not fill the screen.
pub proof fn law_a_full_window_is_square(maximized: bool, r: u8)
    requires
        call_ensures(radius, (maximized,), r),
    ensures
        maximized ==> r == 0,
        !maximized ==> r == R_WINDOW && r > 0,
{
}

/// The three window buttons stand side by side with their spacing between.
pub proof fn law_three_buttons_stand_side_by_side(spacing: i32, r: i64)
    requires
        call_ensures(window_buttons_width, (spacing,), r),
    ensures
        spacing >= 0 ==> r == 3 * WIN_BUTTON_W + 2 * spacing,
        spacing < 0 ==> r == 3 * WIN_BUTTON_W,
{
}

} // verus!
