//! Moving through a list with the keyboard, and acting on what has the focus.

use crate::geometry::{self, max_of, FAR};
use crate::theme::{SPACE_L, SPACE_S};
use vstd::prelude::*;

verus! {

/// One place on, from the last to the first.
pub open spec fn below(sel: int, len: int) -> int {
    if sel + 1 == len {
        0
    } else {
        sel + 1
    }
}

/// One place back, from the first to the last.
pub open spec fn above(sel: int, len: int) -> int {
    if sel == 0 {
        len - 1
    } else {
        sel - 1
    }
}

/// Where the keys of one frame lead in a list of `len` items. A place from a
/// list that has since shrunk is brought to its end first; the keys act one
/// after another.
pub open spec fn nav_to(
    sel: int,
    len: int,
    down: bool,
    up: bool,
    home: bool,
    end: bool,
) -> int {
    let at = if sel > len - 1 {
        len - 1
    } else {
        sel
    };
    let a = if down {
        below(at, len)
    } else {
        at
    };
    let b = if up {
        above(a, len)
    } else {
        a
    };
    if end {
        len - 1
    } else if home {
        0
    } else {
        b
    }
}

/// Moves `sel` through a list of `len` items by the keys of one frame, wrapping
/// at both ends, and says whether it moved. An empty list leaves it alone.
pub fn list_nav(
    len: usize,
    sel: &mut usize,
    down: bool,
    up: bool,
    home: bool,
    end: bool,
) -> (moved: bool)
    ensures
        len == 0 ==> *final(sel) == *old(sel),
        len > 0 ==> *final(sel) == nav_to(*old(sel) as int, len as int, down, up, home, end),
        len > 0 ==> *final(sel) < len,
        moved == (*final(sel) != *old(sel)),
{
    if len == 0 {
        return false;
    }
    let before: usize = *sel;
    let mut at: usize = if before > len - 1 {
        len - 1
    } else {
        before
    };
    if down {
        at = if at + 1 == len {
            0
        } else {
            at + 1
        };
    }
    if up {
        at = if at == 0 {
            len - 1
        } else {
            at - 1
        };
    }
    if home {
        at = 0;
    }
    if end {
        at = len - 1;
    }
    *sel = at;
    at != before
}

/// A step down and a step up return to where they started, in one frame or in
/// two.
pub proof fn law_steps_down_and_up_come_back(sel: int, len: int)
    requires
        0 <= sel < len,
    ensures
        above(below(sel, len), len) == sel,
        below(above(sel, len), len) == sel,
        nav_to(sel, len, true, true, false, false) == sel,
        nav_to(sel, len, false, false, false, false) == sel,
{
}

/// Whether a key activated something: Enter or Space, while it has the focus.
/// Without the focus the keys are left for what has it.
pub fn key_activated(focused: bool, enter: bool, space: bool) -> (r: bool)
    ensures
        r == (focused && (enter || space)),
{
    focused && (enter || space)
}

/// Whether a link was followed: by a click or by a key.
pub fn skip_link(clicked: bool, focused: bool, enter: bool, space: bool) -> (r: bool)
    ensures
        r == (clicked || (focused && (enter || space))),
{
    clicked || key_activated(focused, enter, space)
}

/// The chip around a link.
#[derive(Clone, Copy, PartialEq, Eq, Debug, Structural)]
pub struct Chip {
    /// Its width.
    pub w: i64,
    /// Its height.
    pub h: i64,
}

/// The chip around words of that size, in hundredths of a point: with padding on
/// every side, and never lower than the line that the words are set in.
pub fn skip_box(w: i64, h: i64, line_h: i64) -> (r: Chip)
    requires
        -FAR <= w <= FAR,
        -FAR <= h <= FAR,
        -FAR <= line_h <= FAR,
    ensures
        r.w == w + 2 * SPACE_L,
        r.h == geometry::larger(h as int, line_h as int) + 2 * SPACE_S,
        r.w > w && r.h > h && r.h > line_h,
{
    Chip { w: w + 2 * SPACE_L as i64, h: max_of(h, line_h) + 2 * SPACE_S as i64 }
}

/// A step down moves one row on and wraps from the last to the first; a step up
/// moves one row back and wraps the other way; the ends are where they say.
pub proof fn law_a_step_moves_one_row(sel: int, len: int)
    requires
        0 <= sel < len,
    ensures
        nav_to(sel, len, true, false, false, false) == (sel + 1) % len,
        nav_to(sel, len, false, true, false, false) == (sel + len - 1) % len,
        forall|down: bool, up: bool| #[trigger]
            nav_to(sel, len, down, up, true, false) == 0,
        forall|down: bool, up: bool, home: bool| #[trigger]
            nav_to(sel, len, down, up, home, true) == len - 1,
{
    if sel + 1 < len {
        vstd::arithmetic::div_mod::lemma_small_mod((sel + 1) as nat, len as nat);
    } else {
        assert((sel + 1) % len == 0) by (nonlinear_arith)
            requires
                sel + 1 == len,
                len > 0,
        ;
    }
    if sel == 0 {
        vstd::arithmetic::div_mod::lemma_small_mod((len - 1) as nat, len as nat);
    } else {
        vstd::arithmetic::div_mod::lemma_mod_add_multiples_vanish(sel - 1, len);
        vstd::arithmetic::div_mod::lemma_small_mod((sel - 1) as nat, len as nat);
    }
}

/// A selection beyond a list that has shrunk starts from the list's end.
pub proof fn law_a_stale_selection_starts_from_the_end(
    sel: int,
    len: int,
    down: bool,
    up: bool,
    home: bool,
    end: bool,
)
    requires
        0 < len <= sel,
    ensures
        nav_to(sel, len, down, up, home, end) == nav_to(len - 1, len, down, up, home, end),
{
}

/// Only a focused control is worked by the keyboard, and by either key.
pub proof fn law_keys_work_what_is_focused(
    clicked: bool,
    focused: bool,
    enter: bool,
    space: bool,
    a: bool,
    s: bool,
)
    requires
        call_ensures(key_activated, (focused, enter, space), a),
        call_ensures(skip_link, (clicked, focused, enter, space), s),
    ensures
        a <==> focused && (enter || space),
        s <==> clicked || a,
{
}

} // verus!
