//! The menu bar as one frame: which heads it draws, how each is ruled, and how
//! the lines of an open page are set.
//!
//! Widths and places are in hundredths of a point.

use crate::a11y::{SCALE_MAX, SCALE_MIN};
use crate::geometry::{self, mid_of, Frame, FAR};
use crate::headband::{
    self, bar_room, compartment_rules, head_height, head_width, mark_r, open_notch, plan, HeadLook,
    ItemLook, Plan, Rules,
};
use crate::menubar::{self, folded_mark, mark_of, update_mark, BarState, Menu, Tone, Trigger};
use crate::theme::{self, sized, snap, SPACE_M, SPACE_S, STEP_LABEL, STEP_META};
use vstd::prelude::*;

verus! {

// ---------------------------------------------------------------------------
// The bar
// ---------------------------------------------------------------------------

/// What the window measured for the bar.
#[derive(Clone, Copy, Debug)]
pub struct BarRoom {
    /// The widths of the words on the heads, in reading order.
    pub words: [u32; 4],
    /// The width of the word on the head over the folded ones.
    pub more: u32,
    /// The gap between two heads.
    pub gap: Option<i32>,
    /// The width that is free.
    pub width: i32,
    /// The height that is free.
    pub height: i32,
    /// The width of the window buttons.
    pub buttons: i32,
}

/// One head, ready to be drawn.
#[derive(Clone, Copy, PartialEq, Eq, Debug)]
pub struct BarHead {
    /// What it opens.
    pub trigger: Trigger,
    /// How wide it is.
    pub width: i32,
    /// What it has to report.
    pub mark: Option<Tone>,
    /// Whether it leads the bar: it has no division before it, and speaks the
    /// key that opens the bar.
    pub first: bool,
}

/// The bar, ready to be drawn.
#[derive(Debug)]
pub struct BarFrame {
    /// Its heads from left to right.
    pub heads: Vec<BarHead>,
    /// The menus behind the head over the folded ones.
    pub folded: Vec<Menu>,
    /// How high the heads are.
    pub height: i32,
}

/// The width of a head around a word.
pub open spec fn width_around(word: int, marked: bool, scale: int) -> int {
    geometry::lesser(
        word + 2 * theme::sized_of(STEP_META as int, scale) + (if marked {
            SPACE_S + 2 * headband::mark_of_scale(scale)
        } else {
            0
        }),
        i32::MAX as int,
    )
}

fn wide(word: u32, marked: bool, scale: i32) -> (r: i32)
    requires
        SCALE_MIN <= scale <= SCALE_MAX,
    ensures
        r == width_around(word as int, marked, scale as int),
        r >= 0,
{
    let text: i32 = if word > 0x7fff_ffff {
        i32::MAX
    } else {
        word as i32
    };
    let w: i64 = head_width(text, marked, scale);
    if w < i32::MAX as i64 {
        w as i32
    } else {
        i32::MAX
    }
}

/// The widths of the heads, in reading order.
pub open spec fn head_widths(words: Seq<u32>, mark: Option<Tone>, scale: int) -> Seq<(Menu, i32)> {
    Seq::new(
        4,
        |i: int|
            {
                let m = Menu::reading_order()[i];
                (
                    m,
                    width_around(
                        words[i] as int,
                        menubar::mark_on(m, mark) is Some,
                        scale,
                    ) as i32,
                )
            },
    )
}

/// The room that the reserve and the buttons leave.
pub open spec fn room_left(m: BarRoom, reserve: int) -> int {
    let left = m.width - geometry::larger(reserve, m.buttons as int);
    geometry::lesser(geometry::larger(left, 0), i32::MAX as int)
}

/// The head kept longest: the one with something to report.
pub open spec fn pinned_by(mark: Option<Tone>) -> Option<Menu> {
    match mark {
        Some(_) => Some(Menu::Help),
        None => None,
    }
}

/// The layout of the bar.
pub open spec fn bar_layout(state: BarState<'_>, m: BarRoom, scale: int) -> headband::Layout {
    let mark = menubar::mark_for(*state.update);
    headband::planned(
        head_widths(m.words@, mark, scale),
        m.gap,
        Some(width_around(m.more as int, mark is Some, scale) as i32),
        Some(room_left(m, state.reserve as int) as i32),
        pinned_by(mark),
    )
}

/// The width of a head that is drawn.
pub open spec fn drawn_width(words: Seq<u32>, menu: Menu, mark: Option<Tone>, scale: int) -> int {
    let word = match menu {
        Menu::Session => words[0],
        Menu::Tools => words[1],
        Menu::Display => words[2],
        Menu::Help => words[3],
    };
    width_around(word as int, menubar::mark_on(menu, mark) is Some, scale)
}

/// Whether that is the head of a menu ruled across the bar at that place.
pub open spec fn is_head(
    h: BarHead,
    menu: Menu,
    at: int,
    words: Seq<u32>,
    mark: Option<Tone>,
    scale: int,
) -> bool {
    &&& h.trigger == Trigger::Menu(menu)
    &&& h.width == drawn_width(words, menu, mark, scale)
    &&& h.mark == menubar::mark_on(menu, mark)
    &&& h.first == (at == 0)
}

/// Lays the bar out: the heads that the room beside the window buttons holds,
/// and a head over those that had to fold. `None` where nothing can be drawn.
pub fn bar(state: &BarState<'_>, m: &BarRoom, scale: i32) -> (r: Option<BarFrame>)
    requires
        SCALE_MIN <= scale <= SCALE_MAX,
    ensures
        ({
            let mark = menubar::mark_for(*state.update);
            let layout = bar_layout(*state, *m, scale as int);
            let n = layout.shown.len() as int;
            &&& r is None <==> layout == headband::nothing() || m.height <= 0
            &&& r is Some ==> {
                let f = r->0;
                &&& f.folded@ == layout.folded
                &&& f.height == geometry::lesser(headband::strip_of(scale as int), m.height as int)
                &&& f.heads@.len() == n + (if layout.folded.len() > 0 {
                    1int
                } else {
                    0
                })
                &&& forall|i: int|
                    0 <= i < n ==> is_head(
                        #[trigger] f.heads@[i],
                        layout.shown[i],
                        i,
                        m.words@,
                        mark,
                        scale as int,
                    )
                &&& layout.folded.len() > 0 ==> {
                    let more = f.heads@[n];
                    &&& more.trigger == Trigger::More
                    &&& more.width == width_around(m.more as int, mark is Some, scale as int)
                    &&& more.mark == (if layout.folded.contains(Menu::Help) {
                        mark
                    } else {
                        None
                    })
                    &&& more.first == (n == 0)
                }
            }
        }),
{
    let mark: Option<Tone> = update_mark(state.update);
    let all: Vec<Menu> = Menu::all();
    let mut widths: Vec<(Menu, i32)> = Vec::new();
    let mut i: usize = 0;
    while i < 4
        invariant
            i <= 4,
            all@ == Menu::reading_order(),
            widths@.len() == i,
            SCALE_MIN <= scale <= SCALE_MAX,
            forall|j: int|
                0 <= j < i ==> #[trigger] widths@[j] == head_widths(
                    m.words@,
                    mark,
                    scale as int,
                )[j],
        decreases 4 - i,
    {
        let menu: Menu = all[i];
        let w: i32 = wide(m.words[i], mark_of(menu, mark).is_some(), scale);
        widths.push((menu, w));
        i = i + 1;
    }
    proof {
        assert(widths@ =~= head_widths(m.words@, mark, scale as int));
    }
    let more_w: i32 = wide(m.more, mark.is_some(), scale);
    let avail: i32 = bar_room(m.width, state.reserve, m.buttons);
    let pinned: Option<Menu> = match mark {
        Some(_) => Some(Menu::Help),
        None => None,
    };
    let layout: Plan = plan(widths.as_slice(), m.gap, Some(more_w), Some(avail), pinned);
    if layout.is_empty() {
        return None;
    }
    let height: i32 = match head_height(m.height, scale) {
        Some(h) => h,
        None => {
            return None;
        },
    };
    let mut heads: Vec<BarHead> = Vec::new();
    let mut k: usize = 0;
    while k < layout.shown.len()
        invariant
            k <= layout.shown@.len(),
            heads@.len() == k,
            SCALE_MIN <= scale <= SCALE_MAX,
            forall|j: int|
                0 <= j < k ==> is_head(
                    #[trigger] heads@[j],
                    layout.shown@[j],
                    j,
                    m.words@,
                    mark,
                    scale as int,
                ),
        decreases layout.shown@.len() - k,
    {
        let menu: Menu = layout.shown[k];
        let own: Option<Tone> = mark_of(menu, mark);
        let word: u32 = match menu {
            Menu::Session => m.words[0],
            Menu::Tools => m.words[1],
            Menu::Display => m.words[2],
            Menu::Help => m.words[3],
        };
        heads.push(
            BarHead {
                trigger: Trigger::Menu(menu),
                width: wide(word, own.is_some(), scale),
                mark: own,
                first: k == 0,
            },
        );
        k = k + 1;
    }
    if layout.folded.len() > 0 {
        heads.push(
            BarHead {
                trigger: Trigger::More,
                width: more_w,
                mark: folded_mark(layout.folded.as_slice(), mark),
                first: k == 0,
            },
        );
    }
    Some(BarFrame { heads, folded: layout.folded, height })
}

// ---------------------------------------------------------------------------
// One head
// ---------------------------------------------------------------------------

/// How the two rules of a head are drawn over.
#[derive(Clone, Copy, PartialEq, Eq, Debug, Structural)]
pub enum Ruling {
    /// Not at all.
    Still,
    /// From opposite ends: the lower one up to there, the upper one from there.
    Closing {
        /// Where the lower one ends.
        foot_to: i64,
        /// Where the upper one starts.
        cap_from: i64,
    },
    /// Across the whole head, with the sill at that height.
    Open {
        /// Where the sill lies.
        sill: i64,
    },
}

/// A head, ready to be painted.
#[derive(Clone, Copy, Debug)]
pub struct HeadFace {
    /// Where its word stands.
    pub word: Frame,
    /// The doorway it cuts while its page is open.
    pub notch: Option<Frame>,
    /// Its two rules, and how they are drawn over.
    pub rules: Option<(Rules, Ruling)>,
    /// The middle of its mark, from the left.
    pub mark_x: i64,
}

/// Where the word of a head stands: in from the left by the height of its type,
/// halfway down the head.
pub open spec fn word_at(strip: Frame, w: int, h: int, scale: int) -> Frame {
    let left = strip.left + theme::sized_of(STEP_META as int, scale);
    let top = geometry::middle(strip.top as int, strip.bottom - h);
    Frame { left: left as i64, top: top as i64, right: (left + w) as i64, bottom: (top + h) as i64 }
}

/// Sets a head: its word, its doorway, its rules and its mark. `w` and `h` are
/// the size of the word, `reached` how far its rules have closed, in
/// ten-thousandths.
pub fn draw_head(
    strip: Frame,
    bar: Frame,
    w: u32,
    h: u32,
    look: HeadLook,
    reached: u32,
    scale: i32,
) -> (r: HeadFace)
    requires
        SCALE_MIN <= scale <= SCALE_MAX,
        strip.near(),
        bar.near(),
        reached <= 10_000,
    ensures
        r.word == word_at(strip, w as int, h as int, scale as int),
        r.mark_x == r.word.right + SPACE_S + headband::mark_of_scale(scale as int),
        !look.open ==> r.notch is None,
        look.open ==> r.notch == headband::doorway(strip, bar),
        ({
            let cap = theme::pixel(r.word.top - SPACE_S);
            let foot = theme::pixel(r.word.bottom + SPACE_S);
            &&& r.rules is Some <==> strip.top < cap && cap < foot && foot < strip.bottom
            &&& r.rules is Some ==> {
                &&& (r.rules->0).0.cap == cap
                &&& (r.rules->0).0.foot == foot
                &&& match (r.rules->0).1 {
                    Ruling::Open { sill } => look.open && sill == match r.notch {
                        Some(n) => theme::pixel(n.bottom as int),
                        None => foot,
                    },
                    Ruling::Closing { foot_to, cap_from } => {
                        &&& !look.open && reached > 0
                        &&& foot_to == r.word.left + w * reached / 10_000
                        &&& cap_from == r.word.right - w * reached / 10_000
                    },
                    Ruling::Still => !look.open && reached == 0,
                }
            }
        }),
{
    let left: i64 = strip.left + sized(STEP_META, scale) as i64;
    let top: i64 = mid_of(strip.top, strip.bottom - h as i64);
    let word: Frame = Frame { left, top, right: left + w as i64, bottom: top + h as i64 };
    let notch: Option<Frame> = if look.open {
        open_notch(strip, bar)
    } else {
        None
    };
    let rules: Option<(Rules, Ruling)> = match compartment_rules(strip, word) {
        None => None,
        Some(c) => {
            let ruling: Ruling = if look.open {
                Ruling::Open {
                    sill: match notch {
                        Some(n) => snap(n.bottom),
                        None => c.foot,
                    },
                }
            } else if reached > 0 {
                proof {
                    assert(0 <= w * reached <= 0xffff_ffff * 10_000) by (nonlinear_arith)
                        requires
                            0 <= w <= 0xffff_ffff,
                            0 <= reached <= 10_000,
                    ;
                }
                let span: i64 = (w as u64 * reached as u64 / 10_000) as i64;
                Ruling::Closing { foot_to: word.left + span, cap_from: word.right - span }
            } else {
                Ruling::Still
            };
            Some((c, ruling))
        },
    };
    HeadFace { word, notch, rules, mark_x: word.right + SPACE_S as i64 + mark_r(scale) as i64 }
}

/// The rules of a head that is reached close on its word and no further: fully
/// reached, each runs along the whole of it.
pub proof fn law_the_rules_close_on_the_word(left: int, w: int, reached: int)
    requires
        w >= 0,
        0 <= reached <= 10_000,
    ensures
        left <= left + w * reached / 10_000 <= left + w,
        reached == 10_000 ==> w * reached / 10_000 == w,
{
    assert(0 <= w * reached <= w * 10_000) by (nonlinear_arith)
        requires
            w >= 0,
            0 <= reached <= 10_000,
    ;
    if reached == 10_000 {
        assert(w * reached == w * 10_000);
    }
}

// ---------------------------------------------------------------------------
// The lines of a page
// ---------------------------------------------------------------------------

/// A line of a page with something at either end and a rule between.
#[derive(Clone, Copy, PartialEq, Eq, Debug, Structural)]
pub struct RuledLine {
    /// Where what stands at its outer end starts.
    pub tail_x: i64,
    /// Where the rule starts.
    pub from: i64,
    /// Where the rule ends; it is drawn where that lies behind its start.
    pub to: i64,
}

/// Sets a line that starts at `left` and ends a medium space short of `right`.
pub fn ruled_line(left: i64, lead_w: u32, right: i64, tail_w: Option<u32>) -> (r: RuledLine)
    requires
        -FAR <= left <= FAR,
        -FAR <= right <= FAR,
    ensures
        r.from == left + lead_w + SPACE_M,
        r.tail_x == right - SPACE_M - (match tail_w {
            Some(w) => w as int,
            None => 0,
        }),
        r.to == (match tail_w {
            Some(_) => r.tail_x - SPACE_M,
            None => r.tail_x as int,
        }),
{
    let edge: i64 = right - SPACE_M as i64;
    let from: i64 = left + lead_w as i64 + SPACE_M as i64;
    match tail_w {
        Some(w) => {
            let tail_x: i64 = edge - w as i64;
            RuledLine { tail_x, from, to: tail_x - SPACE_M as i64 }
        },
        None => RuledLine { tail_x: edge, from, to: edge },
    }
}

/// The rule of a line touches neither of the two things it runs between.
pub proof fn law_a_rule_stays_between_its_ends(left: int, lead_w: int, right: int, tail_w: int)
    requires
        tail_w >= 0,
        left + lead_w + SPACE_M < right - SPACE_M - tail_w - SPACE_M,
    ensures
        ({
            let from = left + lead_w + SPACE_M;
            let to = right - SPACE_M - tail_w - SPACE_M;
            left + lead_w < from && from < to && to < right - SPACE_M - tail_w
        }),
{
}

/// Where the parts of an entry stand.
#[derive(Clone, Copy, PartialEq, Eq, Debug, Structural)]
pub struct ItemFace {
    /// Where its word starts.
    pub text_x: i64,
    /// Where its chord ends.
    pub chord_x: i64,
    /// Halfway down.
    pub mid: i64,
    /// The middle of the mark in its margin, if it has one.
    pub mark_x: Option<i64>,
    /// Where the rule of the margin swells, if it does.
    pub swell_x: Option<i64>,
    /// The rule under it.
    pub foot: i64,
}

/// The margin of a page: as wide as a label is high.
pub open spec fn margin_of(scale: int) -> int {
    theme::sized_of(STEP_LABEL as int, scale)
}

/// Sets an entry: its word behind the margin, its chord at the outer edge, its
/// mark in the middle of the margin.
pub fn item_body(rect: Frame, look: ItemLook, scale: i32) -> (r: ItemFace)
    requires
        SCALE_MIN <= scale <= SCALE_MAX,
        rect.near(),
    ensures
        r.text_x == rect.left + margin_of(scale as int) + SPACE_M,
        r.chord_x == rect.right - SPACE_M,
        r.mid == geometry::middle(rect.top as int, rect.bottom as int),
        r.mark_x == (if look.mark == headband::Mark::Absent {
            None
        } else {
            Some((rect.left + margin_of(scale as int) / 2) as i64)
        }),
        r.swell_x == (if look.swell {
            Some(theme::pixel(rect.left + margin_of(scale as int)) as i64)
        } else {
            None
        }),
        r.foot == theme::pixel(rect.bottom as int),
{
    let margin: i64 = sized(STEP_LABEL, scale) as i64;
    let mark_x: Option<i64> = match look.mark {
        headband::Mark::Absent => None,
        _ => Some(rect.left + margin / 2),
    };
    let swell_x: Option<i64> = if look.swell {
        Some(snap(rect.left + margin))
    } else {
        None
    };
    ItemFace {
        text_x: rect.left + margin + SPACE_M as i64,
        chord_x: rect.right - SPACE_M as i64,
        mid: mid_of(rect.top, rect.bottom),
        mark_x,
        swell_x,
        foot: snap(rect.bottom),
    }
}

/// A head is as wide as its word with its padding on both sides, and wider by its
/// mark and a space where it has one.
pub proof fn law_a_marked_head_is_wider_by_its_mark(word: int, scale: int)
    requires
        0 <= word <= 1_000_000,
        SCALE_MIN <= scale <= SCALE_MAX,
    ensures
        width_around(word, false, scale) == word + 2 * theme::sized_of(1_150, scale),
        width_around(word, true, scale) == width_around(word, false, scale) + 400 + 2
            * headband::mark_of_scale(scale),
{
    assert(theme::sized_of(1_150, scale) <= 1_000_000);
    assert(headband::mark_of_scale(scale) <= 1_000_000);
}

/// The heads of a bar are those that its plan shows, in order, with the one over
/// the folded heads last where there are any; only the first speaks the key; and
/// news marks the help head, or the one it is folded into.
pub proof fn law_a_bar_rules_what_its_plan_shows(
    state: BarState<'_>,
    m: BarRoom,
    scale: i32,
    r: Option<BarFrame>,
    i: int,
)
    requires
        call_ensures(bar, (&state, &m, scale), r),
        r is Some,
        0 <= i < (r->0).heads@.len(),
    ensures
        ({
            let f = r->0;
            let h = f.heads@[i];
            let layout = bar_layout(state, m, scale as int);
            let mark = menubar::mark_for(*state.update);
            &&& f.folded@ == layout.folded
            &&& i < layout.shown.len() ==> h.trigger == Trigger::Menu(layout.shown[i])
            &&& i >= layout.shown.len() ==> h.trigger == Trigger::More && i == f.heads@.len() - 1
                && f.folded@.len() > 0
            &&& h.first <==> i == 0
            &&& h.trigger == Trigger::Menu(Menu::Help) ==> h.mark == mark
            &&& h.trigger is Menu && h.trigger != Trigger::Menu(Menu::Help) ==> h.mark is None
            &&& h.trigger == Trigger::More && f.folded@.contains(Menu::Help) ==> h.mark == mark
            &&& h.trigger == Trigger::More && !f.folded@.contains(Menu::Help) ==> h.mark is None
            &&& f.height <= m.height
        }),
{
    if i < bar_layout(state, m, scale as int).shown.len() {
        let layout = bar_layout(state, m, scale as int);
        assert(is_head(
            (r->0).heads@[i],
            layout.shown[i],
            i,
            m.words@,
            menubar::mark_for(*state.update),
            scale as int,
        ));
    }
}

/// The plan of a bar is made for its four heads in reading order, the help head
/// kept first while it has news.
pub proof fn law_a_bar_plans_its_four_heads(state: BarState<'_>, m: BarRoom, scale: int, i: int)
    requires
        0 <= i < 4,
    ensures
        ({
            let mark = menubar::mark_for(*state.update);
            let w = head_widths(m.words@, mark, scale);
            &&& w.len() == 4
            &&& w[i].0 == seq![Menu::Session, Menu::Tools, Menu::Display, Menu::Help][i]
            &&& w[i].1 == width_around(m.words@[i] as int, i == 3 && mark is Some, scale) as i32
            &&& mark is Some ==> pinned_by(mark) == Some(Menu::Help)
            &&& mark is None ==> pinned_by(mark) is None
        }),
{
}

/// A rule runs from eight points behind its lead to eight in front of its tail, or
/// of the side where it has none.
pub proof fn law_a_rule_runs_between_lead_and_tail(
    left: i64,
    lead_w: u32,
    right: i64,
    tail_w: u32,
    bare: RuledLine,
    r: RuledLine,
)
    requires
        call_ensures(ruled_line, (left, lead_w, right, None), bare),
        call_ensures(ruled_line, (left, lead_w, right, Some(tail_w)), r),
        -FAR <= left <= FAR,
        -FAR <= right <= FAR,
    ensures
        bare.from == left + lead_w + 800 && r.from == bare.from,
        bare.to == right - 800,
        r.tail_x + tail_w == right - 800,
        r.to == r.tail_x - 800,
{
}

/// The rules of a shut head close on its word from both ends as it is reached: the
/// foot from the left, the cap from the right, and both the whole word at the end.
pub proof fn law_a_reached_head_is_ruled_from_both_ends(
    strip: Frame,
    bar: Frame,
    w: u32,
    h: u32,
    look: HeadLook,
    scale: i32,
    r: HeadFace,
)
    requires
        call_ensures(draw_head, (strip, bar, w, h, look, 10_000u32, scale), r),
        SCALE_MIN <= scale <= SCALE_MAX,
        strip.near(),
        bar.near(),
        !look.open,
        r.rules is Some,
    ensures
        r.notch is None,
        (r.rules->0).1 is Closing,
        ({
            let rule = (r.rules->0).1;
            rule->foot_to == r.word.left + w && rule->cap_from == r.word.right - w
        }),
{
    assert(w * 10_000 / 10_000 == w);
}

} // verus!
