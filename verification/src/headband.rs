//! The head-band of the menu bar: which heads a width can afford, where the
//! keyboard goes, and how an entry of a page is drawn.
//!
//! Widths are in hundredths of a point; `None` stands for one that is no finite
//! number. Widgets are known by the number of their id.

use crate::a11y::{SCALE_MAX, SCALE_MIN};
use crate::chrome::band_rect;
use crate::geometry::{self, mid_of, Frame, FAR};
use crate::menubar::{Item, Menu};
use crate::theme::{
    self, sized, snap, SPACE_L, SPACE_M, SPACE_S, SPACE_XS, SPACE_XXL, STEP_CAPTION, STEP_META,
};
use vstd::prelude::*;

verus! {

// ---------------------------------------------------------------------------
// The plan
// ---------------------------------------------------------------------------

/// Which heads are ruled across the bar and which fold into "more", both in
/// reading order.
#[derive(Clone, PartialEq, Eq, Debug)]
pub struct Plan {
    /// Ruled across the bar.
    pub shown: Vec<Menu>,
    /// Folded away.
    pub folded: Vec<Menu>,
}

/// A plan as a value.
pub struct Layout {
    /// Ruled across the bar.
    pub shown: Seq<Menu>,
    /// Folded away.
    pub folded: Seq<Menu>,
}

impl View for Plan {
    type V = Layout;

    open spec fn view(&self) -> Layout {
        Layout { shown: self.shown@, folded: self.folded@ }
    }
}

/// A plan that draws nothing.
pub open spec fn nothing() -> Layout {
    Layout { shown: Seq::empty(), folded: Seq::empty() }
}

impl Plan {
    /// Nothing can be drawn at all: there is no room even for "more".
    pub fn is_empty(&self) -> (r: bool)
        ensures
            r == (self@ == nothing()),
    {
        proof {
            if self.shown@.len() == 0 && self.folded@.len() == 0 {
                assert(self.shown@ =~= Seq::<Menu>::empty());
                assert(self.folded@ =~= Seq::<Menu>::empty());
            }
        }
        self.shown.len() == 0 && self.folded.len() == 0
    }
}

impl Default for Plan {
    fn default() -> (r: Self)
        ensures
            r@ == nothing(),
    {
        let r: Plan = Plan { shown: Vec::new(), folded: Vec::new() };
        proof {
            assert(r.shown@ =~= Seq::<Menu>::empty());
            assert(r.folded@ =~= Seq::<Menu>::empty());
        }
        r
    }
}

/// The order in which heads are kept when the bar runs out of room: a head with
/// something to report first, then reading order.
pub open spec fn keeping_order(pinned: Option<Menu>) -> Seq<Menu> {
    match pinned {
        Some(p) => seq![p] + Menu::reading_order().filter(|m: Menu| m != p),
        None => Menu::reading_order(),
    }
}

/// The order in which heads are kept when the bar runs out of room.
pub fn keep_order(pinned: Option<Menu>) -> (order: Vec<Menu>)
    ensures
        order@ == keeping_order(pinned),
{
    let all: Vec<Menu> = Menu::all();
    match pinned {
        None => all,
        Some(p) => {
            let ghost rest = |m: Menu| m != p;
            let mut order: Vec<Menu> = Vec::new();
            order.push(p);
            let mut i: usize = 0;
            proof {
                reveal(Seq::filter);
                assert(all@.take(0) =~= Seq::<Menu>::empty());
                assert(order@ =~= seq![p] + all@.take(0).filter(rest));
            }
            while i < all.len()
                invariant
                    i <= all.len(),
                    rest == |m: Menu| m != p,
                    order@ == seq![p] + all@.take(i as int).filter(rest),
                decreases all.len() - i,
            {
                let ghost before = order@;
                let m: Menu = all[i];
                if m != p {
                    order.push(m);
                }
                proof {
                    reveal(Seq::filter);
                    let next = all@.take(i + 1);
                    assert(next.drop_last() =~= all@.take(i as int));
                    assert(next.last() == m);
                    assert(order@ =~= seq![p] + next.filter(rest));
                }
                i = i + 1;
            }
            proof {
                assert(all@.take(i as int) =~= all@);
            }
            order
        },
    }
}

/// A width, where a negative one counts as none.
pub open spec fn room(w: int) -> int {
    if w < 0 {
        0
    } else {
        w
    }
}

/// The gap between two heads; none where it is no number.
pub open spec fn gap_of(gap: Option<i32>) -> int {
    match gap {
        Some(g) => room(g as int),
        None => 0,
    }
}

/// The widths of all heads together.
pub open spec fn width_sum(widths: Seq<(Menu, i32)>) -> int
    decreases widths.len(),
{
    if widths.len() == 0 {
        0
    } else {
        width_sum(widths.drop_last()) + room(widths.last().1 as int)
    }
}

/// The width of `menu`, where it has one.
pub open spec fn width_of(widths: Seq<(Menu, i32)>, menu: Menu) -> Option<int>
    decreases widths.len(),
{
    if widths.len() == 0 {
        None
    } else if widths[0].0 == menu {
        Some(room(widths[0].1 as int))
    } else {
        width_of(widths.drop_first(), menu)
    }
}

/// The heads that fit into `budget`, taken in `order` until one does not fit.
/// Each costs its width and the gap behind it.
pub open spec fn kept(
    order: Seq<Menu>,
    widths: Seq<(Menu, i32)>,
    gap: int,
    budget: int,
) -> Seq<Menu>
    decreases order.len(),
{
    if order.len() == 0 {
        Seq::empty()
    } else {
        match width_of(widths, order[0]) {
            None => kept(order.drop_first(), widths, gap, budget),
            Some(w) => if w + gap > budget {
                Seq::empty()
            } else {
                seq![order[0]] + kept(order.drop_first(), widths, gap, budget - w - gap)
            },
        }
    }
}

/// The menus in the order of their widths.
pub open spec fn menus_of(widths: Seq<(Menu, i32)>) -> Seq<Menu> {
    widths.map_values(|e: (Menu, i32)| e.0)
}

/// The plan for a width.
pub open spec fn planned(
    widths: Seq<(Menu, i32)>,
    gap: Option<i32>,
    more_w: Option<i32>,
    avail: Option<i32>,
    pinned: Option<Menu>,
) -> Layout {
    let g = gap_of(gap);
    match avail {
        None => nothing(),
        Some(a) => if widths.len() == 0 || a <= 0 {
            nothing()
        } else if width_sum(widths) + g * (widths.len() - 1) <= a {
            Layout { shown: menus_of(widths), folded: Seq::empty() }
        } else {
            match more_w {
                None => nothing(),
                Some(more) => if a < more {
                    nothing()
                } else {
                    let keep = kept(keeping_order(pinned), widths, g, a - more);
                    Layout {
                        shown: menus_of(widths).filter(|m: Menu| keep.contains(m)),
                        folded: menus_of(widths).filter(|m: Menu| !keep.contains(m)),
                    }
                },
            }
        },
    }
}

fn contains(list: &Vec<Menu>, m: Menu) -> (r: bool)
    ensures
        r == list@.contains(m),
{
    let mut i: usize = 0;
    while i < list.len()
        invariant
            i <= list.len(),
            forall|j: int| 0 <= j < i ==> list@[j] != m,
        decreases list.len() - i,
    {
        if list[i] == m {
            proof {
                assert(list@[i as int] == m);
            }
            return true;
        }
        i = i + 1;
    }
    false
}

fn find_width(widths: &[(Menu, i32)], menu: Menu) -> (r: Option<i128>)
    ensures
        match r {
            Some(w) => width_of(widths@, menu) == Some(w as int) && 0 <= w <= i32::MAX,
            None => width_of(widths@, menu) is None,
        },
{
    let mut i: usize = 0;
    proof {
        assert(widths@.skip(0) =~= widths@);
    }
    while i < widths.len()
        invariant
            i <= widths@.len(),
            width_of(widths@, menu) == width_of(widths@.skip(i as int), menu),
        decreases widths@.len() - i,
    {
        proof {
            assert(widths@.skip(i as int).drop_first() =~= widths@.skip(i + 1));
        }
        if widths[i].0 == menu {
            let w: i32 = widths[i].1;
            return Some(
                if w < 0 {
                    0
                } else {
                    w as i128
                },
            );
        }
        i = i + 1;
    }
    None
}

fn sum_widths(widths: &[(Menu, i32)]) -> (r: i128)
    ensures
        r == width_sum(widths@),
        0 <= r <= i32::MAX * widths@.len(),
{
    let mut sum: i128 = 0;
    let mut i: usize = 0;
    while i < widths.len()
        invariant
            i <= widths@.len(),
            sum == width_sum(widths@.take(i as int)),
            0 <= sum <= i32::MAX * i,
        decreases widths@.len() - i,
    {
        proof {
            assert(widths@.take(i + 1).drop_last() =~= widths@.take(i as int));
        }
        let w: i32 = widths[i].1;
        if w > 0 {
            sum = sum + w as i128;
        }
        i = i + 1;
    }
    proof {
        assert(widths@.take(i as int) =~= widths@);
    }
    sum
}

fn keep_heads(
    order: &Vec<Menu>,
    widths: &[(Menu, i32)],
    gap: i128,
    budget: i128,
) -> (keep: Vec<Menu>)
    requires
        0 <= gap <= i32::MAX,
        0 <= budget <= u32::MAX,
    ensures
        keep@ == kept(order@, widths@, gap as int, budget as int),
{
    let mut keep: Vec<Menu> = Vec::new();
    let mut left: i128 = budget;
    let mut i: usize = 0;
    let ghost whole = kept(order@, widths@, gap as int, budget as int);
    proof {
        assert(order@.skip(0) =~= order@);
        assert(whole =~= keep@ + whole);
    }
    while i < order.len()
        invariant
            i <= order.len(),
            0 <= gap <= i32::MAX,
            0 <= left <= u32::MAX,
            whole == kept(order@, widths@, gap as int, budget as int),
            whole == keep@ + kept(order@.skip(i as int), widths@, gap as int, left as int),
        decreases order.len() - i,
    {
        let ghost rest = order@.skip(i as int);
        let ghost before = keep@;
        let ghost budget_before = left;
        proof {
            assert(rest.drop_first() =~= order@.skip(i + 1));
        }
        match find_width(widths, order[i]) {
            None => {},
            Some(w) => {
                if w + gap > left {
                    proof {
                        assert(keep@ =~= whole);
                    }
                    return keep;
                }
                left = left - w - gap;
                keep.push(order[i]);
                proof {
                    let tail = kept(order@.skip(i + 1), widths@, gap as int, left as int);
                    assert(before + (seq![order@[i as int]] + tail) =~= keep@ + tail);
                }
            },
        }
        i = i + 1;
    }
    proof {
        assert(order@.skip(i as int) =~= Seq::<Menu>::empty());
        assert(keep@ =~= whole);
    }
    keep
}

/// The menus that are, or are not, in `keep`, in the order of their widths.
fn select(widths: &[(Menu, i32)], keep: &Vec<Menu>, wanted: bool) -> (r: Vec<Menu>)
    ensures
        r@ == menus_of(widths@).filter(|m: Menu| keep@.contains(m) == wanted),
{
    let ghost all = menus_of(widths@);
    let ghost pick = |m: Menu| keep@.contains(m) == wanted;
    let mut r: Vec<Menu> = Vec::new();
    let mut i: usize = 0;
    proof {
        reveal(Seq::filter);
        assert(all.take(0) =~= Seq::<Menu>::empty());
        assert(r@ =~= all.take(0).filter(pick));
    }
    while i < widths.len()
        invariant
            i <= widths@.len(),
            all == menus_of(widths@),
            pick == |m: Menu| keep@.contains(m) == wanted,
            r@ == all.take(i as int).filter(pick),
        decreases widths@.len() - i,
    {
        let m: Menu = widths[i].0;
        if contains(keep, m) == wanted {
            r.push(m);
        }
        proof {
            reveal(Seq::filter);
            assert(all.take(i + 1).drop_last() =~= all.take(i as int));
            assert(all.take(i + 1).last() == m);
        }
        i = i + 1;
    }
    proof {
        assert(all.take(i as int) =~= all);
    }
    r
}

fn all_menus(widths: &[(Menu, i32)]) -> (r: Vec<Menu>)
    ensures
        r@ == menus_of(widths@),
{
    let mut r: Vec<Menu> = Vec::new();
    let mut i: usize = 0;
    while i < widths.len()
        invariant
            i <= widths@.len(),
            r@.len() == i,
            forall|j: int| 0 <= j < i ==> r@[j] == widths@[j].0,
        decreases widths@.len() - i,
    {
        r.push(widths[i].0);
        i = i + 1;
    }
    proof {
        assert(r@ =~= menus_of(widths@));
    }
    r
}

/// Fits the heads into `avail`, folding what will not go into "more".
///
/// `widths` is each head's width in reading order, `gap` the space between two
/// of them, `more_w` the width of the head over the folded ones. Folding stops
/// at the first head that will not fit.
pub fn plan(
    widths: &[(Menu, i32)],
    gap: Option<i32>,
    more_w: Option<i32>,
    avail: Option<i32>,
    pinned: Option<Menu>,
) -> (r: Plan)
    ensures
        r@ == planned(widths@, gap, more_w, avail, pinned),
{
    let a: i32 = match avail {
        Some(a) => a,
        None => 0,
    };
    if widths.len() == 0 || a <= 0 {
        return Plan { shown: Vec::new(), folded: Vec::new() };
    }
    let g: i128 = match gap {
        Some(g) => if g < 0 {
            0
        } else {
            g as i128
        },
        None => 0,
    };
    let n: i128 = widths.len() as i128 - 1;
    proof {
        assert(0 <= g * n <= i32::MAX * usize::MAX) by (nonlinear_arith)
            requires
                0 <= g <= i32::MAX,
                0 <= n <= usize::MAX,
        ;
    }
    if sum_widths(widths) + g * n <= a as i128 {
        return Plan { shown: all_menus(widths), folded: Vec::new() };
    }
    let more: i32 = match more_w {
        Some(m) => m,
        None => {
            return Plan { shown: Vec::new(), folded: Vec::new() };
        },
    };
    if a < more {
        return Plan { shown: Vec::new(), folded: Vec::new() };
    }
    let order: Vec<Menu> = keep_order(pinned);
    let keep: Vec<Menu> = keep_heads(&order, widths, g, a as i128 - more as i128);
    let shown: Vec<Menu> = select(widths, &keep, true);
    let folded: Vec<Menu> = select(widths, &keep, false);
    proof {
        let all = menus_of(widths@);
        lemma_same_filter(
            all,
            |m: Menu| keep@.contains(m) == true,
            |m: Menu| keep@.contains(m),
        );
        lemma_same_filter(
            all,
            |m: Menu| keep@.contains(m) == false,
            |m: Menu| !keep@.contains(m),
        );
    }
    Plan { shown, folded }
}

proof fn lemma_same_filter(s: Seq<Menu>, p: spec_fn(Menu) -> bool, q: spec_fn(Menu) -> bool)
    requires
        forall|m: Menu| #[trigger] p(m) == q(m),
    ensures
        s.filter(p) == s.filter(q),
    decreases s.len(),
{
    reveal(Seq::filter);
    if s.len() > 0 {
        lemma_same_filter(s.drop_last(), p, q);
    }
}

/// What is left of the bar for the heads: the available width less what is
/// spoken for, which is never less than what the window buttons take.
pub fn bar_room(available: i32, reserve: i32, buttons: i32) -> (r: i32)
    ensures
        ({
            let taken = if reserve < buttons {
                buttons as int
            } else {
                reserve as int
            };
            let left = available - taken;
            r == if left < 0 {
                0
            } else if left > i32::MAX {
                i32::MAX as int
            } else {
                left
            }
        }),
{
    let taken: i64 = if reserve < buttons {
        buttons as i64
    } else {
        reserve as i64
    };
    let left: i64 = available as i64 - taken;
    if left < 0 {
        0
    } else if left > i32::MAX as i64 {
        i32::MAX
    } else {
        left as i32
    }
}

// ---------------------------------------------------------------------------
// Laws of the plan
// ---------------------------------------------------------------------------

/// A plan that draws anything accounts for every head exactly once: it is
/// either ruled or folded.
pub proof fn law_every_head_is_shown_or_folded(
    widths: Seq<(Menu, i32)>,
    gap: Option<i32>,
    more_w: Option<i32>,
    avail: Option<i32>,
    pinned: Option<Menu>,
)
    ensures
        ({
            let p = planned(widths, gap, more_w, avail, pinned);
            p != nothing() ==> {
                &&& p.shown.len() + p.folded.len() == widths.len()
                &&& forall|m: Menu|
                    menus_of(widths).contains(m) ==> p.shown.contains(m) != p.folded.contains(m)
            }
        }),
{
    let p = planned(widths, gap, more_w, avail, pinned);
    if p != nothing() {
        let all = menus_of(widths);
        if p.shown == all && p.folded == Seq::<Menu>::empty() {
        } else {
            let keep = kept(
                keeping_order(pinned),
                widths,
                gap_of(gap),
                avail->0 as int - more_w->0 as int,
            );
            let yes = |m: Menu| keep.contains(m);
            let no = |m: Menu| !keep.contains(m);
            lemma_filter_splits(all, yes, no);
            assert forall|m: Menu| all.contains(m) implies p.shown.contains(m)
                != p.folded.contains(m) by {
                broadcast use Seq::lemma_filter_contains, Seq::lemma_filter_pred;

                let i = all.index_of(m);
                if yes(m) {
                    assert(all.filter(yes).contains(all[i]));
                    if p.folded.contains(m) {
                        let j = p.folded.index_of(m);
                        assert(no(all.filter(no)[j]));
                    }
                } else {
                    assert(all.filter(no).contains(all[i]));
                    if p.shown.contains(m) {
                        let j = p.shown.index_of(m);
                        assert(yes(all.filter(yes)[j]));
                    }
                }
            }
        }
    }
}

proof fn lemma_filter_splits(s: Seq<Menu>, yes: spec_fn(Menu) -> bool, no: spec_fn(Menu) -> bool)
    requires
        forall|m: Menu| #[trigger] yes(m) == !no(m),
    ensures
        s.filter(yes).len() + s.filter(no).len() == s.len(),
    decreases s.len(),
{
    reveal(Seq::filter);
    if s.len() > 0 {
        lemma_filter_splits(s.drop_last(), yes, no);
    }
}

/// The cost of a list of heads, each with the gap behind it.
pub open spec fn cost(heads: Seq<Menu>, widths: Seq<(Menu, i32)>, gap: int) -> int
    decreases heads.len(),
{
    if heads.len() == 0 {
        0
    } else {
        width_of(widths, heads[0])->0 + gap + cost(heads.drop_first(), widths, gap)
    }
}

/// The heads that are kept fit into the budget.
pub proof fn law_kept_heads_fit(
    order: Seq<Menu>,
    widths: Seq<(Menu, i32)>,
    gap: int,
    budget: int,
)
    requires
        budget >= 0,
        gap >= 0,
    ensures
        cost(kept(order, widths, gap, budget), widths, gap) <= budget,
    decreases order.len(),
{
    if order.len() > 0 {
        match width_of(widths, order[0]) {
            None => law_kept_heads_fit(order.drop_first(), widths, gap, budget),
            Some(w) => if w + gap <= budget {
                law_kept_heads_fit(order.drop_first(), widths, gap, budget - w - gap);
                let tail = kept(order.drop_first(), widths, gap, budget - w - gap);
                assert((seq![order[0]] + tail).drop_first() =~= tail);
            },
        }
    }
}

/// A head with something to report is shown wherever it alone would fit beside
/// "more".
pub proof fn law_a_marked_head_outlasts_the_others(
    widths: Seq<(Menu, i32)>,
    gap: Option<i32>,
    more: i32,
    avail: i32,
    pinned: Menu,
)
    requires
        width_of(widths, pinned) is Some,
        avail > 0,
        more <= avail,
        width_of(widths, pinned)->0 + gap_of(gap) <= avail - more,
    ensures
        planned(widths, gap, Some(more), Some(avail), Some(pinned)).shown.contains(pinned),
{
    lemma_width_is_listed(widths, pinned);
    let all = menus_of(widths);
    let g = gap_of(gap);
    let order = keeping_order(Some(pinned));
    let keep = kept(order, widths, g, avail - more);
    assert(order[0] == pinned);
    assert(keep[0] == pinned);
    let yes = |m: Menu| keep.contains(m);
    let i = all.index_of(pinned);
    broadcast use Seq::lemma_filter_contains;

    assert(yes(all[i]));
    assert(all.filter(yes).contains(all[i]));
}

proof fn lemma_width_is_listed(widths: Seq<(Menu, i32)>, m: Menu)
    requires
        width_of(widths, m) is Some,
    ensures
        menus_of(widths).contains(m),
        widths.len() > 0,
    decreases widths.len(),
{
    if widths[0].0 == m {
        assert(menus_of(widths)[0] == m);
    } else {
        lemma_width_is_listed(widths.drop_first(), m);
        let tail = menus_of(widths.drop_first());
        let i = tail.index_of(m);
        assert(menus_of(widths)[i + 1] == m);
    }
}

/// Folding stops at the first head that will not fit: whatever is kept behind a
/// head in the keeping order, that head is kept too.
pub proof fn law_folding_never_skips(
    order: Seq<Menu>,
    widths: Seq<(Menu, i32)>,
    gap: int,
    budget: int,
    i: int,
    j: int,
)
    requires
        order.no_duplicates(),
        0 <= i < j < order.len(),
        width_of(widths, order[i]) is Some,
        kept(order, widths, gap, budget).contains(order[j]),
    ensures
        kept(order, widths, gap, budget).contains(order[i]),
    decreases order.len(),
{
    let rest = order.drop_first();
    match width_of(widths, order[0]) {
        None => {
            assert(rest[j - 1] == order[j] && rest[i - 1] == order[i]);
            law_folding_never_skips(rest, widths, gap, budget, i - 1, j - 1);
        },
        Some(w) => {
            let tail = kept(rest, widths, gap, budget - w - gap);
            let all = seq![order[0]] + tail;
            let at = all.index_of(order[j]);
            if at == 0 {
                assert(order[0] == order[j]);
            }
            assert(tail[at - 1] == order[j]);
            if i == 0 {
                assert(all[0] == order[0]);
            } else {
                assert(rest[j - 1] == order[j] && rest[i - 1] == order[i]);
                law_folding_never_skips(rest, widths, gap, budget - w - gap, i - 1, j - 1);
                let k = tail.index_of(order[i]);
                assert(all[k + 1] == order[i]);
            }
        },
    }
}

// ---------------------------------------------------------------------------
// The keyboard
// ---------------------------------------------------------------------------

/// The place that focus moves to from `at` among `n`, wrapping at both ends.
pub open spec fn wrapped_step(at: Option<int>, n: int, forward: bool) -> int {
    match at {
        None => if forward {
            0
        } else {
            n - 1
        },
        Some(i) => if forward {
            if i == n - 1 {
                0
            } else {
                i + 1
            }
        } else {
            if i == 0 {
                n - 1
            } else {
                i - 1
            }
        },
    }
}

fn find_id(ids: &[u64], id: u64) -> (r: Option<usize>)
    ensures
        match r {
            Some(i) => i < ids@.len() && ids@.index_of_first(id) == Some(i as int) && ids@.contains(
                id,
            ),
            None => ids@.index_of_first(id) is None && !ids@.contains(id),
        },
{
    proof {
        ids@.index_of_first_ensures(id);
    }
    let mut i: usize = 0;
    while i < ids.len()
        invariant
            i <= ids@.len(),
            forall|j: int| 0 <= j < i ==> ids@[j] != id,
        decreases ids@.len() - i,
    {
        if ids[i] == id {
            proof {
                assert(ids@[i as int] == id);
                ids@.index_of_first_ensures(id);
            }
            return Some(i);
        }
        i = i + 1;
    }
    None
}

/// Where the focused widget stands among `ids`.
pub open spec fn focused_at(ids: Seq<u64>, focused: Option<u64>) -> Option<int> {
    match focused {
        Some(f) => ids.index_of_first(f),
        None => None,
    }
}

/// The item that focus moves to by one step.
pub open spec fn stepped_focus(
    ids: Seq<u64>,
    focused: Option<u64>,
    forward: bool,
) -> Option<u64> {
    if ids.len() == 0 {
        None
    } else {
        Some(ids[wrapped_step(focused_at(ids, focused), ids.len() as int, forward)])
    }
}

/// The item focus moves to, forward for a step of zero or more. It wraps at both
/// ends, and starts at an end when nothing in the menu holds focus.
pub fn step_focus(ids: &[u64], focused: Option<u64>, step: isize) -> (r: Option<u64>)
    ensures
        r == stepped_focus(ids@, focused, step >= 0),
{
    let n: usize = ids.len();
    if n == 0 {
        return None;
    }
    let at: Option<usize> = match focused {
        Some(f) => find_id(ids, f),
        None => None,
    };
    proof {
        if let Some(f) = focused {
            ids@.index_of_first_ensures(f);
        }
    }
    let next: usize = match at {
        None => if step >= 0 {
            0
        } else {
            n - 1
        },
        Some(i) => if step >= 0 {
            if i == n - 1 {
                0
            } else {
                i + 1
            }
        } else {
            if i == 0 {
                n - 1
            } else {
                i - 1
            }
        },
    };
    Some(ids[next])
}

/// The item that focus moves to after the keys of one frame: Home and End come
/// before the arrows, and down before up.
pub fn step_items(
    ids: &[u64],
    focused: Option<u64>,
    down: bool,
    up: bool,
    home: bool,
    end: bool,
) -> (r: Option<u64>)
    ensures
        r == (if ids@.len() == 0 {
            None
        } else if home {
            Some(ids@[0])
        } else if end {
            Some(ids@.last())
        } else if down {
            stepped_focus(ids@, focused, true)
        } else if up {
            stepped_focus(ids@, focused, false)
        } else {
            None
        }),
{
    if ids.len() == 0 {
        None
    } else if home {
        Some(ids[0])
    } else if end {
        Some(ids[ids.len() - 1])
    } else if down {
        step_focus(ids, focused, 1)
    } else if up {
        step_focus(ids, focused, -1)
    } else {
        None
    }
}

/// A step forward and a step back return to the item they started from.
pub proof fn law_focus_steps_come_back(n: int, i: int)
    requires
        0 <= i < n,
    ensures
        wrapped_step(Some(wrapped_step(Some(i), n, true)), n, false) == i,
        wrapped_step(Some(wrapped_step(Some(i), n, false)), n, true) == i,
        0 <= wrapped_step(Some(i), n, true) < n,
        0 <= wrapped_step(Some(i), n, false) < n,
{
}

/// What the keys of one frame do to the bar.
#[derive(Clone, Copy, PartialEq, Eq, Debug, Structural)]
pub enum BarStep {
    /// Nothing.
    Stay,
    /// The menu of that head closes, and the head takes the focus.
    Close(usize),
    /// The menu of that head opens, and its first item takes the focus.
    Open(usize),
}

/// What the keys of one frame do to a bar of `heads` heads, of which `open_at`
/// is open.
pub open spec fn bar_step(
    heads: nat,
    open_at: Option<usize>,
    f10: bool,
    left: bool,
    right: bool,
) -> BarStep {
    if heads == 0 {
        BarStep::Stay
    } else if f10 {
        match open_at {
            Some(i) => if i < heads {
                BarStep::Close(i)
            } else {
                BarStep::Stay
            },
            None => BarStep::Open(0),
        }
    } else {
        match open_at {
            None => BarStep::Stay,
            Some(at) => if left == right || at >= heads {
                BarStep::Stay
            } else {
                BarStep::Open(wrapped_step(Some(at as int), heads as int, right) as usize)
            },
        }
    }
}

/// F10 opens the bar and closes it again; the horizontal arrows walk from one
/// head to the next while a menu is open, wrapping at both ends.
pub fn step_menus(
    heads: usize,
    open_at: Option<usize>,
    f10: bool,
    left: bool,
    right: bool,
) -> (r: BarStep)
    ensures
        r == bar_step(heads as nat, open_at, f10, left, right),
{
    if heads == 0 {
        return BarStep::Stay;
    }
    if f10 {
        return match open_at {
            Some(i) => if i < heads {
                BarStep::Close(i)
            } else {
                BarStep::Stay
            },
            None => BarStep::Open(0),
        };
    }
    match open_at {
        None => BarStep::Stay,
        Some(at) => if left == right || at >= heads {
            BarStep::Stay
        } else if right {
            BarStep::Open(
                if at == heads - 1 {
                    0
                } else {
                    at + 1
                },
            )
        } else {
            BarStep::Open(
                if at == 0 {
                    heads - 1
                } else {
                    at - 1
                },
            )
        },
    }
}

/// What the keyboard left half-done between two frames.
#[derive(Clone, Copy, PartialEq, Eq, Debug, Structural)]
pub struct Nav {
    /// The menu that hands focus to its first item.
    pub focus_into: Option<u64>,
    /// The menu that the keyboard opened.
    pub by_key: Option<u64>,
}

impl Default for Nav {
    fn default() -> (r: Self)
        ensures
            r == (Nav { focus_into: None, by_key: None }),
    {
        Nav { focus_into: None, by_key: None }
    }
}

impl Nav {
    /// After a step of the keys: a menu that opens takes its focus with it, one
    /// that closes forgets it. `popup` is the menu of the head the step names.
    pub fn stepped(self, step: BarStep, popup: u64) -> (r: Nav)
        ensures
            r == (match step {
                BarStep::Stay => self,
                BarStep::Close(_) => Nav { focus_into: None, by_key: None },
                BarStep::Open(_) => Nav { focus_into: Some(popup), by_key: Some(popup) },
            }),
    {
        match step {
            BarStep::Stay => self,
            BarStep::Close(_) => Nav { focus_into: None, by_key: None },
            BarStep::Open(_) => Nav { focus_into: Some(popup), by_key: Some(popup) },
        }
    }

    /// After a press of a head: the keyboard takes the focus into the menu, the
    /// pointer leaves it where it was.
    pub fn pressed(self, popup: u64, clicked: bool, by_pointer: bool) -> (r: Nav)
        ensures
            r == (if !clicked {
                self
            } else if by_pointer {
                Nav { focus_into: self.focus_into, by_key: None }
            } else {
                Nav { focus_into: Some(popup), by_key: Some(popup) }
            }),
    {
        if !clicked {
            self
        } else if by_pointer {
            Nav { focus_into: self.focus_into, by_key: None }
        } else {
            Nav { focus_into: Some(popup), by_key: Some(popup) }
        }
    }

    /// After a menu was drawn, or found shut: what is left to do, and the widget
    /// that takes the focus, if any. One that shuts behind the keyboard gives
    /// its head the focus back; one that was to be entered hands it to its
    /// first item.
    pub fn drawn(self, popup: u64, head: u64, open: bool, ids: &[u64]) -> (r: (Nav, Option<u64>))
        ensures
            r == (if !open {
                if self.by_key == Some(popup) {
                    (Nav { focus_into: None, by_key: None }, Some(head))
                } else {
                    (self, None)
                }
            } else if self.focus_into == Some(popup) && ids@.len() > 0 {
                (Nav { focus_into: None, by_key: self.by_key }, Some(ids@[0]))
            } else {
                (self, None)
            }),
    {
        let ours: bool = match self.by_key {
            Some(p) => p == popup,
            None => false,
        };
        let enter: bool = match self.focus_into {
            Some(p) => p == popup,
            None => false,
        };
        if !open {
            if ours {
                (Nav { focus_into: None, by_key: None }, Some(head))
            } else {
                (self, None)
            }
        } else if enter && ids.len() > 0 {
            (Nav { focus_into: None, by_key: self.by_key }, Some(ids[0]))
        } else {
            (self, None)
        }
    }

    /// Whether the keyboard has walked out of the open menu it opened: the focus
    /// is neither on its head nor on one of its items.
    pub fn walked_out(self, popup: u64, head: u64, focused: Option<u64>, ids: &[u64]) -> (r: bool)
        ensures
            r == (self.by_key == Some(popup) && focused is Some && focused->0 != head
                && !ids@.contains(focused->0)),
    {
        let ours: bool = match self.by_key {
            Some(p) => p == popup,
            None => false,
        };
        match focused {
            Some(f) => ours && f != head && find_id(ids, f).is_none(),
            None => false,
        }
    }
}

impl Nav {
    /// Shuts the menu that the keyboard has walked out of: what is left to do,
    /// and whether the menu of that head is to be shut.
    pub fn left_behind(self, popup: u64, head: u64, focused: Option<u64>, ids: &[u64]) -> (r: (
        Nav,
        bool,
    ))
        ensures
            ({
                let out = self.by_key == Some(popup) && focused is Some && focused->0 != head
                    && !ids@.contains(focused->0);
                r == if out {
                    (Nav { focus_into: self.focus_into, by_key: None }, true)
                } else {
                    (self, false)
                }
            }),
    {
        if self.walked_out(popup, head, focused, ids) {
            (Nav { focus_into: self.focus_into, by_key: None }, true)
        } else {
            (self, false)
        }
    }
}

/// The bar never opens a head that it does not have.
pub proof fn law_the_bar_opens_its_own_heads(
    heads: nat,
    open_at: Option<usize>,
    f10: bool,
    left: bool,
    right: bool,
)
    requires
        heads <= usize::MAX,
    ensures
        match bar_step(heads, open_at, f10, left, right) {
            BarStep::Stay => true,
            BarStep::Close(i) => open_at == Some(i),
            BarStep::Open(i) => i < heads,
        },
{
}

/// With the bar shut, only F10 opens it.
pub proof fn law_a_shut_bar_leaves_the_arrows_alone(heads: nat, left: bool, right: bool)
    ensures
        bar_step(heads, None, false, left, right) == BarStep::Stay,
{
}

// ---------------------------------------------------------------------------
// How a head and an entry are drawn
// ---------------------------------------------------------------------------

/// How a head of the bar is drawn.
#[derive(Clone, Copy, PartialEq, Eq, Debug, Structural)]
pub struct HeadLook {
    /// Its menu is open, so that the rules widen to the whole compartment.
    pub open: bool,
    /// It is written in full ink, and its rules close on the word.
    pub bright: bool,
}

/// How a head is drawn. A click that is about to open or shut its menu counts
/// already.
pub fn head_look(is_open: bool, clicked: bool, hovered: bool, focused: bool) -> (r: HeadLook)
    ensures
        r.open == (is_open != clicked),
        r.bright == (r.open || hovered || focused),
{
    let open: bool = is_open != clicked;
    HeadLook { open, bright: open || hovered || focused }
}

/// The ground an entry is drawn on.
#[derive(Clone, Copy, PartialEq, Eq, Debug, Structural)]
pub enum Ground {
    /// The page itself.
    Plain,
    /// Raised under the pointer or the focus.
    Raised,
    /// The wash of the choice in force.
    Chosen,
}

/// The ink an entry is written in.
#[derive(Clone, Copy, PartialEq, Eq, Debug, Structural)]
pub enum Ink {
    /// It cannot be chosen.
    Disabled,
    /// It is at rest.
    Muted,
    /// It is reached or in force.
    Full,
}

/// The diamond in an entry's margin.
#[derive(Clone, Copy, PartialEq, Eq, Debug, Structural)]
pub enum Mark {
    /// None.
    Absent,
    /// Gold: the choice in force.
    Gold,
    /// Faded: a verb that is refused.
    Null,
}

/// How an entry of a page is drawn.
#[derive(Clone, Copy, PartialEq, Eq, Debug, Structural)]
pub struct ItemLook {
    /// Its ground.
    pub ground: Ground,
    /// Its ink.
    pub ink: Ink,
    /// The diamond in its margin.
    pub mark: Mark,
    /// Whether the gutter rule swells behind it.
    pub swell: bool,
    /// Whether the rule under it is gold.
    pub gold_rule: bool,
}

/// How an entry is drawn.
pub open spec fn look_of(marked: bool, enabled: bool, hovered: bool, focused: bool) -> ItemLook {
    let reached = enabled && (hovered || focused);
    ItemLook {
        ground: if marked {
            Ground::Chosen
        } else if reached {
            Ground::Raised
        } else {
            Ground::Plain
        },
        ink: if !enabled {
            Ink::Disabled
        } else if reached || marked {
            Ink::Full
        } else {
            Ink::Muted
        },
        mark: if !enabled {
            Mark::Null
        } else if marked {
            Mark::Gold
        } else {
            Mark::Absent
        },
        swell: marked,
        gold_rule: reached,
    }
}

/// How an entry is drawn. An entry that cannot be chosen is never shown as
/// reached.
pub fn item_look(item: &Item, enabled: bool, hovered: bool, focused: bool) -> (r: ItemLook)
    ensures
        r == look_of(item.choice == Some(true), enabled, hovered, focused),
{
    let marked: bool = item.marked();
    let reached: bool = enabled && (hovered || focused);
    ItemLook {
        ground: if marked {
            Ground::Chosen
        } else if reached {
            Ground::Raised
        } else {
            Ground::Plain
        },
        ink: if !enabled {
            Ink::Disabled
        } else if reached || marked {
            Ink::Full
        } else {
            Ink::Muted
        },
        mark: if !enabled {
            Mark::Null
        } else if marked {
            Mark::Gold
        } else {
            Mark::Absent
        },
        swell: marked,
        gold_rule: reached,
    }
}

// ---------------------------------------------------------------------------
// The width of a page
// ---------------------------------------------------------------------------

/// The measured widths of one line of a page.
#[derive(Clone, Copy, Debug)]
pub enum LineWidth {
    /// A title, and the folio at the end of its rule.
    Title(i32, Option<i32>),
    /// The head of a section, and its value.
    Head(i32, Option<i32>),
    /// An entry, and its chord.
    Item(i32, Option<i32>),
    /// A note, which wraps.
    Note,
}

/// The room that the second part of a line takes, with the space before it.
pub open spec fn second_part(w: Option<i32>, space: int) -> int {
    match w {
        Some(x) => x + space,
        None => 0,
    }
}

/// The width that one line asks for.
pub open spec fn asked_width(l: LineWidth, gutter: int, space: int) -> int {
    match l {
        LineWidth::Title(w, folio) => gutter + w + second_part(folio, space),
        LineWidth::Head(w, value) => w + second_part(value, space),
        LineWidth::Item(w, chord) => gutter + w + second_part(chord, space),
        LineWidth::Note => 0,
    }
}

/// The widest of the lines, and never less than `least`.
pub open spec fn widest_line(ls: Seq<LineWidth>, gutter: int, space: int, least: int) -> int
    decreases ls.len(),
{
    if ls.len() == 0 {
        least
    } else {
        let w = widest_line(ls.drop_last(), gutter, space, least);
        let l = asked_width(ls.last(), gutter, space);
        if l > w {
            l
        } else {
            w
        }
    }
}

fn line_width(l: &LineWidth, gutter: i32, space: i32) -> (r: i64)
    ensures
        r == asked_width(*l, gutter as int, space as int),
        -0x4_0000_0000 <= r <= 0x4_0000_0000,
{
    let (w, rest, inset): (i64, Option<i32>, i64) = match l {
        LineWidth::Title(w, folio) => (*w as i64, *folio, gutter as i64),
        LineWidth::Head(w, value) => (*w as i64, *value, 0),
        LineWidth::Item(w, chord) => (*w as i64, *chord, gutter as i64),
        LineWidth::Note => {
            return 0;
        },
    };
    let tail: i64 = match rest {
        Some(x) => x as i64 + space as i64,
        None => 0,
    };
    inset + w + tail
}

/// How wide a page has to be to hold its longest line, and never narrower than
/// a page's measure; `margin` is what its edges take.
pub fn content_width(
    ls: &[LineWidth],
    gutter: i32,
    space: i32,
    least: i32,
    margin: i32,
) -> (r: i64)
    ensures
        r == widest_line(ls@, gutter as int, space as int, least as int) + margin,
{
    let mut widest: i64 = least as i64;
    let mut i: usize = 0;
    while i < ls.len()
        invariant
            i <= ls@.len(),
            widest == widest_line(ls@.take(i as int), gutter as int, space as int, least as int),
            -0x4_0000_0000 <= widest <= 0x4_0000_0000,
        decreases ls@.len() - i,
    {
        let w: i64 = line_width(&ls[i], gutter, space);
        if w > widest {
            widest = w;
        }
        proof {
            assert(ls@.take(i + 1).drop_last() =~= ls@.take(i as int));
        }
        i = i + 1;
    }
    proof {
        assert(ls@.take(i as int) =~= ls@);
    }
    widest + margin as i64
}

/// No line is wider than the page.
pub proof fn law_every_line_fits_its_page(
    ls: Seq<LineWidth>,
    gutter: int,
    space: int,
    least: int,
    i: int,
)
    requires
        0 <= i < ls.len(),
    ensures
        asked_width(ls[i], gutter, space) <= widest_line(ls, gutter, space, least),
        least <= widest_line(ls, gutter, space, least),
    decreases ls.len(),
{
    if ls.len() > 1 {
        let init = ls.drop_last();
        if i < init.len() {
            assert(init[i] == ls[i]);
            law_every_line_fits_its_page(init, gutter, space, least, i);
        } else {
            law_every_line_fits_its_page(init, gutter, space, least, 0);
        }
    } else {
        reveal_with_fuel(widest_line, 2);
    }
}

// ---------------------------------------------------------------------------
// The gutter
// ---------------------------------------------------------------------------

/// One stretch of the rule beside the entries of a page.
#[derive(Clone, Copy, PartialEq, Eq, Debug, Structural)]
pub struct Rule {
    /// Where the rule stands.
    pub x: i32,
    /// Where it begins.
    pub top: i32,
    /// Where it ends.
    pub bottom: i32,
}

/// The rule beside the entries, gathered as a page is laid out: one stretch for
/// each block of entries.
#[derive(Clone, Debug)]
pub struct Gutter {
    /// The stretch in hand.
    pub open: Option<Rule>,
    /// The stretches that are finished.
    pub runs: Vec<Rule>,
}

/// The stretch in hand after one more entry.
pub open spec fn extended(open: Option<Rule>, entry: Rule) -> Rule {
    match open {
        Some(r) => Rule {
            x: r.x,
            top: if entry.top < r.top {
                entry.top
            } else {
                r.top
            },
            bottom: if entry.bottom > r.bottom {
                entry.bottom
            } else {
                r.bottom
            },
        },
        None => entry,
    }
}

impl Default for Gutter {
    fn default() -> (r: Self)
        ensures
            r.open is None,
            r.runs@ == Seq::<Rule>::empty(),
    {
        Gutter { open: None, runs: Vec::new() }
    }
}

impl Gutter {
    /// Extends the stretch in hand over one more entry.
    pub fn entry(&mut self, entry: Rule)
        ensures
            final(self).open == Some(extended(old(self).open, entry)),
            final(self).runs@ == old(self).runs@,
    {
        self.open = Some(
            match self.open {
                Some(r) => Rule {
                    x: r.x,
                    top: if entry.top < r.top {
                        entry.top
                    } else {
                        r.top
                    },
                    bottom: if entry.bottom > r.bottom {
                        entry.bottom
                    } else {
                        r.bottom
                    },
                },
                None => entry,
            },
        );
    }

    /// Closes the stretch in hand.
    pub fn brk(&mut self)
        ensures
            final(self).open is None,
            final(self).runs@ == (match old(self).open {
                Some(r) => old(self).runs@.push(r),
                None => old(self).runs@,
            }),
    {
        match self.open {
            Some(r) => {
                self.runs.push(r);
            },
            None => {},
        }
        self.open = None;
    }

    /// Every stretch of the page.
    pub fn finish(self) -> (r: Vec<Rule>)
        ensures
            r@ == (match self.open {
                Some(last) => self.runs@.push(last),
                None => self.runs@,
            }),
    {
        let mut g: Gutter = self;
        g.brk();
        g.runs
    }
}

// ---------------------------------------------------------------------------
// Measures of the bar
// ---------------------------------------------------------------------------

/// The radius of the diamond that marks a head: about a quarter of a caption.
pub open spec fn mark_of_scale(scale: int) -> int {
    theme::sized_of(STEP_CAPTION as int, scale) * 26 / 100
}

/// The radius of the diamond that marks a head.
pub fn mark_r(scale: i32) -> (r: i32)
    requires
        SCALE_MIN <= scale <= SCALE_MAX,
    ensures
        r == mark_of_scale(scale as int),
        0 <= r <= 100_000,
{
    sized(STEP_CAPTION, scale) * 26 / 100
}

/// The width of a head around a word of that width: with as much air on each
/// side as its type is high, and with room for its mark where it has one.
pub fn head_width(text_w: i32, marked: bool, scale: i32) -> (r: i64)
    requires
        SCALE_MIN <= scale <= SCALE_MAX,
    ensures
        r == text_w + 2 * theme::sized_of(STEP_META as int, scale as int) + (if marked {
            SPACE_S + 2 * mark_of_scale(scale as int)
        } else {
            0
        }),
{
    let mark: i64 = if marked {
        SPACE_S as i64 + 2 * mark_r(scale) as i64
    } else {
        0
    };
    text_w as i64 + 2 * sized(STEP_META, scale) as i64 + mark
}

/// The height of the strip of heads: its type with a large space above and below.
pub open spec fn strip_of(scale: int) -> int {
    theme::sized_of(STEP_META as int, scale) + 2 * SPACE_L
}

/// The height of the strip of heads.
pub fn strip_h(scale: i32) -> (r: i32)
    requires
        SCALE_MIN <= scale <= SCALE_MAX,
    ensures
        r == strip_of(scale as int),
{
    sized(STEP_META, scale) + 2 * SPACE_L
}

/// The height that the heads are drawn at in that much room; `None` where there
/// is no room at all.
pub fn head_height(avail: i32, scale: i32) -> (r: Option<i32>)
    requires
        SCALE_MIN <= scale <= SCALE_MAX,
    ensures
        match r {
            Some(h) => avail > 0 && h == geometry::lesser(strip_of(scale as int), avail as int),
            None => avail <= 0,
        },
{
    if avail <= 0 {
        return None;
    }
    let h: i32 = strip_h(scale);
    if h < avail {
        Some(h)
    } else {
        Some(avail)
    }
}

// ---------------------------------------------------------------------------
// The ruling of a head
// ---------------------------------------------------------------------------

/// The two rules of a head.
#[derive(Clone, Copy, PartialEq, Eq, Debug, Structural)]
pub struct Rules {
    /// The one over the word.
    pub cap: i64,
    /// The one under the word.
    pub foot: i64,
}

/// The two rules of a head, over and under its word: none where the strip is too
/// low to carry both of them clear of its edges.
pub fn compartment_rules(strip: Frame, word: Frame) -> (r: Option<Rules>)
    requires
        strip.near(),
        -4 * FAR <= word.top <= 4 * FAR,
        -4 * FAR <= word.bottom <= 4 * FAR,
    ensures
        ({
            let cap = theme::pixel(word.top - SPACE_S);
            let foot = theme::pixel(word.bottom + SPACE_S);
            match r {
                Some(rules) => {
                    &&& rules.cap == cap && rules.foot == foot
                    &&& strip.top < cap < foot < strip.bottom
                },
                None => !(strip.top < cap && cap < foot && foot < strip.bottom),
            }
        }),
{
    let cap: i64 = snap(word.top - SPACE_S as i64);
    let foot: i64 = snap(word.bottom + SPACE_S as i64);
    if strip.top < cap && cap < foot && foot < strip.bottom {
        Some(Rules { cap, foot })
    } else {
        None
    }
}

/// The two stubs of a division between heads, above and below its diamond.
#[derive(Clone, Copy, PartialEq, Eq, Debug, Structural)]
pub struct Stubs {
    /// Where the upper one starts.
    pub top: i64,
    /// Where the upper one ends.
    pub above: i64,
    /// Where the lower one starts.
    pub below: i64,
    /// Where the lower one ends.
    pub foot: i64,
}

/// The two stubs of a division that runs from `top` to `foot`, around a diamond
/// of that radius: none where either would be shorter than a small space.
pub fn separator_stubs(top: i64, foot: i64, r: i64) -> (out: Option<Stubs>)
    requires
        -FAR <= top <= FAR,
        -FAR <= foot <= FAR,
        0 <= r <= FAR,
    ensures
        ({
            let mid = geometry::middle(top as int, foot as int);
            let above = mid - r - SPACE_S;
            let below = mid + r + SPACE_S;
            match out {
                Some(s) => {
                    &&& s.top == top + SPACE_S && s.above == above
                    &&& s.below == below && s.foot == foot - SPACE_S
                    &&& s.above - s.top >= SPACE_S && s.foot - s.below >= SPACE_S
                },
                None => above - (top + SPACE_S) < SPACE_S || (foot - SPACE_S) - below < SPACE_S,
            }
        }),
{
    let mid: i64 = mid_of(top, foot);
    let s: i64 = SPACE_S as i64;
    let stubs: Stubs = Stubs { top: top + s, above: mid - r - s, below: mid + r + s, foot: foot - s };
    if stubs.above - stubs.top >= s && stubs.foot - stubs.below >= s {
        Some(stubs)
    } else {
        None
    }
}

/// The doorway that an open head cuts through the band at the foot of the bar:
/// from the foot of the head down to the foot of the band. There is none where
/// the band does not lie under the head.
pub open spec fn doorway(strip: Frame, bar: Frame) -> Option<Frame> {
    let band = Frame {
        left: (bar.left + SPACE_XXL) as i64,
        top: (bar.bottom - SPACE_M - SPACE_XS) as i64,
        right: (bar.right - SPACE_XXL) as i64,
        bottom: (bar.bottom - SPACE_XS) as i64,
    };
    if band.positive() && band.top <= strip.bottom && band.bottom > strip.bottom {
        Some(
            Frame {
                left: strip.left,
                top: strip.bottom,
                right: strip.right,
                bottom: band.bottom,
            },
        )
    } else {
        None
    }
}

/// The doorway that an open head cuts through the band at the foot of the bar.
pub fn open_notch(strip: Frame, bar: Frame) -> (r: Option<Frame>)
    requires
        strip.near(),
        bar.near(),
    ensures
        r == doorway(strip, bar),
{
    let band: Frame = band_rect(bar);
    if band.is_positive() && band.top <= strip.bottom && band.bottom > strip.bottom {
        Some(
            Frame {
                left: strip.left,
                top: strip.bottom,
                right: strip.right,
                bottom: band.bottom,
            },
        )
    } else {
        None
    }
}

/// Heads that fit side by side, with their gaps, are all ruled, in their order.
pub proof fn law_heads_that_fit_are_all_shown(
    widths: Seq<(Menu, i32)>,
    gap: Option<i32>,
    more_w: Option<i32>,
    avail: i32,
    pinned: Option<Menu>,
)
    requires
        widths.len() > 0,
        avail > 0,
        width_sum(widths) + gap_of(gap) * (widths.len() - 1) <= avail,
    ensures
        ({
            let p = planned(widths, gap, more_w, Some(avail), pinned);
            &&& p.folded.len() == 0
            &&& p.shown.len() == widths.len()
            &&& forall|i: int| 0 <= i < widths.len() ==> p.shown[i] == (#[trigger] widths[i]).0
        }),
{
}

/// Where the heads do not fit, some fold; where not even the head over the folded
/// ones fits, nothing is ruled.
pub proof fn law_heads_fold_where_they_do_not_fit(
    widths: Seq<(Menu, i32)>,
    gap: Option<i32>,
    more: i32,
    avail: i32,
    pinned: Option<Menu>,
)
    requires
        widths.len() > 0,
        width_sum(widths) + gap_of(gap) * (widths.len() - 1) > avail,
    ensures
        avail <= 0 || avail < more ==> planned(widths, gap, Some(more), Some(avail), pinned)
            == nothing(),
        planned(widths, gap, None, Some(avail), pinned) == nothing(),
        planned(widths, gap, Some(more), None, pinned) == nothing(),
{
}

/// The heads together are as wide as each of them, and one that is no width
/// counts for none.
pub proof fn law_head_widths_are_summed(widths: Seq<(Menu, i32)>, m: Menu, w: i32)
    ensures
        width_sum(widths.push((m, w))) == width_sum(widths) + (if w < 0 {
            0
        } else {
            w as int
        }),
        width_sum(Seq::empty()) == 0,
{
    assert(widths.push((m, w)).drop_last() =~= widths);
}

/// Folding takes no more than it must: a head is kept where it and those before
/// it in the order fit, and the next one is folded only where it does not.
pub proof fn law_folding_takes_no_more_than_it_must(
    order: Seq<Menu>,
    widths: Seq<(Menu, i32)>,
    gap: int,
    budget: int,
)
    requires
        order.len() > 0,
        width_of(widths, order[0]) is Some,
    ensures
        ({
            let w = width_of(widths, order[0])->0;
            &&& w + gap <= budget ==> kept(order, widths, gap, budget) == seq![order[0]] + kept(
                order.drop_first(),
                widths,
                gap,
                budget - w - gap,
            )
            &&& w + gap > budget ==> kept(order, widths, gap, budget).len() == 0
        }),
{
}

/// Heads are kept in reading order, but for a marked one, which comes first.
pub proof fn law_a_marked_head_is_kept_first(pinned: Option<Menu>, order: Vec<Menu>)
    requires
        call_ensures(keep_order, (pinned,), order),
    ensures
        pinned is None ==> order@ == seq![Menu::Session, Menu::Tools, Menu::Display, Menu::Help],
        pinned == Some(Menu::Session) ==> order@ == seq![
            Menu::Session,
            Menu::Tools,
            Menu::Display,
            Menu::Help,
        ],
        pinned == Some(Menu::Tools) ==> order@ == seq![
            Menu::Tools,
            Menu::Session,
            Menu::Display,
            Menu::Help,
        ],
        pinned == Some(Menu::Display) ==> order@ == seq![
            Menu::Display,
            Menu::Session,
            Menu::Tools,
            Menu::Help,
        ],
        pinned == Some(Menu::Help) ==> order@ == seq![
            Menu::Help,
            Menu::Session,
            Menu::Tools,
            Menu::Display,
        ],
{
    match pinned {
        Some(p) => lemma_others_in_order(p),
        None => {},
    }
}

proof fn lemma_others_in_order(p: Menu)
    ensures
        ({
            let rest = Menu::reading_order().filter(|m: Menu| m != p);
            &&& p == Menu::Session ==> rest == seq![Menu::Tools, Menu::Display, Menu::Help]
            &&& p == Menu::Tools ==> rest == seq![Menu::Session, Menu::Display, Menu::Help]
            &&& p == Menu::Display ==> rest == seq![Menu::Session, Menu::Tools, Menu::Help]
            &&& p == Menu::Help ==> rest == seq![Menu::Session, Menu::Tools, Menu::Display]
        }),
{
    reveal(Seq::filter);
    let f = |m: Menu| m != p;
    let s0 = Seq::<Menu>::empty();
    let s1 = s0.push(Menu::Session);
    let s2 = s1.push(Menu::Tools);
    let s3 = s2.push(Menu::Display);
    let s4 = s3.push(Menu::Help);
    assert(Menu::reading_order() =~= s4);
    assert(s4.drop_last() =~= s3 && s3.drop_last() =~= s2 && s2.drop_last() =~= s1 && s1.drop_last()
        =~= s0);
    assert(s0.filter(f) =~= s0);
    assert(s1.filter(f) == if f(Menu::Session) {
        s0.filter(f).push(Menu::Session)
    } else {
        s0.filter(f)
    });
    assert(s2.filter(f) == if f(Menu::Tools) {
        s1.filter(f).push(Menu::Tools)
    } else {
        s1.filter(f)
    });
    assert(s3.filter(f) == if f(Menu::Display) {
        s2.filter(f).push(Menu::Display)
    } else {
        s2.filter(f)
    });
    assert(s4.filter(f) == if f(Menu::Help) {
        s3.filter(f).push(Menu::Help)
    } else {
        s3.filter(f)
    });
}

/// Focus goes to the next of its widgets and wraps behind the last, or to the one
/// before and wraps before the first; from nowhere it enters at that end.
pub proof fn law_focus_goes_to_the_next_and_wraps(n: int, i: int)
    requires
        0 <= i < n,
    ensures
        i + 1 < n ==> wrapped_step(Some(i), n, true) == i + 1,
        i + 1 == n ==> wrapped_step(Some(i), n, true) == 0,
        i > 0 ==> wrapped_step(Some(i), n, false) == i - 1,
        i == 0 ==> wrapped_step(Some(i), n, false) == n - 1,
        wrapped_step(None, n, true) == 0,
        wrapped_step(None, n, false) == n - 1,
{
}

/// Keys move focus among the items: to either end, one on or one back.
pub proof fn law_keys_move_focus_among_the_items(
    ids: &[u64],
    focused: Option<u64>,
    down: bool,
    up: bool,
    home: bool,
    end: bool,
    r: Option<u64>,
    i: int,
)
    requires
        call_ensures(step_items, (ids, focused, down, up, home, end), r),
        0 <= i < ids@.len(),
        ids@.no_duplicates(),
        focused == Some(ids@[i]),
    ensures
        home ==> r == Some(ids@[0]),
        !home && end ==> r == Some(ids@[ids@.len() - 1]),
        !home && !end && down ==> r == Some(
            ids@[if i + 1 < ids@.len() {
                i + 1
            } else {
                0
            }],
        ),
        !home && !end && !down && up ==> r == Some(
            ids@[if i > 0 {
                i - 1
            } else {
                ids@.len() - 1
            }],
        ),
        !home && !end && !down && !up ==> r is None,
{
    ids@.index_of_first_ensures(ids@[i]);
}

/// F10 opens the first head of a shut bar and shuts an open one; an arrow opens
/// the head beside the open one, round the ends; both arrows at once do nothing.
pub proof fn law_keys_walk_the_bar(heads: usize, at: usize, r: BarStep, l: BarStep, f: BarStep)
    requires
        at < heads,
        call_ensures(step_menus, (heads, Some(at), false, false, true), r),
        call_ensures(step_menus, (heads, Some(at), false, true, false), l),
        call_ensures(step_menus, (heads, Some(at), true, false, false), f),
    ensures
        r == BarStep::Open(
            if at + 1 < heads {
                (at + 1) as usize
            } else {
                0
            },
        ),
        l == BarStep::Open(
            if at > 0 {
                (at - 1) as usize
            } else {
                (heads - 1) as usize
            },
        ),
        f == BarStep::Close(at),
        bar_step(heads as nat, None, true, false, false) == BarStep::Open(0),
        bar_step(heads as nat, Some(at), false, true, true) == BarStep::Stay,
        bar_step(heads as nat, Some(at), false, false, false) == BarStep::Stay,
{
}

/// A page that a key opened takes the focus once it is drawn, and hands it back
/// to its head when it is shut; one that the pointer opened does neither.
pub proof fn law_focus_follows_a_page_opened_by_key(
    popup: u64,
    head: u64,
    ids: &[u64],
    by_key: Nav,
    open: (Nav, Option<u64>),
    shut: (Nav, Option<u64>),
    by_pointer: Nav,
    clicked_shut: (Nav, Option<u64>),
)
    requires
        ids@.len() > 0,
        call_ensures(Nav::stepped, (Nav { focus_into: None, by_key: None }, BarStep::Open(0), popup), by_key),
        call_ensures(Nav::drawn, (by_key, popup, head, true, ids), open),
        call_ensures(Nav::drawn, (open.0, popup, head, false, ids), shut),
        call_ensures(Nav::pressed, (Nav { focus_into: None, by_key: None }, popup, true, true), by_pointer),
        call_ensures(Nav::drawn, (by_pointer, popup, head, false, ids), clicked_shut),
    ensures
        open.1 == Some(ids@[0]),
        shut.1 == Some(head),
        shut.0 == (Nav { focus_into: None, by_key: None }),
        clicked_shut.1 is None,
{
}

/// A page that a key opened is left where the focus goes to neither its head nor
/// one of its items.
pub proof fn law_a_page_is_left_when_focus_leaves_it(
    nav: Nav,
    popup: u64,
    head: u64,
    focused: Option<u64>,
    ids: &[u64],
    r: bool,
)
    requires
        call_ensures(Nav::walked_out, (nav, popup, head, focused, ids), r),
    ensures
        r ==> nav.by_key == Some(popup) && focused is Some,
        focused is None ==> !r,
        focused == Some(head) ==> !r,
        focused is Some && ids@.contains(focused->0) ==> !r,
        nav.by_key == Some(popup) && focused is Some && focused->0 != head && !ids@.contains(
            focused->0,
        ) ==> r,
{
}

/// An item looks like what it is: the choice in force is on its own ground and
/// marked, what is reached is raised, and what cannot run is dimmed and struck.
pub proof fn law_an_item_looks_like_what_it_is(
    marked: bool,
    enabled: bool,
    hovered: bool,
    focused: bool,
)
    ensures
        ({
            let l = look_of(marked, enabled, hovered, focused);
            let reached = enabled && (hovered || focused);
            &&& l.ground == Ground::Chosen <==> marked
            &&& l.ground == Ground::Raised <==> !marked && reached
            &&& l.ink == Ink::Disabled <==> !enabled
            &&& l.ink == Ink::Full <==> enabled && (reached || marked)
            &&& l.mark == Mark::Null <==> !enabled
            &&& l.mark == Mark::Gold <==> enabled && marked
            &&& l.swell <==> marked
            &&& l.gold_rule <==> reached
        }),
{
}

/// A page is as wide as its widest line, and no wider than that or its least.
pub proof fn law_a_page_is_as_wide_as_its_widest_line(
    ls: Seq<LineWidth>,
    gutter: int,
    space: int,
    least: int,
)
    ensures
        widest_line(ls, gutter, space, least) == least || exists|i: int|
            0 <= i < ls.len() && asked_width(#[trigger] ls[i], gutter, space) == widest_line(
                ls,
                gutter,
                space,
                least,
            ),
    decreases ls.len(),
{
    if ls.len() > 0 {
        law_a_page_is_as_wide_as_its_widest_line(ls.drop_last(), gutter, space, least);
        let w = widest_line(ls.drop_last(), gutter, space, least);
        if asked_width(ls.last(), gutter, space) > w {
            assert(asked_width(ls[ls.len() - 1], gutter, space) == widest_line(
                ls,
                gutter,
                space,
                least,
            ));
        } else if w != least {
            let i = choose|i: int|
                0 <= i < ls.drop_last().len() && asked_width(
                    #[trigger] ls.drop_last()[i],
                    gutter,
                    space,
                ) == w;
            assert(asked_width(ls[i], gutter, space) == w);
        }
    }
}

/// A line asks for its text, for the gutter where it stands behind one, and for
/// its second part with a space in front; a note asks for nothing.
pub proof fn law_a_line_asks_for_its_parts(w: i32, second: i32, gutter: int, space: int)
    ensures
        asked_width(LineWidth::Item(w, None), gutter, space) == gutter + w,
        asked_width(LineWidth::Item(w, Some(second)), gutter, space) == gutter + w + space + second,
        asked_width(LineWidth::Title(w, None), gutter, space) == gutter + w,
        asked_width(LineWidth::Title(w, Some(second)), gutter, space) == gutter + w + space
            + second,
        asked_width(LineWidth::Head(w, None), gutter, space) == w,
        asked_width(LineWidth::Head(w, Some(second)), gutter, space) == w + space + second,
        asked_width(LineWidth::Note, gutter, space) == 0,
{
}

/// A rule beside a run of entries reaches from the top of the highest to the
/// bottom of the lowest.
pub proof fn law_a_gutter_rule_spans_its_entries(open: Rule, entry: Rule)
    ensures
        ({
            let r = extended(Some(open), entry);
            &&& r.top <= open.top && r.top <= entry.top && (r.top == open.top || r.top == entry.top)
            &&& r.bottom >= open.bottom && r.bottom >= entry.bottom
            &&& r.bottom == open.bottom || r.bottom == entry.bottom
            &&& extended(None, entry) == entry
        }),
{
}

/// The bar has the width that is left beside what is taken at its end, the more
/// of the two claims on it.
pub proof fn law_the_bar_leaves_what_is_taken(
    available: i32,
    reserve: i32,
    buttons: i32,
    r: i32,
)
    requires
        call_ensures(bar_room, (available, reserve, buttons), r),
        0 <= reserve,
        0 <= buttons,
    ensures
        r >= 0,
        r <= available - reserve || r == 0,
        r <= available - buttons || r == 0,
        available >= reserve && available >= buttons ==> r == available - reserve || r == available
            - buttons,
{
}

/// The width of a head is that of its first entry in the list, and none where it
/// has no entry.
pub proof fn law_a_head_has_its_own_width(widths: Seq<(Menu, i32)>, i: int, menu: Menu)
    ensures
        0 <= i < widths.len() && widths[i].0 == menu && (forall|j: int|
            0 <= j < i ==> (#[trigger] widths[j]).0 != menu) ==> width_of(widths, menu) == Some(
            if widths[i].1 < 0 {
                0int
            } else {
                widths[i].1 as int
            },
        ),
        (forall|j: int| 0 <= j < widths.len() ==> (#[trigger] widths[j]).0 != menu) ==> width_of(
            widths,
            menu,
        ) is None,
    decreases widths.len(),
{
    if widths.len() > 0 {
        let rest = widths.drop_first();
        assert(forall|j: int| 0 <= j < rest.len() ==> #[trigger] rest[j] == widths[j + 1]);
        law_a_head_has_its_own_width(rest, i - 1, menu);
        if forall|j: int| 0 <= j < widths.len() ==> (#[trigger] widths[j]).0 != menu {
            assert(widths[0].0 != menu);
            assert forall|j: int| 0 <= j < rest.len() implies (#[trigger] rest[j]).0 != menu by {
                assert(widths[j + 1].0 != menu);
            }
        }
        if 0 < i < widths.len() && widths[i].0 == menu && (forall|j: int|
            0 <= j < i ==> (#[trigger] widths[j]).0 != menu) {
            assert(widths[0].0 != menu);
            assert(rest[i - 1] == widths[i]);
            assert forall|j: int| 0 <= j < i - 1 implies (#[trigger] rest[j]).0 != menu by {
                assert(widths[j + 1].0 != menu);
            }
        }
    }
}

/// A mark is 26 hundredths of the caption's type across half of it, and the strip
/// clears its type by twelve points on either side.
pub proof fn law_the_strip_clears_its_type(scale: i32, r: i32, h: i32)
    requires
        call_ensures(mark_r, (scale,), r),
        call_ensures(strip_h, (scale,), h),
        SCALE_MIN <= scale <= SCALE_MAX,
    ensures
        100 * r <= 26 * theme::sized_of(1_050, scale as int) < 100 * (r + 1),
        h == theme::sized_of(1_150, scale as int) + 2_400,
{
}

/// An open head is joined to the band under the bar where the band lies across its
/// foot: from that foot down to the band's own, as wide as the head.
pub proof fn law_the_doorway_joins_head_and_band(strip: Frame, bar: Frame, r: Option<Frame>)
    requires
        call_ensures(open_notch, (strip, bar), r),
        strip.near(),
        bar.near(),
    ensures
        r is Some <==> {
            &&& bar.left + 2_400 < bar.right - 2_400
            &&& bar.bottom - 1_000 <= strip.bottom < bar.bottom - 200
        },
        r is Some ==> {
            let d = r->0;
            &&& d.left == strip.left && d.right == strip.right
            &&& d.top == strip.bottom && d.bottom == bar.bottom - 200
        },
{
}

/// Where heads fold, those that are shown fit, each with its gap, beside the head
/// over the folded ones.
pub proof fn law_shown_heads_leave_room_for_the_rest(
    widths: Seq<(Menu, i32)>,
    gap: Option<i32>,
    more: i32,
    avail: i32,
    pinned: Option<Menu>,
    heads: Seq<Menu>,
)
    requires
        width_sum(widths) + gap_of(gap) * (widths.len() - 1) > avail,
        more <= avail,
        heads.no_duplicates(),
        forall|i: int|
            0 <= i < heads.len() ==> planned(
                widths,
                gap,
                Some(more),
                Some(avail),
                pinned,
            ).shown.contains(#[trigger] heads[i]),
        heads.len() > 0,
    ensures
        cost(heads, widths, gap_of(gap)) + more <= avail,
{
    let g = gap_of(gap);
    let p = planned(widths, gap, Some(more), Some(avail), pinned);
    assert(p.shown.contains(heads[0]));
    let keep = kept(keeping_order(pinned), widths, g, avail - more);
    let yes = |m: Menu| keep.contains(m);
    broadcast use Seq::lemma_filter_contains_rev;

    assert forall|i: int| 0 <= i < heads.len() implies keep.contains(#[trigger] heads[i]) by {
        assert(p.shown.contains(heads[i]));
        menus_of(widths).lemma_filter_pred(yes, p.shown.index_of(heads[i]));
    }
    lemma_kept_heads_have_widths(keeping_order(pinned), widths, g, avail - more);
    lemma_part_costs_no_more(heads, keep, widths, g);
    law_kept_heads_fit(keeping_order(pinned), widths, g, avail - more);
}

proof fn lemma_widths_are_not_negative(widths: Seq<(Menu, i32)>, m: Menu)
    ensures
        width_of(widths, m) is Some ==> width_of(widths, m)->0 >= 0,
    decreases widths.len(),
{
    if widths.len() > 0 {
        lemma_widths_are_not_negative(widths.drop_first(), m);
    }
}

proof fn lemma_kept_heads_have_widths(
    order: Seq<Menu>,
    widths: Seq<(Menu, i32)>,
    gap: int,
    budget: int,
)
    ensures
        forall|i: int|
            0 <= i < kept(order, widths, gap, budget).len() ==> width_of(
                widths,
                #[trigger] kept(order, widths, gap, budget)[i],
            ) is Some,
    decreases order.len(),
{
    if order.len() > 0 {
        let all = kept(order, widths, gap, budget);
        match width_of(widths, order[0]) {
            None => lemma_kept_heads_have_widths(order.drop_first(), widths, gap, budget),
            Some(w) => {
                lemma_kept_heads_have_widths(order.drop_first(), widths, gap, budget - w - gap);
                let rest = kept(order.drop_first(), widths, gap, budget - w - gap);
                assert forall|i: int| 0 <= i < all.len() implies width_of(
                    widths,
                    #[trigger] all[i],
                ) is Some by {
                    if i > 0 {
                        assert(all[i] == rest[i - 1]);
                    }
                }
            },
        }
    }
}

proof fn lemma_cost_without(heads: Seq<Menu>, i: int, widths: Seq<(Menu, i32)>, gap: int)
    requires
        0 <= i < heads.len(),
    ensures
        cost(heads, widths, gap) == width_of(widths, heads[i])->0 + gap + cost(
            heads.remove(i),
            widths,
            gap,
        ),
    decreases heads.len(),
{
    if i == 0 {
        assert(heads.remove(0) =~= heads.drop_first());
    } else {
        lemma_cost_without(heads.drop_first(), i - 1, widths, gap);
        assert(heads.remove(i).drop_first() =~= heads.drop_first().remove(i - 1));
        assert(heads.remove(i)[0] == heads[0]);
    }
}

proof fn lemma_cost_is_not_negative(heads: Seq<Menu>, widths: Seq<(Menu, i32)>, gap: int)
    requires
        gap >= 0,
        forall|i: int| 0 <= i < heads.len() ==> width_of(widths, #[trigger] heads[i]) is Some,
    ensures
        cost(heads, widths, gap) >= 0,
    decreases heads.len(),
{
    if heads.len() > 0 {
        let rest = heads.drop_first();
        assert forall|i: int| 0 <= i < rest.len() implies width_of(widths, #[trigger] rest[i]) is
            Some by {
            assert(rest[i] == heads[i + 1]);
        }
        lemma_widths_are_not_negative(widths, heads[0]);
        lemma_cost_is_not_negative(rest, widths, gap);
    }
}

proof fn lemma_part_costs_no_more(
    part: Seq<Menu>,
    whole: Seq<Menu>,
    widths: Seq<(Menu, i32)>,
    gap: int,
)
    requires
        gap >= 0,
        part.no_duplicates(),
        forall|i: int| 0 <= i < part.len() ==> whole.contains(#[trigger] part[i]),
        forall|i: int| 0 <= i < whole.len() ==> width_of(widths, #[trigger] whole[i]) is Some,
    ensures
        cost(part, widths, gap) <= cost(whole, widths, gap),
    decreases part.len(),
{
    if part.len() == 0 {
        lemma_cost_is_not_negative(whole, widths, gap);
    } else {
        assert(whole.contains(part[0]));
        let at = whole.index_of(part[0]);
        lemma_cost_without(whole, at, widths, gap);
        let rest = part.drop_first();
        let left = whole.remove(at);
        assert forall|i: int| 0 <= i < rest.len() implies left.contains(#[trigger] rest[i]) by {
            assert(rest[i] == part[i + 1] && part[i + 1] != part[0]);
            assert(whole.contains(part[i + 1]));
            let j = whole.index_of(part[i + 1]);
            if j < at {
                assert(left[j] == rest[i]);
            } else {
                assert(left[j - 1] == rest[i]);
            }
        }
        assert forall|i: int| 0 <= i < left.len() implies width_of(widths, #[trigger] left[i]) is
            Some by {
            assert(left[i] == whole[if i < at { i } else { i + 1 }]);
        }
        lemma_part_costs_no_more(rest, left, widths, gap);
    }
}

/// The first head of the order stays ruled wherever it fits beside the head over
/// the folded ones: the session's, unless another is marked.
pub proof fn law_the_first_head_stays_ruled(
    widths: Seq<(Menu, i32)>,
    gap: Option<i32>,
    more: i32,
    avail: i32,
)
    requires
        width_of(widths, Menu::Session) is Some,
        avail > 0,
        more <= avail,
        width_of(widths, Menu::Session)->0 + gap_of(gap) <= avail - more,
    ensures
        planned(widths, gap, Some(more), Some(avail), None).shown.contains(Menu::Session),
{
    lemma_width_is_listed(widths, Menu::Session);
    let all = menus_of(widths);
    let order = keeping_order(None);
    let keep = kept(order, widths, gap_of(gap), avail - more);
    assert(order[0] == Menu::Session);
    assert(keep[0] == Menu::Session);
    let yes = |m: Menu| keep.contains(m);
    let i = all.index_of(Menu::Session);
    broadcast use Seq::lemma_filter_contains;

    assert(yes(all[i]));
    assert(all.filter(yes).contains(all[i]));
}

/// The heads that are shown stand in the order in which they were listed, and so
/// do those that are folded.
pub proof fn law_heads_keep_their_listed_order(
    widths: Seq<(Menu, i32)>,
    gap: Option<i32>,
    more_w: Option<i32>,
    avail: Option<i32>,
    pinned: Option<Menu>,
    i: int,
    j: int,
)
    requires
        menus_of(widths).no_duplicates(),
        0 <= i < j,
    ensures
        ({
            let p = planned(widths, gap, more_w, avail, pinned);
            let all = menus_of(widths);
            &&& j < p.shown.len() ==> all.index_of(p.shown[i]) < all.index_of(p.shown[j])
            &&& j < p.folded.len() ==> all.index_of(p.folded[i]) < all.index_of(p.folded[j])
        }),
{
    let all = menus_of(widths);
    let p = planned(widths, gap, more_w, avail, pinned);
    if avail is Some && more_w is Some {
        let keep = kept(keeping_order(pinned), widths, gap_of(gap), avail->0 - more_w->0);
        let yes = |m: Menu| keep.contains(m);
        let no = |m: Menu| !keep.contains(m);
        if j < all.filter(yes).len() {
            lemma_filter_keeps_order(all, yes, i, j);
        }
        if j < all.filter(no).len() {
            lemma_filter_keeps_order(all, no, i, j);
        }
    }
    if j < p.shown.len() && p.shown == all {
        assert(all.contains(all[i]) && all.contains(all[j]));
    }
}

proof fn lemma_filter_keeps_order(s: Seq<Menu>, f: spec_fn(Menu) -> bool, i: int, j: int)
    requires
        s.no_duplicates(),
        0 <= i < j < s.filter(f).len(),
    ensures
        s.index_of(s.filter(f)[i]) < s.index_of(s.filter(f)[j]),
    decreases s.len(),
{
    reveal(Seq::filter);
    let init = s.drop_last();
    let rest = init.filter(f);
    lemma_filter_holds_its_own(init, f, i);
    let a = init.index_of(rest[i]);
    assert(s[a] == rest[i]);
    assert(s.index_of(rest[i]) == a);
    if j < rest.len() {
        lemma_filter_holds_its_own(init, f, j);
        let b = init.index_of(rest[j]);
        assert(s[b] == rest[j]);
        assert(s.index_of(rest[j]) == b);
        lemma_filter_keeps_order(init, f, i, j);
    } else {
        assert(s.filter(f)[j] == s.last());
        assert(s[s.len() - 1] == s.last());
        assert(s.index_of(s.last()) == s.len() - 1);
    }
}

proof fn lemma_filter_holds_its_own(s: Seq<Menu>, f: spec_fn(Menu) -> bool, i: int)
    requires
        0 <= i < s.filter(f).len(),
    ensures
        s.contains(s.filter(f)[i]),
    decreases s.len(),
{
    reveal(Seq::filter);
    if i < s.drop_last().filter(f).len() {
        lemma_filter_holds_its_own(s.drop_last(), f, i);
        let k = s.drop_last().index_of(s.drop_last().filter(f)[i]);
        assert(s[k] == s.filter(f)[i]);
    } else {
        assert(s.filter(f)[i] == s.last());
        assert(s[s.len() - 1] == s.last());
    }
}

/// A step to the right goes on, one to the left goes back, each by one widget and
/// round the ends.
pub proof fn law_a_step_goes_the_way_it_points(
    ids: &[u64],
    i: int,
    on: Option<u64>,
    back: Option<u64>,
)
    requires
        0 <= i < ids@.len(),
        ids@.no_duplicates(),
        call_ensures(step_focus, (ids, Some(ids@[i]), 1isize), on),
        call_ensures(step_focus, (ids, Some(ids@[i]), -1isize), back),
    ensures
        on == Some(
            ids@[if i + 1 < ids@.len() {
                i + 1
            } else {
                0
            }],
        ),
        back == Some(
            ids@[if i > 0 {
                i - 1
            } else {
                ids@.len() - 1
            }],
        ),
{
    ids@.index_of_first_ensures(ids@[i]);
}

/// A page that is left by the focus forgets that a key opened it; any other stays
/// as it is.
pub proof fn law_a_left_page_forgets_its_key(
    nav: Nav,
    popup: u64,
    head: u64,
    focused: Option<u64>,
    ids: &[u64],
    out: bool,
    r: (Nav, bool),
)
    requires
        call_ensures(Nav::walked_out, (nav, popup, head, focused, ids), out),
        call_ensures(Nav::left_behind, (nav, popup, head, focused, ids), r),
    ensures
        r.1 == out,
        out ==> r.0.by_key is None && r.0.focus_into == nav.focus_into,
        !out ==> r.0 == nav,
{
}

/// A head is as wide as its word with its padding on both sides, and wider by its
/// mark and a space where it has one.
pub proof fn law_a_head_is_as_wide_as_its_word(text_w: i32, scale: i32, bare: i64, marked: i64)
    requires
        call_ensures(head_width, (text_w, false, scale), bare),
        call_ensures(head_width, (text_w, true, scale), marked),
        SCALE_MIN <= scale <= SCALE_MAX,
    ensures
        bare == text_w + 2 * theme::sized_of(1_150, scale as int),
        marked == bare + 400 + 2 * mark_of_scale(scale as int),
{
}

} // verus!
