//! Multi-selection over a list of keyed rows.
//!
//! A plain click replaces the selection, Ctrl toggles one row, Shift takes the
//! range from the anchor, and Ctrl+Shift adds that range to what is selected
//! already. The displayed rows are handed in with every call, because they are
//! filtered and sorted between calls; the anchor is therefore a key and never
//! an index.
//!
//! A Shift-click whose anchor is not among the rows takes the clicked row alone
//! and anchors there. A key that is displayed twice is one item drawn twice.

use crate::order::{self, lex_less};
use crate::text::{self, chars, same, Chars};
use vstd::prelude::*;

verus! {

/// Which rows are selected, and the row that a Shift-range starts from. The
/// keys are held in ascending order, so equal selections are held and printed
/// alike however they were made.
#[derive(Debug)]
pub struct Selection {
    keys: Vec<String>,
    anchor: Option<String>,
}

// ---------------------------------------------------------------------------
// The model
// ---------------------------------------------------------------------------

/// A selection as a value: the selected keys and the anchor.
pub struct Picked {
    /// The selected keys.
    pub keys: Set<Chars>,
    /// Where the next Shift-range starts, if anywhere.
    pub anchor: Option<Chars>,
}

/// Where the anchor stands among the displayed rows: its first occurrence.
pub open spec fn live_anchor(anchor: Option<Chars>, rows: Seq<Chars>) -> Option<int> {
    match anchor {
        Some(key) => rows.index_of_first(key),
        None => None,
    }
}

/// The keys of the rows from one index to another, either way round.
pub open spec fn range_keys(rows: Seq<Chars>, a: int, b: int) -> Set<Chars> {
    if a <= b {
        rows.subrange(a, b + 1).to_set()
    } else {
        rows.subrange(b, a + 1).to_set()
    }
}

/// What a click on row `idx` of the displayed `rows` makes of a selection.
pub open spec fn clicked(p: Picked, rows: Seq<Chars>, idx: int, ctrl: bool, shift: bool) -> Picked {
    if !(0 <= idx < rows.len()) {
        p
    } else if shift {
        let from = live_anchor(p.anchor, rows);
        let range = match from {
            Some(at) => range_keys(rows, at, idx),
            None => set![rows[idx]],
        };
        Picked {
            keys: if ctrl {
                p.keys.union(range)
            } else {
                range
            },
            anchor: if from is Some {
                p.anchor
            } else {
                Some(rows[idx])
            },
        }
    } else if ctrl {
        Picked {
            keys: if p.keys.contains(rows[idx]) {
                p.keys.remove(rows[idx])
            } else {
                p.keys.insert(rows[idx])
            },
            anchor: Some(rows[idx]),
        }
    } else {
        Picked { keys: set![rows[idx]], anchor: Some(rows[idx]) }
    }
}

/// Every row selected, anchored at the first.
pub open spec fn all_picked(rows: Seq<Chars>) -> Picked {
    Picked {
        keys: rows.to_set(),
        anchor: if rows.len() == 0 {
            None
        } else {
            Some(rows[0])
        },
    }
}

/// What is left of a selection once only `rows` exist.
pub open spec fn retained(p: Picked, rows: Seq<Chars>) -> Picked {
    Picked {
        keys: p.keys.intersect(rows.to_set()),
        anchor: match p.anchor {
            Some(key) => if rows.contains(key) {
                p.anchor
            } else {
                None
            },
            None => None,
        },
    }
}

/// `out` holds each displayed key that is selected, once, in the order of the
/// rows where those keys first appear.
pub open spec fn is_display_order(out: Seq<Chars>, keys: Set<Chars>, rows: Seq<Chars>) -> bool {
    &&& out.no_duplicates()
    &&& forall|k: Chars| #[trigger]
        out.contains(k) <==> keys.contains(k) && rows.contains(k)
    &&& forall|i: int, j: int|
        0 <= i < j < out.len() ==> rows.index_of_first(#[trigger] out[i])->0
            < rows.index_of_first(#[trigger] out[j])->0
}

/// Whether the row at `i` is selected.
pub open spec fn row_selected(keys: Set<Chars>, rows: Seq<Chars>, i: int) -> bool {
    0 <= i < rows.len() && keys.contains(rows[i])
}

/// `run` is a stretch of selected rows that cannot be made longer.
pub open spec fn is_run(run: (usize, usize), keys: Set<Chars>, rows: Seq<Chars>) -> bool {
    &&& run.0 <= run.1 < rows.len()
    &&& forall|i: int| run.0 <= i <= run.1 ==> #[trigger] row_selected(keys, rows, i)
    &&& !row_selected(keys, rows, run.0 - 1)
    &&& !row_selected(keys, rows, run.1 + 1)
}

/// `out` holds the runs of selected rows among the first `n` rows, ascending.
pub open spec fn are_runs(
    out: Seq<(usize, usize)>,
    keys: Set<Chars>,
    rows: Seq<Chars>,
    n: int,
) -> bool {
    &&& forall|r: int| 0 <= r < out.len() ==> is_run(#[trigger] out[r], keys, rows) && out[r].1 < n
    &&& forall|r: int, s: int|
        0 <= r < s < out.len() ==> (#[trigger] out[r]).1 + 1 < (#[trigger] out[s]).0
    &&& forall|i: int|
        #![trigger row_selected(keys, rows, i)]
        0 <= i < n && row_selected(keys, rows, i) ==> exists|r: int|
            0 <= r < out.len() && (#[trigger] out[r]).0 <= i <= out[r].1
}

// ---------------------------------------------------------------------------
// Lists of keys
// ---------------------------------------------------------------------------

/// `keys` stand in ascending order, each once.
pub open spec fn ascending(keys: Seq<Chars>) -> bool {
    forall|i: int, j: int|
        0 <= i < j < keys.len() ==> order::lex_lt(#[trigger] keys[i], #[trigger] keys[j])
}

proof fn lemma_ascending_distinct(keys: Seq<Chars>)
    requires
        ascending(keys),
    ensures
        keys.no_duplicates(),
{
    assert forall|i: int, j: int| 0 <= i < j < keys.len() implies keys[i] != keys[j] by {
        order::lemma_lex_irreflexive(keys[i]);
    }
}

/// A key put between the smaller ones and the larger ones keeps the order.
proof fn lemma_ascending_insert(keys: Seq<Chars>, at: int, key: Chars)
    requires
        ascending(keys),
        0 <= at <= keys.len(),
        forall|j: int| 0 <= j < at ==> order::lex_lt(#[trigger] keys[j], key),
        at < keys.len() ==> order::lex_lt(key, keys[at]),
    ensures
        ascending(keys.insert(at, key)),
        keys.insert(at, key).to_set() == keys.to_set().insert(key),
{
    let out = keys.insert(at, key);
    assert forall|i: int, j: int| 0 <= i < j < out.len() implies order::lex_lt(
        #[trigger] out[i],
        #[trigger] out[j],
    ) by {
        let x = if i < at { i } else { i - 1 };
        let y = if j < at { j } else { j - 1 };
        if i == at {
            if y > at {
                order::lemma_lex_transitive(key, keys[at], keys[y]);
            }
        } else if j == at {
            assert(order::lex_lt(keys[i], key));
        } else {
            assert(order::lex_lt(keys[x], keys[y]));
        }
    }
    assert forall|k: Chars| out.to_set().contains(k) == keys.to_set().insert(key).contains(k) by {
        assert(out[at] == key);
        if keys.contains(k) {
            let i = keys.index_of(k);
            assert(out[if i < at { i } else { i + 1 }] == k);
        }
        if out.contains(k) {
            let i = out.index_of(k);
            if i != at {
                assert(keys[if i < at { i } else { i - 1 }] == k);
            }
        }
    }
    assert(out.to_set() =~= keys.to_set().insert(key));
}

/// The first place of `key` in `list`.
fn position(list: &[String], key: &str) -> (r: Option<usize>)
    ensures
        match r {
            Some(i) => text::texts(list@).index_of_first(key@) == Some(i as int) && i < list@.len(),
            None => text::texts(list@).index_of_first(key@) is None,
        },
        r is Some <==> text::texts(list@).contains(key@),
{
    let ghost rows = text::texts(list@);
    proof {
        rows.index_of_first_ensures(key@);
    }
    let mut i: usize = 0;
    while i < list.len()
        invariant
            i <= list@.len(),
            rows == text::texts(list@),
            forall|j: int| 0 <= j < i ==> rows[j] != key@,
        decreases list@.len() - i,
    {
        if same(list[i].as_str(), key) {
            proof {
                assert(rows[i as int] == key@);
                rows.index_of_first_ensures(key@);
            }
            return Some(i);
        }
        proof {
            assert(rows[i as int] != key@);
        }
        i = i + 1;
    }
    None
}

/// Adds `key` to `list` at its place, unless it is there already.
fn insert(list: &mut Vec<String>, key: &String)
    requires
        ascending(text::texts(old(list)@)),
    ensures
        ascending(text::texts(final(list)@)),
        text::texts(final(list)@).to_set() == text::texts(old(list)@).to_set().insert(key@),
{
    let ghost before = text::texts(list@);
    let new: Vec<char> = chars(key.as_str());
    let mut at: usize = 0;
    while at < list.len() && lex_less(chars(list[at].as_str()).as_slice(), new.as_slice())
        invariant
            at <= list@.len(),
            before == text::texts(list@),
            new@ == key@,
            forall|j: int| 0 <= j < at ==> order::lex_lt(#[trigger] before[j], key@),
        decreases list@.len() - at,
    {
        at = at + 1;
    }
    if at < list.len() && same(list[at].as_str(), key.as_str()) {
        proof {
            assert(before[at as int] == key@);
            assert(before.to_set() =~= before.to_set().insert(key@));
        }
    } else {
        proof {
            if at < before.len() {
                order::lemma_lex_total(before[at as int], key@);
            }
            lemma_ascending_insert(before, at as int, key@);
        }
        list.insert(at, key.clone());
        proof {
            assert(text::texts(list@) =~= before.insert(at as int, key@));
        }
    }
}

/// Takes `key` out of `list`, and says whether it was there.
fn remove(list: &mut Vec<String>, key: &String) -> (r: bool)
    requires
        ascending(text::texts(old(list)@)),
    ensures
        r == text::texts(old(list)@).contains(key@),
        ascending(text::texts(final(list)@)),
        text::texts(final(list)@).to_set() == text::texts(old(list)@).to_set().remove(key@),
{
    let ghost before = text::texts(list@);
    proof {
        before.index_of_first_ensures(key@);
        lemma_ascending_distinct(before);
    }
    match position(list.as_slice(), key.as_str()) {
        Some(i) => {
            let _gone: String = list.remove(i);
            proof {
                let after = text::texts(list@);
                assert(after =~= before.remove(i as int));
                assert forall|k: Chars| after.to_set().contains(k) == before.to_set().remove(
                    key@,
                ).contains(k) by {
                    if before.contains(k) && k != key@ {
                        let j = before.index_of(k);
                        if j < i {
                            assert(after[j] == k);
                        } else {
                            assert(after[j - 1] == k);
                        }
                    }
                    if after.contains(k) {
                        let j = after.index_of(k);
                        if j < i {
                            assert(before[j] == k);
                        } else {
                            assert(before[j + 1] == k);
                        }
                    }
                }
                assert(after.to_set() =~= before.to_set().remove(key@));
            }
            true
        },
        None => {
            proof {
                assert(before.to_set() =~= before.to_set().remove(key@));
            }
            false
        },
    }
}

/// Adds the keys of the rows from `lo` to `hi` to `list`.
fn insert_rows(list: &mut Vec<String>, rows: &[String], lo: usize, hi: usize)
    requires
        ascending(text::texts(old(list)@)),
        lo <= hi < rows@.len(),
    ensures
        ascending(text::texts(final(list)@)),
        text::texts(final(list)@).to_set() == text::texts(old(list)@).to_set().union(
            range_keys(text::texts(rows@), lo as int, hi as int),
        ),
{
    let ghost before = text::texts(list@).to_set();
    let ghost all = text::texts(rows@);
    let mut i: usize = lo;
    proof {
        assert(before =~= before.union(all.subrange(lo as int, lo as int).to_set()));
    }
    while i <= hi
        invariant
            lo <= i <= hi + 1,
            hi < rows@.len(),
            all == text::texts(rows@),
            ascending(text::texts(list@)),
            text::texts(list@).to_set() == before.union(
                all.subrange(lo as int, i as int).to_set(),
            ),
        decreases hi + 1 - i,
    {
        insert(list, &rows[i]);
        proof {
            let a = all.subrange(lo as int, i as int);
            let b = all.subrange(lo as int, i + 1);
            assert(b =~= a.push(all[i as int]));
            assert forall|k: Chars| before.union(b.to_set()).contains(k) == before.union(
                a.to_set(),
            ).insert(all[i as int]).contains(k) by {
                if a.contains(k) {
                    assert(b[a.index_of(k)] == k);
                }
                assert(b[a.len() as int] == all[i as int]);
            }
            assert(before.union(b.to_set()) =~= before.union(a.to_set()).insert(all[i as int]));
        }
        i = i + 1;
    }
}

// ---------------------------------------------------------------------------
// The selection
// ---------------------------------------------------------------------------

impl Selection {
    /// The keys are held in ascending order, each once.
    #[verifier::type_invariant]
    closed spec fn in_order(&self) -> bool {
        ascending(text::texts(self.keys@))
    }

    /// The selection as a value.
    pub closed spec fn picked(&self) -> Picked {
        Picked {
            keys: text::texts(self.keys@).to_set(),
            anchor: match self.anchor {
                Some(key) => Some(key@),
                None => None,
            },
        }
    }

    /// True when `key` is part of the selection.
    pub fn is_selected(&self, key: &str) -> (r: bool)
        ensures
            r == self.picked().keys.contains(key@),
    {
        position(self.keys.as_slice(), key).is_some()
    }

    /// How many keys are selected.
    pub fn len(&self) -> (r: usize)
        ensures
            r == self.picked().keys.len(),
            self.picked().keys.finite(),
    {
        proof {
            use_type_invariant(self);
            lemma_ascending_distinct(text::texts(self.keys@));
            text::texts(self.keys@).unique_seq_to_set();
        }
        self.keys.len()
    }

    /// True when nothing is selected.
    pub fn is_empty(&self) -> (r: bool)
        ensures
            r == (self.picked().keys == Set::<Chars>::empty()),
    {
        proof {
            let t = text::texts(self.keys@);
            if t.len() > 0 {
                assert(t.to_set().contains(t[0]));
            } else {
                assert(t.to_set() =~= Set::<Chars>::empty());
            }
        }
        self.keys.len() == 0
    }

    /// The selected keys in the order in which the rows show them, each once.
    /// Selected keys that are not displayed are left out.
    pub fn ordered(&self, keys: &[String]) -> (out: Vec<String>)
        ensures
            is_display_order(text::texts(out@), self.picked().keys, text::texts(keys@)),
    {
        let ghost rows = text::texts(keys@);
        let ghost sel = self.picked().keys;
        let mut out: Vec<String> = Vec::new();
        let mut i: usize = 0;
        while i < keys.len()
            invariant
                i <= keys@.len(),
                rows == text::texts(keys@),
                sel == self.picked().keys,
                is_display_order(text::texts(out@), sel, rows.take(i as int)),
            decreases keys@.len() - i,
        {
            let ghost before = text::texts(out@);
            let ghost seen = rows.take(i as int);
            let ghost next = rows.take(i + 1);
            let ghost key = rows[i as int];
            let known: bool = position(out.as_slice(), keys[i].as_str()).is_some();
            let wanted: bool = self.is_selected(keys[i].as_str());
            if wanted && !known {
                out.push(keys[i].clone());
                proof {
                    assert(text::texts(out@) =~= before.push(key));
                }
            }
            proof {
                assert(next =~= seen.push(key));
                lemma_display_order_step(before, sel, seen, key);
            }
            i = i + 1;
        }
        proof {
            assert(rows.take(i as int) =~= rows);
        }
        out
    }

    /// Applies a click at index `idx` of the displayed `keys` with the
    /// modifiers that came with it. An index beyond the rows changes nothing.
    pub fn click(&mut self, keys: &[String], idx: usize, ctrl: bool, shift: bool)
        ensures
            final(self).picked() == clicked(
                old(self).picked(),
                text::texts(keys@),
                idx as int,
                ctrl,
                shift,
            ),
    {
        if idx >= keys.len() {
            return;
        }
        proof {
            use_type_invariant(&*self);
        }
        let ghost rows = text::texts(keys@);
        let ghost was = self.picked();
        let mut list: Vec<String> = Vec::new();
        std::mem::swap(&mut list, &mut self.keys);
        let ghost before = text::texts(list@).to_set();
        if shift {
            let from: Option<usize> = match &self.anchor {
                Some(anchor) => position(keys, anchor.as_str()),
                None => None,
            };
            let (lo, hi): (usize, usize) = match from {
                Some(at) => if at <= idx {
                    (at, idx)
                } else {
                    (idx, at)
                },
                None => (idx, idx),
            };
            if !ctrl {
                list = Vec::new();
                proof {
                    assert(text::texts(list@).to_set() =~= Set::<Chars>::empty());
                }
            }
            insert_rows(&mut list, keys, lo, hi);
            self.keys = list;
            proof {
                let range = range_keys(rows, lo as int, hi as int);
                assert(Set::<Chars>::empty().union(range) =~= range);
                if from is None {
                    let one = rows.subrange(idx as int, idx + 1);
                    assert(one =~= seq![rows[idx as int]]);
                    assert(one[0] == rows[idx as int]);
                    assert(range =~= set![rows[idx as int]]);
                }
            }
            if from.is_none() {
                self.anchor = Some(keys[idx].clone());
            }
            return;
        }
        if ctrl {
            if !remove(&mut list, &keys[idx]) {
                insert(&mut list, &keys[idx]);
                proof {
                    assert(before.remove(rows[idx as int]) =~= before);
                }
            }
        } else {
            list = Vec::new();
            proof {
                assert(text::texts(list@).to_set() =~= Set::<Chars>::empty());
            }
            insert(&mut list, &keys[idx]);
        }
        self.keys = list;
        self.anchor = Some(keys[idx].clone());
    }

    /// Selects every key in `keys`, anchored at the first.
    pub fn select_all(&mut self, keys: &[String])
        ensures
            final(self).picked() == all_picked(text::texts(keys@)),
    {
        proof {
            use_type_invariant(&*self);
        }
        let mut list: Vec<String> = Vec::new();
        let ghost rows = text::texts(keys@);
        proof {
            assert(text::texts(list@).to_set() =~= Set::<Chars>::empty());
        }
        if keys.len() > 0 {
            insert_rows(&mut list, keys, 0, keys.len() - 1);
            self.anchor = Some(keys[0].clone());
            proof {
                assert(rows.subrange(0, rows.len() as int) =~= rows);
                assert(Set::<Chars>::empty().union(rows.to_set()) =~= rows.to_set());
            }
        } else {
            self.anchor = None;
            proof {
                assert(rows.to_set() =~= Set::<Chars>::empty());
            }
        }
        self.keys = list;
    }

    /// Drops the whole selection and the anchor.
    pub fn clear(&mut self)
        ensures
            final(self).picked() == (Picked { keys: Set::<Chars>::empty(), anchor: None }),
    {
        self.keys = Vec::new();
        self.anchor = None;
        proof {
            assert(text::texts(self.keys@).to_set() =~= Set::<Chars>::empty());
        }
    }

    /// Forgets every selected key that is not among `keys`, and an anchor that
    /// is not. True when anything was forgotten.
    pub fn retain_existing(&mut self, keys: &[String]) -> (r: bool)
        ensures
            final(self).picked() == retained(old(self).picked(), text::texts(keys@)),
            r == (final(self).picked() != old(self).picked()),
    {
        proof {
            use_type_invariant(&*self);
        }
        let ghost rows = text::texts(keys@);
        let ghost all = text::texts(self.keys@);
        let mut list: Vec<String> = Vec::new();
        let mut i: usize = 0;
        let mut dropped: bool = false;
        proof {
            assert(text::texts(list@).to_set() =~= all.take(0).to_set().intersect(rows.to_set()));
        }
        while i < self.keys.len()
            invariant
                i <= self.keys@.len(),
                rows == text::texts(keys@),
                all == text::texts(self.keys@),
                ascending(text::texts(list@)),
                text::texts(list@).to_set() == all.take(i as int).to_set().intersect(rows.to_set()),
                dropped == exists|j: int| 0 <= j < i && !rows.contains(#[trigger] all[j]),
            decreases self.keys@.len() - i,
        {
            let ghost seen = all.take(i as int);
            let ghost next = all.take(i + 1);
            let ghost key = all[i as int];
            proof {
                assert(next =~= seen.push(key));
                assert forall|k: Chars| next.to_set().contains(k) == seen.to_set().insert(
                    key,
                ).contains(k) by {
                    if seen.contains(k) {
                        assert(next[seen.index_of(k)] == k);
                    }
                    assert(next[i as int] == key);
                }
                assert(next.to_set() =~= seen.to_set().insert(key));
            }
            if position(keys, self.keys[i].as_str()).is_some() {
                insert(&mut list, &self.keys[i]);
                proof {
                    assert(next.to_set().intersect(rows.to_set()) =~= seen.to_set().intersect(
                        rows.to_set(),
                    ).insert(key));
                }
            } else {
                dropped = true;
                proof {
                    assert(!rows.contains(all[i as int]));
                    assert(next.to_set().intersect(rows.to_set()) =~= seen.to_set().intersect(
                        rows.to_set(),
                    ));
                }
            }
            i = i + 1;
        }
        proof {
            assert(all.take(i as int) =~= all);
            if dropped {
                let j = choose|j: int| 0 <= j < i && !rows.contains(#[trigger] all[j]);
                assert(all.to_set().contains(all[j]));
            } else {
                assert(all.to_set().intersect(rows.to_set()) =~= all.to_set());
            }
        }
        let dangling: bool = match &self.anchor {
            Some(anchor) => position(keys, anchor.as_str()).is_none(),
            None => false,
        };
        self.keys = list;
        if dangling {
            self.anchor = None;
        }
        dropped || dangling
    }

    /// The runs of selected rows as inclusive pairs of indices, ascending.
    /// Neighbouring selected rows share one run.
    pub fn runs(&self, keys: &[String]) -> (out: Vec<(usize, usize)>)
        ensures
            are_runs(out@, self.picked().keys, text::texts(keys@), keys@.len() as int),
    {
        let ghost rows = text::texts(keys@);
        let ghost sel = self.picked().keys;
        let mut out: Vec<(usize, usize)> = Vec::new();
        let mut open: Option<usize> = None;
        let mut i: usize = 0;
        while i < keys.len()
            invariant
                i <= keys@.len(),
                rows == text::texts(keys@),
                sel == self.picked().keys,
                match open {
                    Some(first) => {
                        &&& first < i
                        &&& are_runs(out@, sel, rows, first as int)
                        &&& !row_selected(sel, rows, first - 1)
                        &&& forall|j: int| first <= j < i ==> #[trigger] row_selected(sel, rows, j)
                    },
                    None => are_runs(out@, sel, rows, i as int) && !row_selected(sel, rows, i - 1),
                },
            decreases keys@.len() - i,
        {
            if self.is_selected(keys[i].as_str()) {
                proof {
                    assert(row_selected(sel, rows, i as int));
                }
                if open.is_none() {
                    open = Some(i);
                }
            } else {
                proof {
                    assert(!row_selected(sel, rows, i as int));
                }
                match open {
                    Some(first) => {
                        let ghost before = out@;
                        out.push((first, i - 1));
                        proof {
                            lemma_runs_push(before, sel, rows, first, (i - 1) as usize);
                        }
                        open = None;
                    },
                    None => {},
                }
            }
            i = i + 1;
        }
        match open {
            Some(first) => {
                let ghost before = out@;
                let last: usize = keys.len() - 1;
                out.push((first, last));
                proof {
                    lemma_runs_push(before, sel, rows, first, last);
                }
            },
            None => {},
        }
        out
    }
}

impl Clone for Selection {
    fn clone(&self) -> (r: Self)
        ensures
            r.picked() == self.picked(),
    {
        proof {
            use_type_invariant(self);
        }
        let keys: Vec<String> = self.keys.clone();
        proof {
            assert(text::texts(keys@) =~= text::texts(self.keys@));
        }
        let anchor: Option<String> = match &self.anchor {
            Some(key) => Some(key.clone()),
            None => None,
        };
        Selection { keys, anchor }
    }
}

impl Default for Selection {
    fn default() -> (r: Self)
        ensures
            r.picked() == (Picked { keys: Set::<Chars>::empty(), anchor: None }),
    {
        let keys: Vec<String> = Vec::new();
        proof {
            assert(text::texts(keys@).to_set() =~= Set::<Chars>::empty());
        }
        Selection { keys, anchor: None }
    }
}

// ---------------------------------------------------------------------------
// Proofs
// ---------------------------------------------------------------------------

/// One more row: its key joins the order if it is selected and new.
proof fn lemma_display_order_step(out: Seq<Chars>, sel: Set<Chars>, seen: Seq<Chars>, key: Chars)
    requires
        is_display_order(out, sel, seen),
    ensures
        sel.contains(key) && !out.contains(key) ==> is_display_order(
            out.push(key),
            sel,
            seen.push(key),
        ),
        !sel.contains(key) || out.contains(key) ==> is_display_order(out, sel, seen.push(key)),
{
    let next = seen.push(key);
    assert forall|k: Chars| seen.contains(k) implies next.contains(k) && next.index_of_first(k)
        == seen.index_of_first(k) by {
        seen.index_of_first_ensures(k);
        next.index_of_first_ensures(k);
        let a = seen.index_of_first(k)->0;
        assert(next[a] == k);
        let b = next.index_of_first(k)->0;
        if b < a {
            assert(seen[b] == k);
        }
    }
    assert forall|k: Chars| next.contains(k) implies seen.contains(k) || k == key by {
        let i = next.index_of(k);
        if i < seen.len() {
            assert(seen[i] == k);
        }
    }
    assert(next[seen.len() as int] == key);
    assert forall|i: int| 0 <= i < out.len() implies seen.contains(#[trigger] out[i]) by {
        assert(out.contains(out[i]));
    }
    if sel.contains(key) && !out.contains(key) {
        assert(!seen.contains(key));
        let o = out.push(key);
        next.index_of_first_ensures(key);
        let at = next.index_of_first(key)->0;
        if at < seen.len() {
            assert(seen[at] == key);
        }
        assert forall|k: Chars| #[trigger] o.contains(k) <==> sel.contains(k) && next.contains(
            k,
        ) by {
            if out.contains(k) {
                assert(o[out.index_of(k)] == k);
            }
            if o.contains(k) {
                let i = o.index_of(k);
                if i < out.len() {
                    assert(out[i] == k);
                }
            }
            assert(o[out.len() as int] == key);
        }
        assert forall|i: int, j: int| 0 <= i < j < o.len() implies next.index_of_first(
            #[trigger] o[i],
        )->0 < next.index_of_first(#[trigger] o[j])->0 by {
            assert(seen.contains(out[i]));
            seen.index_of_first_ensures(out[i]);
        }
    }
}

/// Closing an open stretch of selected rows adds one run behind the others.
proof fn lemma_runs_push(
    out: Seq<(usize, usize)>,
    sel: Set<Chars>,
    rows: Seq<Chars>,
    first: usize,
    last: usize,
)
    requires
        are_runs(out, sel, rows, first as int),
        first <= last < rows.len(),
        !row_selected(sel, rows, first - 1),
        forall|j: int| first <= j <= last ==> #[trigger] row_selected(sel, rows, j),
        !row_selected(sel, rows, last + 1),
    ensures
        are_runs(out.push((first, last)), sel, rows, last + 1),
        last + 1 < rows.len() ==> are_runs(out.push((first, last)), sel, rows, last + 2),
{
    let o = out.push((first, last));
    assert(is_run(o[out.len() as int], sel, rows));
    assert forall|r: int, s: int| 0 <= r < s < o.len() implies (#[trigger] o[r]).1 + 1 < (
    #[trigger] o[s]).0 by {
        assert(o[r] == out[r]);
        if s == out.len() {
            // The run before ends on a selected row, and the row before this
            // one is not selected.
            assert(row_selected(sel, rows, out[r].1 as int));
        } else {
            assert(o[s] == out[s]);
        }
    }
    assert forall|i: int|
        #![trigger row_selected(sel, rows, i)]
        0 <= i < last + 2 && row_selected(sel, rows, i) implies exists|r: int|
        0 <= r < o.len() && (#[trigger] o[r]).0 <= i <= o[r].1 by {
        if i < first {
            let r = choose|r: int| 0 <= r < out.len() && (#[trigger] out[r]).0 <= i <= out[r].1;
            assert(o[r] == out[r]);
        } else {
            assert(o[out.len() as int].0 <= i <= o[out.len() as int].1);
        }
    }
}

// ---------------------------------------------------------------------------
// Laws
// ---------------------------------------------------------------------------

/// A plain click selects exactly the clicked row and anchors there, whatever
/// was selected before.
pub proof fn law_plain_click_selects_one(p: Picked, rows: Seq<Chars>, idx: int)
    requires
        0 <= idx < rows.len(),
    ensures
        clicked(p, rows, idx, false, false) == (Picked {
            keys: set![rows[idx]],
            anchor: Some(rows[idx]),
        }),
{
}

/// A second Ctrl-click on the same row undoes the first one's change to the
/// selected keys.
pub proof fn law_ctrl_click_twice_restores(p: Picked, rows: Seq<Chars>, idx: int)
    ensures
        clicked(clicked(p, rows, idx, true, false), rows, idx, true, false).keys == p.keys,
{
    if 0 <= idx < rows.len() {
        let key = rows[idx];
        if p.keys.contains(key) {
            assert(p.keys.remove(key).insert(key) =~= p.keys);
        } else {
            assert(p.keys.insert(key).remove(key) =~= p.keys);
        }
    }
}

/// While the anchor is displayed, Shift-clicks leave it where it is, with Ctrl or
/// without, so a later Shift-click gives the same selection whether or not the
/// earlier one was made.
pub proof fn law_shift_ranges_share_their_anchor(
    p: Picked,
    rows: Seq<Chars>,
    first: int,
    ctrl: bool,
    second: int,
)
    requires
        live_anchor(p.anchor, rows) is Some,
    ensures
        clicked(p, rows, first, ctrl, true).anchor == p.anchor,
        0 <= second < rows.len() ==> clicked(
            clicked(p, rows, first, ctrl, true),
            rows,
            second,
            false,
            true,
        ) == clicked(p, rows, second, false, true),
{
}

/// Without a displayed anchor, Shift is a plain click and Ctrl+Shift adds the
/// one row; both anchor there.
pub proof fn law_shift_without_anchor(p: Picked, rows: Seq<Chars>, idx: int)
    requires
        0 <= idx < rows.len(),
        live_anchor(p.anchor, rows) is None,
    ensures
        clicked(p, rows, idx, false, true) == clicked(p, rows, idx, false, false),
        clicked(p, rows, idx, true, true) == (Picked {
            keys: p.keys.insert(rows[idx]),
            anchor: Some(rows[idx]),
        }),
{
    assert(p.keys.union(set![rows[idx]]) =~= p.keys.insert(rows[idx]));
}

/// Ctrl+Shift adds the range that Shift alone would select, and keeps the rest.
pub proof fn law_ctrl_shift_adds_the_range(p: Picked, rows: Seq<Chars>, idx: int)
    requires
        0 <= idx < rows.len(),
    ensures
        clicked(p, rows, idx, true, true).keys == p.keys.union(
            clicked(p, rows, idx, false, true).keys,
        ),
        clicked(p, rows, idx, true, true).anchor == clicked(p, rows, idx, false, true).anchor,
{
}

/// The anchor is a key: a Shift-click ranges from wherever the rows show it
/// now, and both ends of the range are selected.
pub proof fn law_range_joins_anchor_and_click(p: Picked, rows: Seq<Chars>, idx: int, key: Chars)
    requires
        0 <= idx < rows.len(),
        p.anchor == Some(key),
        rows.contains(key),
    ensures
        clicked(p, rows, idx, false, true).keys.contains(key),
        clicked(p, rows, idx, false, true).keys.contains(rows[idx]),
{
    rows.index_of_first_ensures(key);
    let at = rows.index_of_first(key)->0;
    if at <= idx {
        let r = rows.subrange(at, idx + 1);
        assert(r[0] == key && r[idx - at] == rows[idx]);
    } else {
        let r = rows.subrange(idx, at + 1);
        assert(r[0] == rows[idx] && r[at - idx] == key);
    }
}

/// A click beyond the rows changes nothing.
pub proof fn law_click_beyond_rows_is_nothing(
    p: Picked,
    rows: Seq<Chars>,
    idx: int,
    ctrl: bool,
    shift: bool,
)
    requires
        idx >= rows.len(),
    ensures
        clicked(p, rows, idx, ctrl, shift) == p,
{
}

/// Sweeping twice is sweeping once, so the second sweep finds nothing.
pub proof fn law_retain_is_idempotent(p: Picked, rows: Seq<Chars>)
    ensures
        retained(retained(p, rows), rows) == retained(p, rows),
{
    assert(p.keys.intersect(rows.to_set()).intersect(rows.to_set()) =~= p.keys.intersect(
        rows.to_set(),
    ));
}

/// A sweep never adds a key.
pub proof fn law_retain_only_removes(p: Picked, rows: Seq<Chars>)
    ensures
        retained(p, rows).keys.subset_of(p.keys),
        retained(p, rows).anchor is Some ==> retained(p, rows).anchor == p.anchor,
{
}

/// A set of keys is held in one way only, whatever clicks it came from.
pub proof fn law_equal_selections_are_held_alike(a: Seq<Chars>, b: Seq<Chars>)
    requires
        ascending(a),
        ascending(b),
        a.to_set() == b.to_set(),
    ensures
        a == b,
    decreases a.len(),
{
    if a.len() == 0 {
        if b.len() > 0 {
            assert(b.to_set().contains(b[0]));
        }
        assert(a =~= b);
    } else {
        assert(a.to_set().contains(a.last()));
        let j = b.index_of(a.last());
        assert(b.to_set().contains(b.last()));
        let i = a.index_of(b.last());
        if j < b.len() - 1 {
            order::lemma_lex_irreflexive(a.last());
            if i < a.len() - 1 {
                order::lemma_lex_transitive(a.last(), b.last(), a.last());
            }
        }
        assert(a.last() == b.last());
        lemma_ascending_distinct(a);
        lemma_ascending_distinct(b);
        let x = a.drop_last();
        let y = b.drop_last();
        assert forall|k: Chars| x.to_set().contains(k) == y.to_set().contains(k) by {
            assert(a.to_set().contains(k) == b.to_set().contains(k));
            if x.contains(k) {
                let u = x.index_of(k);
                assert(a[u] == k && a[u] != a[a.len() - 1]);
                assert(a.to_set().contains(k));
                let v = b.index_of(k);
                assert(b[v] == k && b[b.len() - 1] != k);
                assert(y[v] == k);
            }
            if y.contains(k) {
                let v = y.index_of(k);
                assert(b[v] == k && b[v] != b[b.len() - 1]);
                assert(b.to_set().contains(k));
                let u = a.index_of(k);
                assert(a[u] == k && a[a.len() - 1] != k);
                assert(x[u] == k);
            }
        }
        assert(x.to_set() =~= y.to_set());
        law_equal_selections_are_held_alike(x, y);
        assert(a =~= x.push(a.last()));
        assert(b =~= y.push(b.last()));
    }
}

/// There is only one list of runs for a selection and its rows.
pub proof fn law_runs_are_unique(
    a: Seq<(usize, usize)>,
    b: Seq<(usize, usize)>,
    sel: Set<Chars>,
    rows: Seq<Chars>,
)
    requires
        are_runs(a, sel, rows, rows.len() as int),
        are_runs(b, sel, rows, rows.len() as int),
    ensures
        a == b,
{
    lemma_runs_prefix(a, b, sel, rows, a.len() as int);
    lemma_runs_prefix(b, a, sel, rows, b.len() as int);
    assert(a =~= b);
}

/// The first `n` runs of one list are the first `n` runs of any other.
proof fn lemma_runs_prefix(
    a: Seq<(usize, usize)>,
    b: Seq<(usize, usize)>,
    sel: Set<Chars>,
    rows: Seq<Chars>,
    n: int,
)
    requires
        are_runs(a, sel, rows, rows.len() as int),
        are_runs(b, sel, rows, rows.len() as int),
        0 <= n <= a.len(),
    ensures
        n <= b.len(),
        forall|r: int| 0 <= r < n ==> #[trigger] a[r] == b[r],
    decreases n,
{
    if n > 0 {
        lemma_runs_prefix(a, b, sel, rows, n - 1);
        let run = a[n - 1];
        assert(is_run(run, sel, rows));
        assert(row_selected(sel, rows, run.0 as int));
        let s = choose|s: int| 0 <= s < b.len() && (#[trigger] b[s]).0 <= run.0 <= b[s].1;
        assert(is_run(b[s], sel, rows));
        lemma_runs_overlap_equal(run, b[s], sel, rows);
        if s < n - 1 {
            assert(a[s] == b[s]);
        }
        if s > n - 1 {
            // The run before it in `b` starts a run that `a` must hold too.
            let other = b[n - 1];
            assert(is_run(other, sel, rows));
            assert(row_selected(sel, rows, other.0 as int));
            let q = choose|q: int| 0 <= q < a.len() && (#[trigger] a[q]).0 <= other.0 <= a[q].1;
            assert(is_run(a[q], sel, rows));
            lemma_runs_overlap_equal(other, a[q], sel, rows);
            if q < n - 1 {
                assert(a[q] == b[q]);
            }
        }
    }
}

/// Two runs that share a row are the same run.
proof fn lemma_runs_overlap_equal(
    x: (usize, usize),
    y: (usize, usize),
    sel: Set<Chars>,
    rows: Seq<Chars>,
)
    requires
        is_run(x, sel, rows),
        is_run(y, sel, rows),
        y.0 <= x.0 <= y.1,
    ensures
        x == y,
{
    if y.0 < x.0 {
        assert(row_selected(sel, rows, x.0 - 1));
    }
    if x.1 < y.1 {
        assert(row_selected(sel, rows, x.1 + 1));
    }
    if y.1 < x.1 {
        assert(row_selected(sel, rows, y.1 + 1));
    }
}

/// A Ctrl-click changes the clicked row and no other, and anchors there.
pub proof fn law_ctrl_click_turns_one_row_over(p: Picked, rows: Seq<Chars>, idx: int, k: Chars)
    requires
        0 <= idx < rows.len(),
    ensures
        ({
            let after = clicked(p, rows, idx, true, false);
            &&& k == rows[idx] ==> after.keys.contains(k) != p.keys.contains(k)
            &&& k != rows[idx] ==> after.keys.contains(k) == p.keys.contains(k)
            &&& after.anchor == Some(rows[idx])
        }),
{
}

/// A Shift-click takes every row from the anchor's first place to the clicked
/// one, both ends with it, and, without Ctrl, nothing else; the anchor stays.
pub proof fn law_shift_click_takes_the_rows_between(
    p: Picked,
    rows: Seq<Chars>,
    at: int,
    idx: int,
    k: Chars,
)
    requires
        0 <= idx < rows.len(),
        0 <= at < rows.len(),
        p.anchor == Some(rows[at]),
        forall|j: int| 0 <= j < at ==> rows[j] != rows[at],
    ensures
        ({
            let between = exists|i: int|
                (at <= i <= idx || idx <= i <= at) && #[trigger] rows[i] == k;
            &&& clicked(p, rows, idx, false, true).keys.contains(k) <==> between
            &&& clicked(p, rows, idx, true, true).keys.contains(k) <==> between || p.keys.contains(
                k,
            )
            &&& clicked(p, rows, idx, false, true).anchor == p.anchor
            &&& clicked(p, rows, idx, true, true).anchor == p.anchor
        }),
{
    rows.index_of_first_ensures(rows[at]);
    let first = rows.index_of_first(rows[at])->0;
    assert(first == at);
    let lo = if at <= idx {
        at
    } else {
        idx
    };
    let hi = if at <= idx {
        idx
    } else {
        at
    };
    let part = rows.subrange(lo, hi + 1);
    assert(range_keys(rows, at, idx) == part.to_set());
    if part.contains(k) {
        let i = part.index_of(k);
        assert(rows[lo + i] == k);
    }
    if exists|i: int| (at <= i <= idx || idx <= i <= at) && #[trigger] rows[i] == k {
        let i = choose|i: int| (at <= i <= idx || idx <= i <= at) && #[trigger] rows[i] == k;
        assert(part[i - lo] == k);
    }
}

/// All rows selected are all rows and only those, and a range starts from the
/// first.
pub proof fn law_all_rows_are_selected(rows: Seq<Chars>, k: Chars)
    ensures
        all_picked(rows).keys.contains(k) <==> rows.contains(k),
        rows.len() > 0 ==> all_picked(rows).anchor == Some(rows[0]),
        rows.len() == 0 ==> all_picked(rows).anchor is None,
{
}

/// What stays selected is what was and still exists; the anchor stays exactly
/// where it exists.
pub proof fn law_what_exists_stays_selected(p: Picked, rows: Seq<Chars>, k: Chars)
    ensures
        retained(p, rows).keys.contains(k) <==> p.keys.contains(k) && rows.contains(k),
        retained(p, rows).anchor is Some <==> p.anchor is Some && rows.contains(p.anchor->0),
        retained(p, rows).anchor is Some ==> retained(p, rows).anchor == p.anchor,
{
}

/// A row lies in a run exactly where it is selected.
pub proof fn law_a_row_is_in_a_run_where_it_is_selected(
    out: Seq<(usize, usize)>,
    keys: Set<Chars>,
    rows: Seq<Chars>,
    i: int,
)
    requires
        are_runs(out, keys, rows, rows.len() as int),
        0 <= i < rows.len(),
    ensures
        keys.contains(rows[i]) <==> exists|r: int|
            0 <= r < out.len() && (#[trigger] out[r]).0 <= i <= out[r].1,
        forall|r: int|
            0 < r < out.len() ==> (#[trigger] out[r]).0 > 0 && !keys.contains(
                rows[out[r].0 as int - 1],
            ),
{
    assert(row_selected(keys, rows, i) == keys.contains(rows[i]));
    if exists|r: int| 0 <= r < out.len() && (#[trigger] out[r]).0 <= i <= out[r].1 {
        let r = choose|r: int| 0 <= r < out.len() && (#[trigger] out[r]).0 <= i <= out[r].1;
        assert(is_run(out[r], keys, rows));
    }
    assert forall|r: int| 0 < r < out.len() implies (#[trigger] out[r]).0 > 0 && !keys.contains(
        rows[out[r].0 as int - 1],
    ) by {
        assert(out[r - 1].1 + 1 < out[r].0);
        assert(is_run(out[r], keys, rows));
        assert(!row_selected(keys, rows, out[r].0 - 1));
    }
}

/// The selected rows are told in the order in which they are shown.
pub proof fn law_the_shown_order_is_kept(
    out: Seq<Chars>,
    keys: Set<Chars>,
    rows: Seq<Chars>,
    i: int,
    j: int,
)
    requires
        is_display_order(out, keys, rows),
        rows.no_duplicates(),
        0 <= i < rows.len(),
        0 <= j < rows.len(),
        keys.contains(rows[i]),
        keys.contains(rows[j]),
    ensures
        out.contains(rows[i]) && out.contains(rows[j]),
        i < j ==> out.index_of(rows[i]) < out.index_of(rows[j]),
{
    assert(rows.contains(rows[i]) && rows.contains(rows[j]));
    assert(out.contains(rows[i]) && out.contains(rows[j]));
    let a = out.index_of(rows[i]);
    let b = out.index_of(rows[j]);
    rows.index_of_first_ensures(rows[i]);
    rows.index_of_first_ensures(rows[j]);
    assert(rows.index_of_first(rows[i])->0 == i);
    assert(rows.index_of_first(rows[j])->0 == j);
    if i < j && b < a {
        assert(rows.index_of_first(out[b])->0 < rows.index_of_first(out[a])->0);
    }
    if a == b {
        assert(rows[i] == rows[j]);
    }
}

} // verus!
