//! Total orders and the one sort that everything displayed goes through.
//!
//! Rows are ordered by a number, then by a name, then by a second name, and
//! rows that agree in all three keep the order in which they came. The result
//! therefore never depends on anything but the rows themselves.

use crate::text::Chars;
use vstd::prelude::*;

verus! {

// ---------------------------------------------------------------------------
// Texts
// ---------------------------------------------------------------------------

/// `a` stands before `b` in a dictionary whose alphabet is the code points.
pub open spec fn lex_lt(a: Chars, b: Chars) -> bool
    decreases a.len(),
{
    if b.len() == 0 {
        false
    } else if a.len() == 0 {
        true
    } else if a[0] != b[0] {
        a[0] < b[0]
    } else {
        lex_lt(a.drop_first(), b.drop_first())
    }
}

/// No text stands before itself.
pub proof fn lemma_lex_irreflexive(a: Chars)
    ensures
        !lex_lt(a, a),
    decreases a.len(),
{
    if a.len() > 0 {
        lemma_lex_irreflexive(a.drop_first());
    }
}

/// Of two different texts, one stands before the other.
pub proof fn lemma_lex_total(a: Chars, b: Chars)
    ensures
        lex_lt(a, b) || a == b || lex_lt(b, a),
    decreases a.len(),
{
    if a.len() > 0 && b.len() > 0 {
        if a[0] == b[0] {
            lemma_lex_total(a.drop_first(), b.drop_first());
            if a.drop_first() == b.drop_first() {
                assert(a =~= seq![a[0]] + a.drop_first());
                assert(b =~= seq![b[0]] + b.drop_first());
            }
        }
    } else if a.len() == 0 && b.len() == 0 {
        assert(a =~= b);
    }
}

/// The order of texts is transitive.
pub proof fn lemma_lex_transitive(a: Chars, b: Chars, c: Chars)
    requires
        lex_lt(a, b),
        lex_lt(b, c),
    ensures
        lex_lt(a, c),
    decreases a.len(),
{
    if a.len() > 0 && a[0] == b[0] && b[0] == c[0] {
        lemma_lex_transitive(a.drop_first(), b.drop_first(), c.drop_first());
    }
}

/// Whether `a` stands before `b`.
pub fn lex_less(a: &[char], b: &[char]) -> (r: bool)
    ensures
        r == lex_lt(a@, b@),
{
    let mut i: usize = 0;
    proof {
        assert(a@.skip(0) =~= a@);
        assert(b@.skip(0) =~= b@);
    }
    while i < a.len() && i < b.len()
        invariant
            i <= a@.len(),
            i <= b@.len(),
            lex_lt(a@, b@) == lex_lt(a@.skip(i as int), b@.skip(i as int)),
        decreases a@.len() - i,
    {
        if a[i] != b[i] {
            return a[i] < b[i];
        }
        proof {
            assert(a@.skip(i as int).drop_first() =~= a@.skip(i + 1));
            assert(b@.skip(i as int).drop_first() =~= b@.skip(i + 1));
        }
        i = i + 1;
    }
    a.len() < b.len()
}

// ---------------------------------------------------------------------------
// Keys
// ---------------------------------------------------------------------------

/// What a row is ordered by.
pub struct Key {
    /// The number that decides first, smallest first.
    pub rank: nat,
    /// The text that decides next.
    pub name: Chars,
    /// The text that decides last.
    pub tie: Chars,
}

/// What a row is ordered by, in memory.
pub struct Entry {
    /// The number that decides first, smallest first.
    pub rank: u64,
    /// The text that decides next.
    pub name: Vec<char>,
    /// The text that decides last.
    pub tie: Vec<char>,
}

impl View for Entry {
    type V = Key;

    open spec fn view(&self) -> Key {
        Key { rank: self.rank as nat, name: self.name@, tie: self.tie@ }
    }
}

/// The keys of a list of entries.
pub open spec fn keys_of(es: Seq<Entry>) -> Seq<Key> {
    es.map_values(|e: Entry| e@)
}

/// `a` is ordered before `b`.
pub open spec fn key_lt(a: Key, b: Key) -> bool {
    ||| a.rank < b.rank
    ||| a.rank == b.rank && lex_lt(a.name, b.name)
    ||| a.rank == b.rank && a.name == b.name && lex_lt(a.tie, b.tie)
}

/// The row at `i` is shown before the row at `j`: by their keys, and where the
/// keys agree, in the order in which they came.
pub open spec fn before(ks: Seq<Key>, i: int, j: int) -> bool {
    key_lt(ks[i], ks[j]) || (ks[i] == ks[j] && i < j)
}

/// No key is before itself.
pub proof fn lemma_key_irreflexive(a: Key)
    ensures
        !key_lt(a, a),
{
    lemma_lex_irreflexive(a.name);
    lemma_lex_irreflexive(a.tie);
}

/// Of two different keys, one is before the other.
pub proof fn lemma_key_total(a: Key, b: Key)
    ensures
        key_lt(a, b) || a == b || key_lt(b, a),
{
    lemma_lex_total(a.name, b.name);
    lemma_lex_total(a.tie, b.tie);
}

/// The order of keys is transitive.
pub proof fn lemma_key_transitive(a: Key, b: Key, c: Key)
    requires
        key_lt(a, b),
        key_lt(b, c),
    ensures
        key_lt(a, c),
{
    if lex_lt(a.name, b.name) && lex_lt(b.name, c.name) {
        lemma_lex_transitive(a.name, b.name, c.name);
    }
    if lex_lt(a.tie, b.tie) && lex_lt(b.tie, c.tie) {
        lemma_lex_transitive(a.tie, b.tie, c.tie);
    }
}

/// Of two keys, not both are before the other.
pub proof fn lemma_key_asymmetric(a: Key, b: Key)
    requires
        key_lt(a, b),
    ensures
        !key_lt(b, a),
        a != b,
{
    if key_lt(b, a) {
        lemma_key_transitive(a, b, a);
    }
    lemma_key_irreflexive(a);
}

/// The order of the rows is transitive.
pub proof fn lemma_before_transitive(ks: Seq<Key>, i: int, j: int, k: int)
    requires
        before(ks, i, j),
        before(ks, j, k),
    ensures
        before(ks, i, k),
{
    if key_lt(ks[i], ks[j]) && key_lt(ks[j], ks[k]) {
        lemma_key_transitive(ks[i], ks[j], ks[k]);
    }
}

/// Of two rows exactly one is shown first.
pub proof fn lemma_before_total(ks: Seq<Key>, i: int, j: int)
    requires
        i != j,
    ensures
        before(ks, i, j) != before(ks, j, i),
{
    lemma_key_total(ks[i], ks[j]);
    if key_lt(ks[i], ks[j]) {
        lemma_key_asymmetric(ks[i], ks[j]);
    } else if key_lt(ks[j], ks[i]) {
        lemma_key_asymmetric(ks[j], ks[i]);
    }
}

/// No row is shown before itself.
pub proof fn lemma_before_irreflexive(ks: Seq<Key>, i: int)
    ensures
        !before(ks, i, i),
{
    lemma_key_irreflexive(ks[i]);
}

fn chars_same(a: &Vec<char>, b: &Vec<char>) -> (r: bool)
    ensures
        r == (a@ == b@),
{
    if a.len() != b.len() {
        return false;
    }
    let mut i: usize = 0;
    while i < a.len()
        invariant
            i <= a.len(),
            a.len() == b.len(),
            forall|j: int| 0 <= j < i ==> a@[j] == b@[j],
        decreases a.len() - i,
    {
        if a[i] != b[i] {
            return false;
        }
        i = i + 1;
    }
    proof {
        assert(a@ =~= b@);
    }
    true
}

/// Whether `a` is ordered before `b`.
pub fn entry_less(a: &Entry, b: &Entry) -> (r: bool)
    ensures
        r == key_lt(a@, b@),
{
    if a.rank != b.rank {
        return a.rank < b.rank;
    }
    if !chars_same(&a.name, &b.name) {
        return lex_less(a.name.as_slice(), b.name.as_slice());
    }
    proof {
        lemma_lex_irreflexive(a.name@);
    }
    lex_less(a.tie.as_slice(), b.tie.as_slice())
}

// ---------------------------------------------------------------------------
// Sorting
// ---------------------------------------------------------------------------

/// `r` lists the places 0..n of `ks`, each once, in the order of their rows.
pub open spec fn is_order(r: Seq<usize>, ks: Seq<Key>) -> bool {
    &&& r.len() == ks.len()
    &&& forall|i: int| 0 <= i < r.len() ==> (#[trigger] r[i]) < ks.len()
    &&& forall|i: int, j: int|
        0 <= i < j < r.len() ==> before(ks, (#[trigger] r[i]) as int, (#[trigger] r[j]) as int)
    &&& forall|k: usize| k < ks.len() ==> #[trigger] r.contains(k)
}

/// The places of `es` in order: a stable sort of the rows by their keys.
pub fn ascending(es: &Vec<Entry>) -> (r: Vec<usize>)
    ensures
        is_order(r@, keys_of(es@)),
{
    let ghost ks = keys_of(es@);
    let mut r: Vec<usize> = Vec::new();
    let mut n: usize = 0;
    while n < es.len()
        invariant
            n <= es.len(),
            ks == keys_of(es@),
            r.len() == n,
            forall|i: int| 0 <= i < r.len() ==> (#[trigger] r@[i]) < n,
            forall|i: int, j: int|
                0 <= i < j < r.len() ==> before(
                    ks,
                    (#[trigger] r@[i]) as int,
                    (#[trigger] r@[j]) as int,
                ),
            forall|k: usize| k < n ==> #[trigger] r@.contains(k),
        decreases es.len() - n,
    {
        let mut at: usize = n;
        while at > 0 && entry_less(&es[n], &es[r[at - 1]])
            invariant
                at <= n < es.len(),
                ks == keys_of(es@),
                r.len() == n,
                forall|i: int| 0 <= i < r.len() ==> (#[trigger] r@[i]) < n,
                forall|i: int| at <= i < n ==> before(ks, n as int, (#[trigger] r@[i]) as int),
            decreases at,
        {
            at = at - 1;
        }
        let ghost was = r@;
        r.insert(at, n);
        proof {
            assert(r@ =~= was.insert(at as int, n));
            if at > 0 {
                let p = was[at - 1] as int;
                lemma_before_total(ks, p, n as int);
                lemma_key_total(ks[p], ks[n as int]);
                assert(before(ks, p, n as int));
                assert forall|i: int| 0 <= i < at implies before(
                    ks,
                    (#[trigger] was[i]) as int,
                    n as int,
                ) by {
                    if i < at - 1 {
                        lemma_before_transitive(ks, was[i] as int, p, n as int);
                    }
                }
            }
            assert forall|i: int, j: int| 0 <= i < j < r.len() implies before(
                ks,
                (#[trigger] r@[i]) as int,
                (#[trigger] r@[j]) as int,
            ) by {
                if j < at {
                    assert(r@[i] == was[i] && r@[j] == was[j]);
                } else if j == at {
                    assert(r@[i] == was[i]);
                } else if i < at {
                    assert(r@[i] == was[i] && r@[j] == was[j - 1]);
                } else if i == at {
                    assert(r@[j] == was[j - 1]);
                } else {
                    assert(r@[i] == was[i - 1] && r@[j] == was[j - 1]);
                }
            }
            assert forall|k: usize| k < n + 1 implies #[trigger] r@.contains(k) by {
                if k == n {
                    assert(r@[at as int] == k);
                } else {
                    assert(was.contains(k));
                    let i = was.index_of(k);
                    if i < at {
                        assert(r@[i] == k);
                    } else {
                        assert(r@[i + 1] == k);
                    }
                }
            }
        }
        n = n + 1;
    }
    r
}

/// An order lists no place twice.
pub proof fn lemma_order_distinct(r: Seq<usize>, ks: Seq<Key>)
    requires
        is_order(r, ks),
    ensures
        r.no_duplicates(),
{
    assert forall|i: int, j: int| 0 <= i < j < r.len() implies r[i] != r[j] by {
        assert(before(ks, r[i] as int, r[j] as int));
        lemma_before_irreflexive(ks, r[i] as int);
    }
}

/// There is only one order of given rows.
pub proof fn law_order_is_unique(a: Seq<usize>, b: Seq<usize>, ks: Seq<Key>)
    requires
        is_order(a, ks),
        is_order(b, ks),
    ensures
        a == b,
{
    lemma_order_prefix(a, b, ks, a.len() as int);
    assert(a =~= b);
}

proof fn lemma_order_prefix(a: Seq<usize>, b: Seq<usize>, ks: Seq<Key>, n: int)
    requires
        is_order(a, ks),
        is_order(b, ks),
        0 <= n <= a.len(),
    ensures
        forall|i: int| 0 <= i < n ==> a[i] == b[i],
    decreases n,
{
    if n > 0 {
        lemma_order_prefix(a, b, ks, n - 1);
        lemma_order_distinct(a, ks);
        lemma_order_distinct(b, ks);
        let x = a[n - 1];
        let y = b[n - 1];
        if x != y {
            assert(a.contains(y) && b.contains(x));
            let p = a.index_of(y);
            let q = b.index_of(x);
            if p < n - 1 {
                assert(a[p] == b[p]);
            }
            if q < n - 1 {
                assert(a[q] == b[q]);
            }
            assert(before(ks, a[n - 1] as int, a[p] as int));
            assert(before(ks, b[n - 1] as int, b[q] as int));
            lemma_before_total(ks, x as int, y as int);
        }
    }
}

/// The keys in the order `r`.
pub open spec fn arranged(r: Seq<usize>, ks: Seq<Key>) -> Seq<Key> {
    Seq::new(r.len(), |i: int| ks[r[i] as int])
}

/// The order of the rows does not depend on the order in which they arrive: the
/// same rows in any other arrangement come out in the same order.
pub proof fn law_order_ignores_arrival(
    a: Seq<usize>,
    ka: Seq<Key>,
    b: Seq<usize>,
    kb: Seq<Key>,
)
    requires
        is_order(a, ka),
        is_order(b, kb),
        ka.to_multiset() == kb.to_multiset(),
        ka.len() <= usize::MAX,
    ensures
        arranged(a, ka) == arranged(b, kb),
{
    ka.to_multiset_ensures();
    kb.to_multiset_ensures();
    lemma_order_distinct(a, ka);
    lemma_order_distinct(b, kb);
    lemma_arranged_multiset(a, ka);
    lemma_arranged_multiset(b, kb);
    lemma_arranged_sorted(a, ka);
    lemma_arranged_sorted(b, kb);
    lemma_sorted_unique(arranged(a, ka), arranged(b, kb));
}

/// Two arrangements of the same items have the same keys.
pub proof fn lemma_same_keys(a: Seq<usize>, b: Seq<usize>, key: spec_fn(usize) -> Key)
    requires
        a.to_multiset() == b.to_multiset(),
    ensures
        a.map_values(key).to_multiset() == b.map_values(key).to_multiset(),
    decreases a.len(),
{
    a.to_multiset_ensures();
    b.to_multiset_ensures();
    if a.len() == 0 {
        assert(a.map_values(key) =~= b.map_values(key));
    } else {
        let x = a.last();
        let n = a.len() - 1;
        assert(a.contains(x));
        assert(b.to_multiset().count(x) > 0);
        assert(b.contains(x));
        let at = b.index_of(x);
        let a2 = a.remove(n);
        let b2 = b.remove(at);
        assert(a2.to_multiset() =~= b2.to_multiset());
        lemma_same_keys(a2, b2, key);
        let ka = a.map_values(key);
        let kb = b.map_values(key);
        ka.to_multiset_ensures();
        kb.to_multiset_ensures();
        assert(ka.remove(n) =~= a2.map_values(key));
        assert(kb.remove(at) =~= b2.map_values(key));
        assert(ka[n] == key(x) && kb[at] == key(x));
        assert(ka.contains(key(x)) && kb.contains(key(x)));
        assert(ka.to_multiset() =~= ka.to_multiset().remove(key(x)).insert(key(x)));
        assert(kb.to_multiset() =~= kb.to_multiset().remove(key(x)).insert(key(x)));
    }
}

spec fn key_sorted(s: Seq<Key>) -> bool {
    forall|i: int, j: int| 0 <= i < j < s.len() ==> !key_lt(#[trigger] s[j], #[trigger] s[i])
}

proof fn lemma_arranged_sorted(r: Seq<usize>, ks: Seq<Key>)
    requires
        is_order(r, ks),
    ensures
        key_sorted(arranged(r, ks)),
{
    let s = arranged(r, ks);
    assert forall|i: int, j: int| 0 <= i < j < s.len() implies !key_lt(
        #[trigger] s[j],
        #[trigger] s[i],
    ) by {
        assert(before(ks, r[i] as int, r[j] as int));
        if key_lt(s[i], s[j]) {
            lemma_key_asymmetric(s[i], s[j]);
        } else {
            lemma_key_irreflexive(s[i]);
        }
    }
}

/// Arranging rows keeps each as often as it came.
proof fn lemma_arranged_multiset(r: Seq<usize>, ks: Seq<Key>)
    requires
        r.len() == ks.len(),
        ks.len() <= usize::MAX,
        r.no_duplicates(),
        forall|i: int| 0 <= i < r.len() ==> (#[trigger] r[i]) < ks.len(),
        forall|k: usize| k < ks.len() ==> #[trigger] r.contains(k),
    ensures
        arranged(r, ks).to_multiset() == ks.to_multiset(),
    decreases ks.len(),
{
    let s = arranged(r, ks);
    s.to_multiset_ensures();
    ks.to_multiset_ensures();
    if ks.len() == 0 {
        assert(s =~= ks);
    } else {
        let n = (ks.len() - 1) as usize;
        assert(r.contains(n));
        let at = r.index_of(n);
        let r2 = r.remove(at);
        let ks2 = ks.drop_last();
        assert forall|i: int| 0 <= i < r2.len() implies (#[trigger] r2[i]) < ks2.len() by {
            if i < at {
                assert(r2[i] == r[i]);
            } else {
                assert(r2[i] == r[i + 1]);
            }
        }
        assert forall|k: usize| k < ks2.len() implies #[trigger] r2.contains(k) by {
            assert(r.contains(k));
            let i = r.index_of(k);
            if i < at {
                assert(r2[i] == k);
            } else {
                assert(r2[i - 1] == k);
            }
        }
        assert(r2.no_duplicates());
        lemma_arranged_multiset(r2, ks2);
        assert(s.remove(at) =~= arranged(r2, ks2));
        assert(ks.remove(n as int) =~= ks2);
        let last = ks[n as int];
        assert(s[at] == last);
        assert(s.to_multiset() =~= s.to_multiset().remove(last).insert(last)) by {
            assert(s.contains(last));
        }
        assert(ks.to_multiset() =~= ks.to_multiset().remove(last).insert(last)) by {
            assert(ks.contains(last));
        }
    }
}

/// Two sorted lists of the same keys are the same list.
proof fn lemma_sorted_unique(x: Seq<Key>, y: Seq<Key>)
    requires
        key_sorted(x),
        key_sorted(y),
        x.to_multiset() == y.to_multiset(),
    ensures
        x == y,
    decreases x.len(),
{
    x.to_multiset_ensures();
    y.to_multiset_ensures();
    if x.len() == 0 {
        assert(x =~= y);
    } else {
        let a = x.last();
        let b = y.last();
        assert(x[x.len() - 1] == a && y[y.len() - 1] == b);
        assert(x.to_multiset().count(a) > 0 && y.to_multiset().count(b) > 0);
        assert(y.contains(a) && x.contains(b));
        let p = y.index_of(a);
        let q = x.index_of(b);
        if a != b {
            assert(!key_lt(y[y.len() - 1], y[p]));
            assert(!key_lt(x[x.len() - 1], x[q]));
            lemma_key_total(a, b);
        }
        assert(x.remove(x.len() - 1) =~= x.drop_last());
        assert(y.remove(y.len() - 1) =~= y.drop_last());
        lemma_sorted_unique(x.drop_last(), y.drop_last());
        assert(x =~= x.drop_last().push(a));
        assert(y =~= y.drop_last().push(b));
    }
}

/// Texts are ordered as in a dictionary: at the first place where two of them
/// differ, the smaller letter comes first, and a text comes before every longer
/// one that begins with it.
pub proof fn law_the_first_difference_decides(common: Chars, a: Chars, b: Chars)
    ensures
        a.len() > 0 && b.len() > 0 && a[0] < b[0] ==> lex_lt(common + a, common + b),
        a.len() > 0 && b.len() > 0 && a[0] > b[0] ==> !lex_lt(common + a, common + b),
        a.len() == 0 ==> (lex_lt(common + a, common + b) <==> b.len() > 0),
        b.len() == 0 ==> !lex_lt(common + a, common + b),
    decreases common.len(),
{
    if common.len() == 0 {
        assert(common + a =~= a);
        assert(common + b =~= b);
    } else {
        law_the_first_difference_decides(common.drop_first(), a, b);
        assert((common + a).drop_first() =~= common.drop_first() + a);
        assert((common + b).drop_first() =~= common.drop_first() + b);
    }
}

/// Rows stand by their number; those of one number by their name; those of one
/// name by the second; and rows alike in all three as they came.
pub proof fn law_rows_stand_by_number_name_and_second(
    r: Seq<usize>,
    ks: Seq<Key>,
    i: int,
    j: int,
)
    requires
        is_order(r, ks),
        0 <= i < j < r.len(),
    ensures
        ({
            let a = ks[r[i] as int];
            let b = ks[r[j] as int];
            &&& a.rank <= b.rank
            &&& a.rank == b.rank ==> a.name == b.name || lex_lt(a.name, b.name)
            &&& a.rank == b.rank && a.name == b.name ==> a.tie == b.tie || lex_lt(a.tie, b.tie)
            &&& a.rank == b.rank && a.name == b.name && a.tie == b.tie ==> r[i] < r[j]
        }),
{
    assert(before(ks, r[i] as int, r[j] as int));
    lemma_lex_irreflexive(ks[r[i] as int].name);
    lemma_lex_irreflexive(ks[r[i] as int].tie);
}

/// Every row has its place, and only one.
pub proof fn law_an_order_leaves_nothing_out(r: Seq<usize>, ks: Seq<Key>)
    requires
        is_order(r, ks),
    ensures
        r.len() == ks.len(),
        r.no_duplicates(),
        forall|k: usize| k < ks.len() <==> #[trigger] r.contains(k),
{
    lemma_order_distinct(r, ks);
}

} // verus!
