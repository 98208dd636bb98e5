//! Files bucketed by their top-level folder, and each bucket's weight.
//!
//! A flat list of paths says what a session holds but not where its weight
//! sits. [`group_files`] collects the files of each top-level folder, with the
//! files at the root under [`ROOT_NAME`], and orders both the groups and the
//! files inside them. Groups carry indices into the caller's list. Every
//! comparison breaks its ties, so the result depends on the list alone.

use crate::order::{self, ascending, Entry, Key};
use crate::text::{self, chars, decimal, ending, fold_case, same, Chars};
use vstd::prelude::*;

verus! {

/// How groups and the files inside them are ordered.
#[derive(Clone, Copy, PartialEq, Eq, Debug, Structural)]
pub enum SortMode {
    /// Alphabetical, without regard to case.
    Name,
    /// Largest first.
    Size,
}

impl Default for SortMode {
    fn default() -> (r: Self)
        ensures
            r == SortMode::Name,
    {
        SortMode::Name
    }
}

/// The files of one top-level folder, or of the session root.
#[derive(Debug, Clone)]
pub struct Group {
    /// The folder's name, or [`ROOT_NAME`] for files at the root.
    pub name: String,
    /// Indices into the list that was grouped, in order.
    pub indices: Vec<usize>,
    /// The bytes of this group's files.
    pub bytes: u64,
    /// The bytes of all files, which [`Group::share`] measures `bytes` by.
    pub total: u64,
    /// True for the session root, so that it can be told from a folder that
    /// happens to carry the same name.
    pub root: bool,
}

/// The name shown for files that sit directly in the session root.
pub const ROOT_NAME: &'static str = "in this folder";

/// The key of the session root. No path segment can hold the character it
/// begins with, so no folder shares it.
pub const ROOT_KEY: &'static str = "\0root";

// ---------------------------------------------------------------------------
// Paths
// ---------------------------------------------------------------------------

/// Either of the two characters that part a path.
pub open spec fn is_separator(c: char) -> bool {
    c == '/' || c == '\\'
}

/// Whether a character parts a path.
pub fn separator(c: char) -> (r: bool)
    ensures
        r == is_separator(c),
{
    c == '/' || c == '\\'
}

/// The first separator of `path` at or after `from`.
pub open spec fn next_separator(path: Chars, from: int) -> Option<int>
    decreases path.len() - from,
{
    if from >= path.len() {
        None
    } else if is_separator(path[from]) {
        Some(from)
    } else {
        next_separator(path, from + 1)
    }
}

/// The segment in front of the first separator; empty where there is none.
pub open spec fn top(path: Chars) -> Chars {
    match next_separator(path, 0) {
        Some(cut) => path.take(cut),
        None => Seq::empty(),
    }
}

/// The leading segment of `path`, or "" when the path has no separator.
pub fn top_segment(path: &str) -> (r: &str)
    ensures
        r@ == top(path@),
{
    let cs: Vec<char> = chars(path);
    let mut i: usize = 0;
    while i < cs.len()
        invariant
            i <= cs.len(),
            cs@ == path@,
            next_separator(path@, 0) == next_separator(path@, i as int),
        decreases cs.len() - i,
    {
        if separator(cs[i]) {
            proof {
                assert(path@.take(i as int) =~= path@.subrange(0, i as int));
                lemma_separator_inside(path@, i as int);
            }
            return path.substring_char(0, i);
        }
        i = i + 1;
    }
    proof {
        assert(path@.subrange(0, 0) =~= Seq::<char>::empty());
    }
    path.substring_char(0, 0)
}

proof fn lemma_separator_inside(path: Chars, i: int)
    requires
        0 <= i < path.len(),
        is_separator(path[i]),
        next_separator(path, 0) == next_separator(path, i),
    ensures
        next_separator(path, 0) == Some(i),
{
}

// ---------------------------------------------------------------------------
// The model
// ---------------------------------------------------------------------------

/// The path of file `i`; empty where there is no such file.
pub open spec fn path_of(files: Seq<(String, u64)>, i: int) -> Chars {
    if 0 <= i < files.len() {
        files[i].0@
    } else {
        Seq::empty()
    }
}

/// The size of file `i`; zero where there is no such file.
pub open spec fn size_of(files: Seq<(String, u64)>, i: int) -> nat {
    if 0 <= i < files.len() {
        files[i].1 as nat
    } else {
        0
    }
}

/// What a size contributes to an order: nothing by name, largest first by size.
pub open spec fn size_rank(size: nat, sort: SortMode) -> nat {
    match sort {
        SortMode::Name => 0,
        SortMode::Size => (u64::MAX - size) as nat,
    }
}

/// What file `i` is ordered by inside its group.
pub open spec fn file_key(files: Seq<(String, u64)>, i: int, sort: SortMode) -> Key {
    Key {
        rank: size_rank(size_of(files, i), sort),
        name: text::folded(path_of(files, i)),
        tie: path_of(files, i),
    }
}

/// File `i` is shown before file `j` of the same group.
pub open spec fn file_before(files: Seq<(String, u64)>, i: int, j: int, sort: SortMode) -> bool {
    ||| order::key_lt(file_key(files, i, sort), file_key(files, j, sort))
    ||| file_key(files, i, sort) == file_key(files, j, sort) && i < j
}

/// The key of the group a path belongs to.
pub open spec fn group_key(path: Chars) -> Chars {
    if top(path).len() == 0 {
        ROOT_KEY@
    } else {
        top(path)
    }
}

/// The name a group is shown under.
pub open spec fn shown_name(key: Chars) -> Chars {
    if key == ROOT_KEY@ {
        ROOT_NAME@
    } else {
        key
    }
}

/// The bytes of those among the first `n` files that belong to `key`.
pub open spec fn bytes_under(files: Seq<(String, u64)>, key: Chars, n: int) -> nat
    decreases n,
{
    if n <= 0 {
        0
    } else {
        bytes_under(files, key, n - 1) + if group_key(files[n - 1].0@) == key {
            files[n - 1].1 as nat
        } else {
            0
        }
    }
}

/// The bytes of the first `n` files.
pub open spec fn bytes_total(files: Seq<(String, u64)>, n: int) -> nat
    decreases n,
{
    if n <= 0 {
        0
    } else {
        bytes_total(files, n - 1) + files[n - 1].1 as nat
    }
}

/// The largest amount a `u64` can hold at most.
pub open spec fn capped(n: nat) -> nat {
    if n > u64::MAX {
        u64::MAX as nat
    } else {
        n
    }
}

/// What `bytes` are of `total`, in millionths: the whole millionths of the
/// fraction, and nothing where there are no bytes at all.
pub open spec fn share_of(bytes: nat, total: nat) -> nat {
    if total == 0 {
        0
    } else {
        bytes * 1_000_000 / total
    }
}

impl Group {
    /// The key of the group.
    pub open spec fn key(&self) -> Chars {
        if self.root {
            ROOT_KEY@
        } else {
            self.name@
        }
    }

    /// What the group is ordered by.
    pub open spec fn rank(&self, sort: SortMode) -> Key {
        Key {
            rank: size_rank(self.bytes as nat, sort),
            name: text::folded(self.name@),
            tie: self.key(),
        }
    }

    /// The group's share of the session in millionths, 0 to 1000000; 0 where
    /// the session holds no bytes.
    pub fn share(&self) -> (r: i64)
        requires
            self.bytes <= self.total,
        ensures
            r == share_of(self.bytes as nat, self.total as nat),
            0 <= r <= 1_000_000,
    {
        proof {
            lemma_share_bounded(self.bytes as nat, self.total as nat);
        }
        if self.total == 0 {
            0
        } else {
            (self.bytes as u128 * 1_000_000 / self.total as u128) as i64
        }
    }
}

/// A part of the whole is at most all of it.
proof fn lemma_share_bounded(bytes: nat, total: nat)
    requires
        bytes <= total,
    ensures
        share_of(bytes, total) <= 1_000_000,
{
    if total > 0 {
        assert(bytes * 1_000_000 / total <= 1_000_000) by (nonlinear_arith)
            requires
                bytes <= total,
                total > 0,
        ;
    }
}

/// `indices` holds the files of `key` among the first `n`, and only those.
pub open spec fn holds_files_of(
    indices: Seq<usize>,
    files: Seq<(String, u64)>,
    key: Chars,
    n: int,
) -> bool {
    forall|i: usize| #[trigger]
        indices.contains(i) <==> i < n && i < files.len() && group_key(files[i as int].0@) == key
}

/// `indices` are in the order of their files.
pub open spec fn in_file_order(
    indices: Seq<usize>,
    files: Seq<(String, u64)>,
    sort: SortMode,
) -> bool {
    forall|a: int, b: int|
        0 <= a < b < indices.len() ==> file_before(
            files,
            (#[trigger] indices[a]) as int,
            (#[trigger] indices[b]) as int,
            sort,
        )
}

/// `g` is the group of its key.
pub open spec fn is_group(g: Group, files: Seq<(String, u64)>, sort: SortMode) -> bool {
    &&& g.name@ == shown_name(g.key())
    &&& g.indices@.len() > 0
    &&& holds_files_of(g.indices@, files, g.key(), files.len() as int)
    &&& in_file_order(g.indices@, files, sort)
    &&& g.bytes == capped(bytes_under(files, g.key(), files.len() as int))
    &&& g.total == capped(bytes_total(files, files.len() as int))
}

/// `gs` are the groups of `files`, one for each key, in order.
pub open spec fn is_grouping(gs: Seq<Group>, files: Seq<(String, u64)>, sort: SortMode) -> bool {
    &&& forall|r: int| 0 <= r < gs.len() ==> is_group(#[trigger] gs[r], files, sort)
    &&& forall|r: int, s: int|
        0 <= r < s < gs.len() ==> order::key_lt(
            (#[trigger] gs[r]).rank(sort),
            (#[trigger] gs[s]).rank(sort),
        )
    &&& forall|i: int|
        #![trigger files[i]]
        0 <= i < files.len() ==> exists|r: int|
            0 <= r < gs.len() && (#[trigger] gs[r]).key() == group_key(files[i].0@)
}

// ---------------------------------------------------------------------------
// Ordering files
// ---------------------------------------------------------------------------

/// The path of file `i`, or "" where there is no such file.
pub fn path_at(files: &[(String, u64)], i: usize) -> (r: &str)
    ensures
        r@ == path_of(files@, i as int),
{
    if i < files.len() {
        files[i].0.as_str()
    } else {
        proof {
            reveal_strlit("");
            assert(""@ =~= Seq::<char>::empty());
        }
        ""
    }
}

/// The size of file `i`, or 0 where there is no such file.
pub fn size_at(files: &[(String, u64)], i: usize) -> (r: u64)
    ensures
        r == size_of(files@, i as int),
{
    if i < files.len() {
        files[i].1
    } else {
        0
    }
}

fn rank_at(size: u64, sort: SortMode) -> (r: u64)
    ensures
        r == size_rank(size as nat, sort),
{
    match sort {
        SortMode::Name => 0,
        SortMode::Size => u64::MAX - size,
    }
}

/// The keys of the files that a list of indices names.
pub open spec fn file_keys(
    indices: Seq<usize>,
    files: Seq<(String, u64)>,
    sort: SortMode,
) -> Seq<Key> {
    Seq::new(indices.len(), |a: int| file_key(files, indices[a] as int, sort))
}

/// The places of `indices` in the order of their files; equal files keep the
/// order in which they are listed.
fn file_order(indices: &Vec<usize>, files: &[(String, u64)], sort: SortMode) -> (perm: Vec<usize>)
    ensures
        order::is_order(perm@, file_keys(indices@, files@, sort)),
{
    let mut es: Vec<Entry> = Vec::new();
    let mut a: usize = 0;
    while a < indices.len()
        invariant
            a <= indices.len(),
            es.len() == a,
            forall|b: int|
                0 <= b < a ==> (#[trigger] es@[b])@ == file_key(files@, indices@[b] as int, sort),
        decreases indices.len() - a,
    {
        es.push(
            Entry {
                rank: rank_at(size_at(files, indices[a]), sort),
                name: fold_case(path_at(files, indices[a])),
                tie: text::chars(path_at(files, indices[a])),
            },
        );
        a = a + 1;
    }
    proof {
        assert(order::keys_of(es@) =~= file_keys(indices@, files@, sort));
    }
    ascending(&es)
}

/// `after` is `before` rearranged by an order of the keys of its files.
pub open spec fn is_sorted_by_file(
    after: Seq<usize>,
    before: Seq<usize>,
    files: Seq<(String, u64)>,
    sort: SortMode,
) -> bool {
    exists|perm: Seq<usize>|
        order::is_order(perm, file_keys(before, files, sort)) && after == Seq::new(
            before.len(),
            |a: int| before[perm[a] as int],
        )
}

/// Orders a list of indices in place. Ties fall back to the path without
/// regard to case, and then to the path as it is written, so that the order in
/// which the indices were listed tells only apart what is the same path. An index
/// without a file counts as an empty path of no bytes.
pub fn sort_indices(indices: &mut Vec<usize>, files: &[(String, u64)], sort: SortMode)
    ensures
        is_sorted_by_file(final(indices)@, old(indices)@, files@, sort),
{
    let perm: Vec<usize> = file_order(indices, files, sort);
    let ghost was = indices@;
    let mut out: Vec<usize> = Vec::new();
    let mut a: usize = 0;
    while a < perm.len()
        invariant
            a <= perm.len(),
            was == indices@,
            order::is_order(perm@, file_keys(was, files@, sort)),
            out.len() == a,
            forall|b: int| 0 <= b < a ==> out@[b] == was[perm@[b] as int],
        decreases perm.len() - a,
    {
        out.push(indices[perm[a]]);
        a = a + 1;
    }
    proof {
        assert(out@ =~= Seq::new(was.len(), |a: int| was[perm@[a] as int]));
    }
    *indices = out;
}

/// A sorted list holds what the list before it held.
pub proof fn law_sort_keeps_indices(
    after: Seq<usize>,
    before: Seq<usize>,
    files: Seq<(String, u64)>,
    sort: SortMode,
)
    requires
        is_sorted_by_file(after, before, files, sort),
        before.len() <= usize::MAX,
    ensures
        after.len() == before.len(),
        forall|i: usize| after.contains(i) == before.contains(i),
{
    let ks = file_keys(before, files, sort);
    let perm = choose|perm: Seq<usize>|
        order::is_order(perm, ks) && after == Seq::new(
            before.len(),
            |a: int| before[perm[a] as int],
        );
    assert forall|i: usize| after.contains(i) == before.contains(i) by {
        if after.contains(i) {
            let a = after.index_of(i);
            assert(before[perm[a] as int] == i);
        }
        if before.contains(i) {
            let b = before.index_of(i);
            assert(perm.contains(b as usize));
            let a = perm.index_of(b as usize);
            assert(after[a] == i);
        }
    }
}

/// The order does not depend on the one in which the indices were listed: two
/// arrangements of the same indices, whose paths all differ, are sorted to one
/// list.
pub proof fn law_sort_ignores_the_listed_order(
    a: Seq<usize>,
    was_a: Seq<usize>,
    b: Seq<usize>,
    was_b: Seq<usize>,
    files: Seq<(String, u64)>,
    sort: SortMode,
)
    requires
        is_sorted_by_file(a, was_a, files, sort),
        is_sorted_by_file(b, was_b, files, sort),
        was_a.to_multiset() == was_b.to_multiset(),
        was_a.len() <= usize::MAX,
        forall|i: usize, j: usize|
            was_a.contains(i) && was_a.contains(j) && path_of(files, i as int) == path_of(
                files,
                j as int,
            ) ==> i == j,
    ensures
        a == b,
{
    let ka = file_keys(was_a, files, sort);
    let kb = file_keys(was_b, files, sort);
    let pa = choose|perm: Seq<usize>|
        order::is_order(perm, ka) && a == Seq::new(was_a.len(), |x: int| was_a[perm[x] as int]);
    let pb = choose|perm: Seq<usize>|
        order::is_order(perm, kb) && b == Seq::new(was_b.len(), |x: int| was_b[perm[x] as int]);
    let f = |i: usize| file_key(files, i as int, sort);
    was_a.to_multiset_ensures();
    was_b.to_multiset_ensures();
    order::lemma_same_keys(was_a, was_b, f);
    assert(was_a.map_values(f) =~= ka);
    assert(was_b.map_values(f) =~= kb);
    order::law_order_ignores_arrival(pa, ka, pb, kb);
    assert forall|x: int| 0 <= x < a.len() implies a[x] == b[x] by {
        assert(order::arranged(pa, ka)[x] == order::arranged(pb, kb)[x]);
        assert(ka[pa[x] as int].tie == path_of(files, a[x] as int));
        assert(kb[pb[x] as int].tie == path_of(files, b[x] as int));
        assert(was_a.contains(a[x]));
        assert(was_b.contains(b[x]));
        assert(was_b.to_multiset().count(b[x]) > 0);
        assert(was_a.contains(b[x]));
    }
    assert(a =~= b);
}

/// A list of ascending indices comes out in the order of its files.
proof fn lemma_sorted_in_file_order(
    after: Seq<usize>,
    before: Seq<usize>,
    files: Seq<(String, u64)>,
    sort: SortMode,
)
    requires
        is_sorted_by_file(after, before, files, sort),
        forall|a: int, b: int| 0 <= a < b < before.len() ==> before[a] < before[b],
    ensures
        in_file_order(after, files, sort),
{
    let ks = file_keys(before, files, sort);
    let perm = choose|perm: Seq<usize>|
        order::is_order(perm, ks) && after == Seq::new(
            before.len(),
            |a: int| before[perm[a] as int],
        );
    assert forall|a: int, b: int| 0 <= a < b < after.len() implies file_before(
        files,
        (#[trigger] after[a]) as int,
        (#[trigger] after[b]) as int,
        sort,
    ) by {
        assert(order::before(ks, perm[a] as int, perm[b] as int));
    }
}

// ---------------------------------------------------------------------------
// Grouping
// ---------------------------------------------------------------------------

struct Bucket {
    key: String,
    indices: Vec<usize>,
    bytes: u64,
}

/// The bucket holds the files of its key among the first `n`.
spec fn is_bucket(b: Bucket, files: Seq<(String, u64)>, n: int) -> bool {
    &&& b.indices@.len() > 0
    &&& holds_files_of(b.indices@, files, b.key@, n)
    &&& forall|i: int, j: int| 0 <= i < j < b.indices@.len() ==> b.indices@[i] < b.indices@[j]
    &&& b.bytes == capped(bytes_under(files, b.key@, n))
}

spec fn are_buckets(bs: Seq<Bucket>, files: Seq<(String, u64)>, n: int) -> bool {
    &&& forall|b: int| 0 <= b < bs.len() ==> is_bucket(#[trigger] bs[b], files, n)
    &&& forall|b: int, c: int|
        0 <= b < c < bs.len() ==> (#[trigger] bs[b]).key@ != (#[trigger] bs[c]).key@
    &&& forall|i: int|
        #![trigger files[i]]
        0 <= i < n ==> exists|b: int|
            0 <= b < bs.len() && (#[trigger] bs[b]).key@ == group_key(files[i].0@)
}

fn find_bucket(bs: &Vec<Bucket>, key: &str) -> (r: Option<usize>)
    ensures
        match r {
            Some(b) => b < bs.len() && bs@[b as int].key@ == key@,
            None => forall|b: int| 0 <= b < bs.len() ==> (#[trigger] bs@[b]).key@ != key@,
        },
{
    let mut b: usize = 0;
    while b < bs.len()
        invariant
            b <= bs.len(),
            forall|c: int| 0 <= c < b ==> (#[trigger] bs@[c]).key@ != key@,
        decreases bs.len() - b,
    {
        if same(bs[b].key.as_str(), key) {
            return Some(b);
        }
        b = b + 1;
    }
    None
}

fn add_capped(a: u64, b: u64) -> (r: u64)
    ensures
        r == capped((a + b) as nat),
{
    if a > u64::MAX - b {
        u64::MAX
    } else {
        a + b
    }
}

/// A bucket stays one when a file of another key comes.
proof fn lemma_bucket_passes(b: Bucket, files: Seq<(String, u64)>, n: int)
    requires
        is_bucket(b, files, n),
        0 <= n < files.len(),
        group_key(files[n].0@) != b.key@,
    ensures
        is_bucket(b, files, n + 1),
{
    assert forall|i: usize| #[trigger] b.indices@.contains(i) <==> i < n + 1 && i < files.len()
        && group_key(files[i as int].0@) == b.key@ by {
        if i == n {
            assert(!b.indices@.contains(i));
        }
    }
}

/// A bucket takes in the next file of its own key.
proof fn lemma_bucket_takes(b: Bucket, c: Bucket, files: Seq<(String, u64)>, n: usize)
    requires
        is_bucket(b, files, n as int),
        n < files.len(),
        group_key(files[n as int].0@) == b.key@,
        c.key@ == b.key@,
        c.indices@ == b.indices@.push(n),
        c.bytes == capped((b.bytes + files[n as int].1) as nat),
    ensures
        is_bucket(c, files, n + 1),
{
    assert forall|i: usize| #[trigger] c.indices@.contains(i) <==> i < n + 1 && i < files.len()
        && group_key(files[i as int].0@) == c.key@ by {
        if c.indices@.contains(i) {
            let a = c.indices@.index_of(i);
            if a < b.indices@.len() {
                assert(b.indices@[a] == i);
                assert(b.indices@.contains(i));
            }
        }
        if i < n && b.indices@.contains(i) {
            assert(c.indices@[b.indices@.index_of(i)] == i);
        }
        if i < n && group_key(files[i as int].0@) == c.key@ {
            assert(b.indices@.contains(i));
        }
        assert(c.indices@[b.indices@.len() as int] == n);
    }
    assert forall|i: int, j: int| 0 <= i < j < c.indices@.len() implies c.indices@[i]
        < c.indices@[j] by {
        if j == b.indices@.len() {
            assert(b.indices@.contains(b.indices@[i]));
        }
    }
}

/// A first file opens a bucket.
proof fn lemma_bucket_opens(c: Bucket, files: Seq<(String, u64)>, n: usize)
    requires
        n < files.len(),
        c.key@ == group_key(files[n as int].0@),
        c.indices@ == seq![n],
        c.bytes == files[n as int].1,
        forall|i: int| 0 <= i < n ==> group_key(#[trigger] files[i].0@) != c.key@,
    ensures
        is_bucket(c, files, n + 1),
{
    lemma_bytes_none(files, c.key@, n as int);
    assert forall|i: usize| #[trigger] c.indices@.contains(i) <==> i < n + 1 && i < files.len()
        && group_key(files[i as int].0@) == c.key@ by {
        assert(c.indices@[0] == n);
        if i < n {
            assert(group_key(files[i as int].0@) != c.key@);
        }
    }
}

proof fn lemma_bytes_none(files: Seq<(String, u64)>, key: Chars, n: int)
    requires
        0 <= n <= files.len(),
        forall|i: int| 0 <= i < n ==> group_key(#[trigger] files[i].0@) != key,
    ensures
        bytes_under(files, key, n) == 0,
    decreases n,
{
    if n > 0 {
        lemma_bytes_none(files, key, n - 1);
    }
}

fn buckets_of(files: &[(String, u64)]) -> (r: (Vec<Bucket>, u64))
    ensures
        are_buckets(r.0@, files@, files@.len() as int),
        r.1 == capped(bytes_total(files@, files@.len() as int)),
{
    let mut bs: Vec<Bucket> = Vec::new();
    let mut total: u64 = 0;
    let mut n: usize = 0;
    while n < files.len()
        invariant
            n <= files@.len(),
            are_buckets(bs@, files@, n as int),
            total == capped(bytes_total(files@, n as int)),
        decreases files@.len() - n,
    {
        let seg: &str = top_segment(files[n].0.as_str());
        let key: &str = if seg.is_empty() {
            ROOT_KEY
        } else {
            seg
        };
        let size: u64 = files[n].1;
        let ghost was = bs@;
        match find_bucket(&bs, key) {
            Some(b) => {
                let mut taken: Bucket = Bucket {
                    key: key.to_owned(),
                    indices: Vec::new(),
                    bytes: add_capped(bs[b].bytes, size),
                };
                std::mem::swap(&mut taken.indices, &mut bs[b].indices);
                taken.indices.push(n);
                bs.set(b, taken);
                proof {
                    lemma_bucket_takes(was[b as int], bs@[b as int], files@, n);
                    assert forall|c: int| 0 <= c < bs@.len() implies is_bucket(
                        #[trigger] bs@[c],
                        files@,
                        n + 1,
                    ) by {
                        if c != b {
                            assert(bs@[c] == was[c]);
                            lemma_bucket_passes(was[c], files@, n as int);
                        }
                    }
                    assert forall|i: int|
                        #![trigger files@[i]]
                        0 <= i < n + 1 implies exists|c: int|
                        0 <= c < bs@.len() && (#[trigger] bs@[c]).key@ == group_key(
                            files@[i].0@,
                        ) by {
                        if i < n {
                            let c = choose|c: int|
                                0 <= c < was.len() && (#[trigger] was[c]).key@ == group_key(
                                    files@[i].0@,
                                );
                            assert(bs@[c].key@ == was[c].key@);
                        } else {
                            assert(bs@[b as int].key@ == group_key(files@[i].0@));
                        }
                    }
                }
            },
            None => {
                let mut indices: Vec<usize> = Vec::new();
                indices.push(n);
                bs.push(Bucket { key: key.to_owned(), indices, bytes: size });
                proof {
                    let last = bs@[was.len() as int];
                    assert(last.indices@ =~= seq![n]);
                    assert forall|i: int| 0 <= i < n implies group_key(#[trigger] files@[i].0@)
                        != last.key@ by {
                        let c = choose|c: int|
                            0 <= c < was.len() && (#[trigger] was[c]).key@ == group_key(
                                files@[i].0@,
                            );
                        assert(was[c].key@ != key@);
                    }
                    lemma_bucket_opens(last, files@, n);
                    assert forall|c: int| 0 <= c < bs@.len() implies is_bucket(
                        #[trigger] bs@[c],
                        files@,
                        n + 1,
                    ) by {
                        if c < was.len() {
                            assert(bs@[c] == was[c]);
                            lemma_bucket_passes(was[c], files@, n as int);
                        }
                    }
                    assert forall|i: int|
                        #![trigger files@[i]]
                        0 <= i < n + 1 implies exists|c: int|
                        0 <= c < bs@.len() && (#[trigger] bs@[c]).key@ == group_key(
                            files@[i].0@,
                        ) by {
                        if i < n {
                            let c = choose|c: int|
                                0 <= c < was.len() && (#[trigger] was[c]).key@ == group_key(
                                    files@[i].0@,
                                );
                            assert(bs@[c] == was[c]);
                        } else {
                            assert(last.key@ == group_key(files@[i].0@));
                        }
                    }
                }
            },
        }
        total = add_capped(total, size);
        n = n + 1;
    }
    (bs, total)
}

/// The group a bucket is shown as.
fn group_of(b: &Bucket, total: u64, files: &[(String, u64)], sort: SortMode) -> (g: Group)
    requires
        is_bucket(*b, files@, files@.len() as int),
        total == capped(bytes_total(files@, files@.len() as int)),
    ensures
        is_group(g, files@, sort),
        g.key() == b.key@,
        g.bytes == b.bytes,
{
    let mut indices: Vec<usize> = b.indices.clone();
    proof {
        assert(indices@ =~= b.indices@);
    }
    sort_indices(&mut indices, files, sort);
    proof {
        lemma_sorted_in_file_order(indices@, b.indices@, files@, sort);
        law_sort_keeps_indices(indices@, b.indices@, files@, sort);
        assert forall|i: usize| #[trigger] indices@.contains(i) <==> i < files@.len() && group_key(
            files@[i as int].0@,
        ) == b.key@ by {
            assert(indices@.contains(i) == b.indices@.contains(i));
        }
    }
    let root: bool = same(b.key.as_str(), ROOT_KEY);
    let name: String = if root {
        ROOT_NAME.to_owned()
    } else {
        b.key.clone()
    };
    Group { name, indices, bytes: b.bytes, total, root }
}

/// Groups `files`, each a path and a size, by top-level folder, and orders both
/// the groups and each group's indices by `sort`.
pub fn group_files(files: &[(String, u64)], sort: SortMode) -> (gs: Vec<Group>)
    ensures
        is_grouping(gs@, files@, sort),
        forall|r: int| 0 <= r < gs@.len() ==> (#[trigger] gs@[r]).bytes <= gs@[r].total,
{
    let (bs, total): (Vec<Bucket>, u64) = buckets_of(files);
    let mut es: Vec<Entry> = Vec::new();
    let mut b: usize = 0;
    while b < bs.len()
        invariant
            b <= bs.len(),
            es.len() == b,
            forall|c: int|
                0 <= c < b ==> (#[trigger] es@[c])@ == (Key {
                    rank: size_rank(bs@[c].bytes as nat, sort),
                    name: text::folded(shown_name(bs@[c].key@)),
                    tie: bs@[c].key@,
                }),
        decreases bs.len() - b,
    {
        let key: &str = bs[b].key.as_str();
        let name: &str = if same(key, ROOT_KEY) {
            ROOT_NAME
        } else {
            key
        };
        es.push(
            Entry { rank: rank_at(bs[b].bytes, sort), name: fold_case(name), tie: chars(key) },
        );
        b = b + 1;
    }
    let perm: Vec<usize> = ascending(&es);
    let ghost ks = order::keys_of(es@);
    let mut gs: Vec<Group> = Vec::new();
    let mut a: usize = 0;
    while a < perm.len()
        invariant
            a <= perm.len(),
            perm.len() == bs.len(),
            ks.len() == bs.len(),
            order::is_order(perm@, ks),
            forall|c: int|
                0 <= c < bs.len() ==> (#[trigger] ks[c]) == (Key {
                    rank: size_rank(bs@[c].bytes as nat, sort),
                    name: text::folded(shown_name(bs@[c].key@)),
                    tie: bs@[c].key@,
                }),
            are_buckets(bs@, files@, files@.len() as int),
            total == capped(bytes_total(files@, files@.len() as int)),
            gs.len() == a,
            forall|r: int|
                0 <= r < a ==> is_group(#[trigger] gs@[r], files@, sort) && gs@[r].key()
                    == bs@[perm@[r] as int].key@ && gs@[r].rank(sort) == ks[perm@[r] as int],
        decreases perm.len() - a,
    {
        proof {
            assert(perm@[a as int] < ks.len());
        }
        gs.push(group_of(&bs[perm[a]], total, files, sort));
        a = a + 1;
    }
    proof {
        assert forall|r: int, s: int| 0 <= r < s < gs.len() implies order::key_lt(
            (#[trigger] gs@[r]).rank(sort),
            (#[trigger] gs@[s]).rank(sort),
        ) by {
            let x = perm@[r] as int;
            let y = perm@[s] as int;
            assert(order::before(ks, x, y));
            order::lemma_before_irreflexive(ks, x);
            assert(bs@[x].key@ != bs@[y].key@);
        }
        assert forall|i: int|
            #![trigger files@[i]]
            0 <= i < files@.len() implies exists|r: int|
            0 <= r < gs.len() && (#[trigger] gs@[r]).key() == group_key(files@[i].0@) by {
            let c = choose|c: int|
                0 <= c < bs@.len() && (#[trigger] bs@[c]).key@ == group_key(files@[i].0@);
            assert(perm@.contains(c as usize));
            let r = perm@.index_of(c as usize);
            assert(gs@[r].key() == bs@[c].key@);
        }
        assert forall|r: int| 0 <= r < gs@.len() implies (#[trigger] gs@[r]).bytes
            <= gs@[r].total by {
            law_group_within_total(files@, gs@[r].key(), files@.len() as int);
        }
    }
    gs
}

// ---------------------------------------------------------------------------
// Captions
// ---------------------------------------------------------------------------

/// A share in millionths as a whole percentage: rounded half up, held between
/// 0 and 100, and 0 where there is no share to tell.
pub open spec fn percent(share: Option<i64>) -> nat {
    match share {
        Some(m) => if m <= 0 {
            0
        } else if m >= 1_000_000 {
            100
        } else {
            ((m + 5_000) / 10_000) as nat
        },
        None => 0,
    }
}

/// A share in millionths as a whole percentage.
pub fn whole_percent(share: Option<i64>) -> (r: u64)
    ensures
        r == percent(share),
        r <= 100,
{
    match share {
        Some(m) => if m <= 0 {
            0
        } else if m >= 1_000_000 {
            100
        } else {
            ((m + 5_000) / 10_000) as u64
        },
        None => 0,
    }
}

/// A "3 files · 1.2 MB · 41%" line for a group. `size_text` is the byte count
/// already written out, and `share` the group's share of the session in
/// millionths, or `None` where it is no number.
pub fn group_caption(count: usize, size_text: &str, share: Option<i64>) -> (r: String)
    ensures
        r@ == text::dec(count as nat) + " file"@ + text::plural_end(count as nat) + " · "@
            + size_text@ + " · "@ + text::dec(percent(share)) + "%"@,
{
    let mut r: String = decimal(count as u64);
    r.append(" file");
    r.append(ending(count as u64));
    r.append(" · ");
    r.append(size_text);
    r.append(" · ");
    r.append(decimal(whole_percent(share)).as_str());
    r.append("%");
    r
}

// ---------------------------------------------------------------------------
// Laws
// ---------------------------------------------------------------------------

/// Every file is in exactly one group, and in it exactly once.
pub proof fn law_every_file_once(
    gs: Seq<Group>,
    files: Seq<(String, u64)>,
    sort: SortMode,
    i: usize,
)
    requires
        is_grouping(gs, files, sort),
        i < files.len(),
    ensures
        exists|r: int| 0 <= r < gs.len() && (#[trigger] gs[r]).indices@.contains(i),
        forall|r: int, s: int|
            0 <= r < gs.len() && 0 <= s < gs.len() && (#[trigger] gs[r]).indices@.contains(i) && (
            #[trigger] gs[s]).indices@.contains(i) ==> r == s,
        forall|r: int| 0 <= r < gs.len() ==> (#[trigger] gs[r]).indices@.no_duplicates(),
{
    let _ = files[i as int];
    let r = choose|r: int|
        0 <= r < gs.len() && (#[trigger] gs[r]).key() == group_key(files[i as int].0@);
    assert(is_group(gs[r], files, sort));
    assert(gs[r].indices@.contains(i));
    assert forall|r: int, s: int|
        0 <= r < gs.len() && 0 <= s < gs.len() && (#[trigger] gs[r]).indices@.contains(i) && (
        #[trigger] gs[s]).indices@.contains(i) implies r == s by {
        assert(is_group(gs[r], files, sort) && is_group(gs[s], files, sort));
        if r < s {
            lemma_groups_differ(gs, files, sort, r, s);
        } else if s < r {
            lemma_groups_differ(gs, files, sort, s, r);
        }
    }
    assert forall|r: int| 0 <= r < gs.len() implies (#[trigger] gs[r]).indices@.no_duplicates() by {
        let ix = gs[r].indices@;
        assert(is_group(gs[r], files, sort));
        assert forall|a: int, b: int| 0 <= a < b < ix.len() implies ix[a] != ix[b] by {
            assert(file_before(files, ix[a] as int, ix[b] as int, sort));
            order::lemma_key_irreflexive(file_key(files, ix[a] as int, sort));
        }
    }
}

/// Two groups never share a key.
proof fn lemma_groups_differ(
    gs: Seq<Group>,
    files: Seq<(String, u64)>,
    sort: SortMode,
    r: int,
    s: int,
)
    requires
        is_grouping(gs, files, sort),
        0 <= r < s < gs.len(),
    ensures
        gs[r].key() != gs[s].key(),
{
    assert(is_group(gs[r], files, sort) && is_group(gs[s], files, sort));
    assert(order::key_lt(gs[r].rank(sort), gs[s].rank(sort)));
    order::lemma_key_irreflexive(gs[r].rank(sort));
}

/// The groups of a list are determined by the list: two groupings agree in
/// number, names, bytes and order of files.
pub proof fn law_grouping_is_unique(
    a: Seq<Group>,
    b: Seq<Group>,
    files: Seq<(String, u64)>,
    sort: SortMode,
)
    requires
        is_grouping(a, files, sort),
        is_grouping(b, files, sort),
    ensures
        a.len() == b.len(),
        forall|r: int|
            0 <= r < a.len() ==> (#[trigger] a[r]).key() == b[r].key() && a[r].name@ == b[r].name@
                && a[r].bytes == b[r].bytes && a[r].total == b[r].total && a[r].indices@
                == b[r].indices@,
{
    lemma_groups_prefix(a, b, files, sort, a.len() as int);
    lemma_groups_prefix(b, a, files, sort, b.len() as int);
    assert forall|r: int| 0 <= r < a.len() implies (#[trigger] a[r]).key() == b[r].key()
        && a[r].name@ == b[r].name@ && a[r].bytes == b[r].bytes && a[r].total == b[r].total
        && a[r].indices@ == b[r].indices@ by {
        assert(is_group(a[r], files, sort) && is_group(b[r], files, sort));
        lemma_indices_prefix(a[r], b[r], files, sort, a[r].indices@.len() as int);
        lemma_indices_prefix(b[r], a[r], files, sort, b[r].indices@.len() as int);
        assert(a[r].indices@ =~= b[r].indices@);
    }
}

proof fn lemma_same_key_same_rank(
    x: Group,
    y: Group,
    files: Seq<(String, u64)>,
    sort: SortMode,
)
    requires
        is_group(x, files, sort),
        is_group(y, files, sort),
        x.key() == y.key(),
    ensures
        x.rank(sort) == y.rank(sort),
{
}

/// Every group of one grouping has its like in any other.
proof fn lemma_group_has_like(
    a: Seq<Group>,
    b: Seq<Group>,
    files: Seq<(String, u64)>,
    sort: SortMode,
    r: int,
) -> (s: int)
    requires
        is_grouping(a, files, sort),
        is_grouping(b, files, sort),
        0 <= r < a.len(),
    ensures
        0 <= s < b.len(),
        b[s].key() == a[r].key(),
        b[s].rank(sort) == a[r].rank(sort),
{
    assert(is_group(a[r], files, sort));
    let i = a[r].indices@[0];
    assert(a[r].indices@.contains(i));
    let _ = files[i as int];
    let s = choose|s: int|
        0 <= s < b.len() && (#[trigger] b[s]).key() == group_key(files[i as int].0@);
    assert(is_group(b[s], files, sort));
    lemma_same_key_same_rank(a[r], b[s], files, sort);
    s
}

proof fn lemma_groups_prefix(
    a: Seq<Group>,
    b: Seq<Group>,
    files: Seq<(String, u64)>,
    sort: SortMode,
    n: int,
)
    requires
        is_grouping(a, files, sort),
        is_grouping(b, files, sort),
        0 <= n <= a.len(),
    ensures
        n <= b.len(),
        forall|r: int| 0 <= r < n ==> (#[trigger] a[r]).key() == b[r].key(),
    decreases n,
{
    if n > 0 {
        lemma_groups_prefix(a, b, files, sort, n - 1);
        let s = lemma_group_has_like(a, b, files, sort, n - 1);
        if s < n - 1 {
            assert(a[s].key() == b[s].key());
            lemma_groups_differ(a, files, sort, s, n - 1);
        } else if s > n - 1 {
            let q = lemma_group_has_like(b, a, files, sort, n - 1);
            if q < n - 1 {
                assert(a[q].key() == b[q].key());
                lemma_groups_differ(b, files, sort, q, n - 1);
            }
            // b[n - 1] is before b[s], and what is like it in `a` is not.
            assert(order::key_lt(b[n - 1].rank(sort), b[s].rank(sort)));
            order::lemma_key_asymmetric(b[n - 1].rank(sort), b[s].rank(sort));
            if q > n - 1 {
                assert(order::key_lt(a[n - 1].rank(sort), a[q].rank(sort)));
            }
        }
    }
}

proof fn lemma_indices_prefix(
    x: Group,
    y: Group,
    files: Seq<(String, u64)>,
    sort: SortMode,
    n: int,
)
    requires
        is_group(x, files, sort),
        is_group(y, files, sort),
        x.key() == y.key(),
        0 <= n <= x.indices@.len(),
    ensures
        n <= y.indices@.len(),
        forall|i: int| 0 <= i < n ==> x.indices@[i] == y.indices@[i],
    decreases n,
{
    if n > 0 {
        lemma_indices_prefix(x, y, files, sort, n - 1);
        let xs = x.indices@;
        let ys = y.indices@;
        let i = xs[n - 1];
        assert(xs.contains(i));
        assert(ys.contains(i));
        let q = ys.index_of(i);
        if q < n - 1 {
            assert(file_before(files, xs[q] as int, xs[n - 1] as int, sort));
            order::lemma_key_irreflexive(file_key(files, i as int, sort));
        } else if q > n - 1 {
            let j = ys[n - 1];
            assert(ys.contains(j));
            assert(xs.contains(j));
            let p = xs.index_of(j);
            if p < n - 1 {
                assert(file_before(files, ys[p] as int, ys[n - 1] as int, sort));
                order::lemma_key_irreflexive(file_key(files, j as int, sort));
            }
            let ki = file_key(files, i as int, sort);
            let kj = file_key(files, j as int, sort);
            assert(file_before(files, ys[n - 1] as int, ys[q] as int, sort));
            if p > n - 1 {
                assert(file_before(files, xs[n - 1] as int, xs[p] as int, sort));
            }
            order::lemma_key_irreflexive(ki);
            if order::key_lt(kj, ki) {
                order::lemma_key_asymmetric(kj, ki);
            }
        }
    }
}

/// By size, a group never stands behind a lighter one.
pub proof fn law_size_sort_is_largest_first(gs: Seq<Group>, files: Seq<(String, u64)>)
    requires
        is_grouping(gs, files, SortMode::Size),
    ensures
        forall|r: int, s: int|
            0 <= r < s < gs.len() ==> (#[trigger] gs[r]).bytes >= (#[trigger] gs[s]).bytes,
{
    assert forall|r: int, s: int| 0 <= r < s < gs.len() implies (#[trigger] gs[r]).bytes >= (
    #[trigger] gs[s]).bytes by {
        assert(order::key_lt(gs[r].rank(SortMode::Size), gs[s].rank(SortMode::Size)));
    }
}

/// A group's bytes never exceed the session's.
pub proof fn law_group_within_total(files: Seq<(String, u64)>, key: Chars, n: int)
    requires
        0 <= n <= files.len(),
    ensures
        bytes_under(files, key, n) <= bytes_total(files, n),
    decreases n,
{
    if n > 0 {
        law_group_within_total(files, key, n - 1);
    }
}

/// The bytes that the first `m` groups have among the first `n` files.
pub open spec fn bytes_of_groups(gs: Seq<Group>, files: Seq<(String, u64)>, n: int, m: int) -> nat
    decreases m,
{
    if m <= 0 {
        0
    } else {
        bytes_of_groups(gs, files, n, m - 1) + bytes_under(files, gs[m - 1].key(), n)
    }
}

/// The groups share out the session: their bytes add up to its total.
pub proof fn law_groups_share_out_the_total(
    gs: Seq<Group>,
    files: Seq<(String, u64)>,
    sort: SortMode,
)
    requires
        is_grouping(gs, files, sort),
    ensures
        bytes_of_groups(gs, files, files.len() as int, gs.len() as int) == bytes_total(
            files,
            files.len() as int,
        ),
{
    lemma_groups_total(gs, files, sort, files.len() as int);
}

/// No group's share exceeds the whole.
pub proof fn law_a_share_is_at_most_the_whole(
    gs: Seq<Group>,
    files: Seq<(String, u64)>,
    sort: SortMode,
    r: int,
)
    requires
        is_grouping(gs, files, sort),
        0 <= r < gs.len(),
    ensures
        gs[r].bytes <= gs[r].total,
        share_of(gs[r].bytes as nat, gs[r].total as nat) <= 1_000_000,
{
    law_group_within_total(files, gs[r].key(), files.len() as int);
    lemma_share_bounded(gs[r].bytes as nat, gs[r].total as nat);
}

/// The percentage shown for a share is the one nearest to what `bytes` are of
/// `total`, the larger one halfway: keeping whole millionths loses nothing.
pub proof fn law_percent_is_the_nearest(bytes: u64, total: u64)
    requires
        bytes <= total,
        total > 0,
    ensures
        percent(Some(share_of(bytes as nat, total as nat) as i64)) == (200 * bytes + total) / (2
            * total),
{
    let b = bytes as int;
    let t = total as int;
    lemma_share_bounded(bytes as nat, total as nat);
    let q = share_of(bytes as nat, total as nat) as int;
    assert(q * t <= b * 1_000_000 < (q + 1) * t) by (nonlinear_arith)
        requires
            q == b * 1_000_000 / t,
            t > 0,
    ;
    let p = percent(Some(q as i64)) as int;
    assert(10_000 * p <= q + 5_000 < 10_000 * (p + 1));
    assert(2 * t * p <= 200 * b + t < 2 * t * (p + 1)) by (nonlinear_arith)
        requires
            q * t <= b * 1_000_000 < (q + 1) * t,
            10_000 * p <= q + 5_000,
            q + 5_001 <= 10_000 * (p + 1),
            t > 0,
    ;
    assert(p == (200 * b + t) / (2 * t)) by (nonlinear_arith)
        requires
            2 * t * p <= 200 * b + t < 2 * t * (p + 1),
            t > 0,
    ;
}

/// The shares of the first `m` groups together.
pub open spec fn shares_of_groups(gs: Seq<Group>, m: int) -> nat
    decreases m,
{
    if m <= 0 {
        0
    } else {
        shares_of_groups(gs, m - 1) + share_of(gs[m - 1].bytes as nat, gs[m - 1].total as nat)
    }
}

/// The shares of a session add up to the whole, but for what rounding down
/// takes off: less than a millionth from each group. They are all nothing where
/// the session holds no bytes.
pub proof fn law_shares_add_up_to_the_whole(
    gs: Seq<Group>,
    files: Seq<(String, u64)>,
    sort: SortMode,
)
    requires
        is_grouping(gs, files, sort),
        bytes_total(files, files.len() as int) <= u64::MAX,
    ensures
        shares_of_groups(gs, gs.len() as int) <= 1_000_000,
        bytes_total(files, files.len() as int) > 0 ==> shares_of_groups(gs, gs.len() as int)
            > 1_000_000 - gs.len(),
        bytes_total(files, files.len() as int) == 0 ==> shares_of_groups(gs, gs.len() as int) == 0,
{
    let n = files.len() as int;
    let total = bytes_total(files, n);
    let m = gs.len() as int;
    law_groups_share_out_the_total(gs, files, sort);
    lemma_shares(gs, files, sort, m);
    let sum = shares_of_groups(gs, m);
    if total > 0 {
        assert(m > 0);
        assert(sum <= 1_000_000) by (nonlinear_arith)
            requires
                sum * total <= total * 1_000_000,
                total > 0,
        ;
        assert(sum > 1_000_000 - m) by (nonlinear_arith)
            requires
                total * 1_000_000 < (sum + m) * total,
                total > 0,
        ;
    }
}

proof fn lemma_shares(gs: Seq<Group>, files: Seq<(String, u64)>, sort: SortMode, m: int)
    requires
        is_grouping(gs, files, sort),
        bytes_total(files, files.len() as int) <= u64::MAX,
        0 <= m <= gs.len(),
    ensures
        ({
            let total = bytes_total(files, files.len() as int);
            let bytes = bytes_of_groups(gs, files, files.len() as int, m);
            let sum = shares_of_groups(gs, m);
            &&& total == 0 ==> sum == 0
            &&& sum * total <= bytes * 1_000_000
            &&& total > 0 && m > 0 ==> bytes * 1_000_000 < (sum + m) * total
        }),
    decreases m,
{
    let n = files.len() as int;
    let total = bytes_total(files, n);
    if m > 0 {
        lemma_shares(gs, files, sort, m - 1);
        law_group_within_total(files, gs[m - 1].key(), n);
        let one = bytes_under(files, gs[m - 1].key(), n);
        let part = share_of(one, total);
        let bytes = bytes_of_groups(gs, files, n, m - 1);
        let sum = shares_of_groups(gs, m - 1);
        assert(is_group(gs[m - 1], files, sort));
        assert(gs[m - 1].bytes == one && gs[m - 1].total == total);
        assert((sum + part) * total == sum * total + part * total) by (nonlinear_arith);
        if total > 0 {
            assert(part * total <= one * 1_000_000 < (part + 1) * total) by (nonlinear_arith)
                requires
                    part == one * 1_000_000 / total,
                    total > 0,
            ;
            assert((sum + part + m) * total == (sum + (m - 1)) * total + (part + 1) * total)
                by (nonlinear_arith);
            if m == 1 {
                assert(bytes == 0 && sum == 0);
                assert((sum + (m - 1)) * total == 0) by (nonlinear_arith)
                    requires
                        sum == 0,
                        m == 1,
                ;
            }
            assert((bytes + one) * 1_000_000 < (sum + part + m) * total);
        } else {
            assert((sum + part) * total == 0) by (nonlinear_arith)
                requires
                    total == 0,
            ;
        }
        assert(shares_of_groups(gs, m) == sum + part);
        assert(bytes_of_groups(gs, files, n, m) == bytes + one);
    } else {
        assert(shares_of_groups(gs, m) * total == 0) by (nonlinear_arith)
            requires
                shares_of_groups(gs, m) == 0,
        ;
    }
}

proof fn lemma_groups_total(gs: Seq<Group>, files: Seq<(String, u64)>, sort: SortMode, n: int)
    requires
        is_grouping(gs, files, sort),
        0 <= n <= files.len(),
    ensures
        bytes_of_groups(gs, files, n, gs.len() as int) == bytes_total(files, n),
    decreases n,
{
    if n == 0 {
        lemma_groups_start(gs, files, gs.len() as int);
    } else {
        lemma_groups_total(gs, files, sort, n - 1);
        let _ = files[n - 1];
        let at = choose|r: int|
            0 <= r < gs.len() && (#[trigger] gs[r]).key() == group_key(files[n - 1].0@);
        lemma_groups_step(gs, files, sort, n, gs.len() as int, at);
    }
}

proof fn lemma_groups_start(gs: Seq<Group>, files: Seq<(String, u64)>, m: int)
    requires
        0 <= m <= gs.len(),
    ensures
        bytes_of_groups(gs, files, 0, m) == 0,
    decreases m,
{
    if m > 0 {
        lemma_groups_start(gs, files, m - 1);
    }
}

/// The file behind the first `n - 1` counts for the group at `at` alone.
proof fn lemma_groups_step(
    gs: Seq<Group>,
    files: Seq<(String, u64)>,
    sort: SortMode,
    n: int,
    m: int,
    at: int,
)
    requires
        is_grouping(gs, files, sort),
        0 < n <= files.len(),
        0 <= m <= gs.len(),
        0 <= at < gs.len(),
        gs[at].key() == group_key(files[n - 1].0@),
    ensures
        bytes_of_groups(gs, files, n, m) == bytes_of_groups(gs, files, n - 1, m) + if at < m {
            files[n - 1].1 as nat
        } else {
            0
        },
    decreases m,
{
    if m > 0 {
        lemma_groups_step(gs, files, sort, n, m - 1, at);
        if m - 1 < at {
            lemma_groups_differ(gs, files, sort, m - 1, at);
        } else if at < m - 1 {
            lemma_groups_differ(gs, files, sort, at, m - 1);
        }
    }
}

/// The files of a group are listed, by size, largest first; those of one size by
/// their path without regard to case, and then as it is written.
pub proof fn law_files_are_listed_largest_first(
    gs: Seq<Group>,
    files: Seq<(String, u64)>,
    r: int,
    a: int,
    b: int,
)
    requires
        is_grouping(gs, files, SortMode::Size),
        0 <= r < gs.len(),
        0 <= a < b < gs[r].indices@.len(),
    ensures
        ({
            let i = gs[r].indices@[a] as int;
            let j = gs[r].indices@[b] as int;
            &&& i < files.len() && j < files.len()
            &&& files[i].1 >= files[j].1
            &&& files[i].1 == files[j].1 ==> text::folded(files[i].0@) == text::folded(
                files[j].0@,
            ) || order::lex_lt(text::folded(files[i].0@), text::folded(files[j].0@))
            &&& files[i].1 == files[j].1 && text::folded(files[i].0@) == text::folded(files[j].0@)
                ==> files[i].0@ == files[j].0@ || order::lex_lt(files[i].0@, files[j].0@)
        }),
{
    let g = gs[r];
    assert(is_group(g, files, SortMode::Size));
    assert(g.indices@.contains(g.indices@[a]));
    assert(g.indices@.contains(g.indices@[b]));
    assert(file_before(files, g.indices@[a] as int, g.indices@[b] as int, SortMode::Size));
    order::lemma_lex_irreflexive(text::folded(files[g.indices@[a] as int].0@));
}

/// The files of a group are listed, by name, by their path without regard to
/// case, and then as it is written; their size does not matter.
pub proof fn law_files_are_listed_by_name(
    gs: Seq<Group>,
    files: Seq<(String, u64)>,
    r: int,
    a: int,
    b: int,
)
    requires
        is_grouping(gs, files, SortMode::Name),
        0 <= r < gs.len(),
        0 <= a < b < gs[r].indices@.len(),
    ensures
        ({
            let i = gs[r].indices@[a] as int;
            let j = gs[r].indices@[b] as int;
            let f = text::folded(files[i].0@);
            let h = text::folded(files[j].0@);
            &&& i < files.len() && j < files.len()
            &&& f == h || order::lex_lt(f, h)
            &&& f == h ==> files[i].0@ == files[j].0@ || order::lex_lt(files[i].0@, files[j].0@)
        }),
{
    let g = gs[r];
    assert(is_group(g, files, SortMode::Name));
    assert(g.indices@.contains(g.indices@[a]));
    assert(g.indices@.contains(g.indices@[b]));
    assert(file_before(files, g.indices@[a] as int, g.indices@[b] as int, SortMode::Name));
    order::lemma_lex_irreflexive(text::folded(files[g.indices@[a] as int].0@));
}

/// A sorted list of indices runs from the largest file to the smallest by size,
/// and by path without regard to case by name.
pub proof fn law_a_sorted_list_follows_its_files(
    after: Seq<usize>,
    before: Seq<usize>,
    files: Seq<(String, u64)>,
    sort: SortMode,
    a: int,
    b: int,
)
    requires
        is_sorted_by_file(after, before, files, sort),
        0 <= a < b < after.len(),
        after[a] < files.len(),
        after[b] < files.len(),
    ensures
        ({
            let x = files[after[a] as int];
            let y = files[after[b] as int];
            let by_path = {
                ||| order::lex_lt(text::folded(x.0@), text::folded(y.0@))
                ||| text::folded(x.0@) == text::folded(y.0@) && order::lex_lt(x.0@, y.0@)
                ||| x.0@ == y.0@
            };
            &&& sort == SortMode::Size ==> x.1 > y.1 || x.1 == y.1 && by_path
            &&& sort == SortMode::Name ==> by_path
        }),
{
    let ks = file_keys(before, files, sort);
    let perm = choose|perm: Seq<usize>|
        order::is_order(perm, ks) && after == Seq::new(
            before.len(),
            |a: int| before[perm[a] as int],
        );
    order::law_rows_stand_by_number_name_and_second(perm, ks, a, b);
    assert(perm[a] < ks.len() && perm[b] < ks.len());
}

/// Folders stand, by name, in the order of their names without regard to case.
pub proof fn law_name_sort_is_by_name(gs: Seq<Group>, files: Seq<(String, u64)>, r: int, s: int)
    requires
        is_grouping(gs, files, SortMode::Name),
        0 <= r < s < gs.len(),
    ensures
        text::folded(gs[r].name@) == text::folded(gs[s].name@) || order::lex_lt(
            text::folded(gs[r].name@),
            text::folded(gs[s].name@),
        ),
{
    assert(order::key_lt(gs[r].rank(SortMode::Name), gs[s].rank(SortMode::Name)));
}

/// The top of a path is what stands in front of its first separator, of either
/// kind.
pub proof fn law_the_top_ends_at_the_first_separator(head: Chars, c: char, rest: Chars)
    requires
        c == '/' || c == '\\',
        forall|i: int| 0 <= i < head.len() ==> (#[trigger] head[i]) != '/' && head[i] != '\\',
    ensures
        top(head + seq![c] + rest) == head,
        top(head).len() == 0,
{
    let path = head + seq![c] + rest;
    lemma_no_separator_before(path, 0, head.len() as int);
    assert(path[head.len() as int] == c);
    assert(path.take(head.len() as int) =~= head);
    lemma_no_separator_before(head, 0, head.len() as int);
}

proof fn lemma_no_separator_before(path: Chars, from: int, to: int)
    requires
        0 <= from <= to <= path.len(),
        forall|i: int| from <= i < to ==> !is_separator(#[trigger] path[i]),
    ensures
        next_separator(path, from) == next_separator(path, to),
    decreases to - from,
{
    if from < to {
        lemma_no_separator_before(path, from + 1, to);
    }
}

/// A file is listed under the folder that its path begins with, and with the
/// root's own files where it begins with none.
pub proof fn law_a_file_is_under_its_folder(
    gs: Seq<Group>,
    files: Seq<(String, u64)>,
    sort: SortMode,
    r: int,
    i: usize,
    folder: Chars,
    c: char,
    rest: Chars,
)
    requires
        is_grouping(gs, files, sort),
        0 <= r < gs.len(),
        gs[r].indices@.contains(i),
        c == '/' || c == '\\',
        forall|k: int| 0 <= k < folder.len() ==> (#[trigger] folder[k]) != '/' && folder[k] != '\\',
    ensures
        i < files.len(),
        folder.len() > 0 && folder[0] != '\u{0}' && files[i as int].0@ == folder + seq![c] + rest
            ==> !gs[r].root && gs[r].name@ == folder,
        files[i as int].0@ == folder ==> gs[r].root && gs[r].name@ == ROOT_NAME@,
{
    let g = gs[r];
    assert(is_group(g, files, sort));
    law_the_top_ends_at_the_first_separator(folder, c, rest);
    reveal_strlit("\0root");
    assert(ROOT_KEY@[0] == '\u{0}');
    reveal_strlit("in this folder");
    assert(ROOT_NAME@[0] == 'i');
}

/// The bytes of a list of files are the sum of their sizes.
pub proof fn law_bytes_are_summed(files: Seq<(String, u64)>, n: int)
    requires
        0 <= n < files.len(),
    ensures
        bytes_total(files, 0) == 0,
        bytes_total(files, n + 1) - bytes_total(files, n) == files[n].1,
{
}

/// A folder's bytes grow by the size of each file whose path begins with it, and
/// by no other's.
pub proof fn law_a_folder_weighs_its_own_files(
    files: Seq<(String, u64)>,
    key: Chars,
    n: int,
    folder: Chars,
    c: char,
    rest: Chars,
)
    requires
        0 <= n < files.len(),
        c == '/' || c == '\\',
        folder.len() > 0,
        forall|k: int| 0 <= k < folder.len() ==> (#[trigger] folder[k]) != '/' && folder[k] != '\\',
        files[n].0@ == folder + seq![c] + rest,
    ensures
        bytes_under(files, key, 0) == 0,
        bytes_under(files, folder, n + 1) == bytes_under(files, folder, n) + files[n].1,
        key != folder ==> bytes_under(files, key, n + 1) == bytes_under(files, key, n),
{
    law_the_top_ends_at_the_first_separator(folder, c, rest);
}

/// A share is the whole millionths in the fraction: none is missing and none is
/// too many.
pub proof fn law_a_share_is_the_fraction(bytes: nat, total: nat)
    ensures
        total == 0 ==> share_of(bytes, total) == 0,
        total > 0 ==> share_of(bytes, total) * total <= bytes * 1_000_000 < (share_of(bytes, total)
            + 1) * total,
{
    if total > 0 {
        let q = share_of(bytes, total);
        assert(q * total <= bytes * 1_000_000 < (q + 1) * total) by (nonlinear_arith)
            requires
                q == bytes * 1_000_000 / total,
                total > 0,
        ;
    }
}

/// A group is captioned by its files, its size and its share in whole percent.
pub proof fn law_a_caption_tells_files_size_and_share(
    count: usize,
    size: &str,
    share: i64,
    shown: nat,
    r: String,
)
    requires
        call_ensures(group_caption, (count, size, Some(share)), r),
        0 <= share <= 1_000_000,
        10_000 * shown <= share + 5_000 < 10_000 * (shown + 1),
    ensures
        r@ == text::counted(count as nat, "file"@) + " · "@ + size@ + " · "@ + text::dec(shown)
            + "%"@,
{
    reveal_strlit(" file");
    reveal_strlit("file");
    reveal_strlit(" ");
    assert(" "@ + "file"@ =~= " file"@);
    assert(text::dec(count as nat) + " file"@ + text::plural_end(count as nat) =~= text::counted(
        count as nat,
        "file"@,
    ));
}

/// A share that is no number, or none, is nothing; one beyond the whole is the
/// whole.
pub proof fn law_a_percentage_is_held_in_its_range(share: Option<i64>, r: u64)
    requires
        call_ensures(whole_percent, (share,), r),
    ensures
        share is None ==> r == 0,
        share is Some && share->0 <= 0 ==> r == 0,
        share is Some && share->0 >= 1_000_000 ==> r == 100,
        share is Some && 0 <= share->0 <= 1_000_000 ==> 10_000 * r <= share->0 + 5_000 < 10_000 * (r
            + 1),
{
}

/// No group is empty, and every one is named: the root's files under the root's
/// name, a folder's under the folder's.
pub proof fn law_no_group_is_empty(
    gs: Seq<Group>,
    files: Seq<(String, u64)>,
    sort: SortMode,
    r: int,
)
    requires
        is_grouping(gs, files, sort),
        0 <= r < gs.len(),
    ensures
        gs[r].indices@.len() > 0,
        gs[r].root ==> gs[r].name@ == "in this folder"@,
        files.len() > 0 ==> gs.len() > 0,
{
    assert(is_group(gs[r], files, sort));
}

/// An index without a file is as an empty path of no bytes.
pub proof fn law_a_missing_file_has_no_bytes(files: &[(String, u64)], i: usize, p: &str, n: u64)
    requires
        call_ensures(path_at, (files, i), p),
        call_ensures(size_at, (files, i), n),
    ensures
        i < files@.len() ==> p@ == files@[i as int].0@ && n == files@[i as int].1,
        i >= files@.len() ==> p@.len() == 0 && n == 0,
{
}

/// A total beyond what can be counted is as much as can be.
pub proof fn law_a_total_is_capped(n: nat)
    ensures
        n <= u64::MAX ==> capped(n) == n,
        n > u64::MAX ==> capped(n) == u64::MAX,
{
}

} // verus!
