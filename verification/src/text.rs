//! Plain text, character by character.
//!
//! Every sentence the window speaks is put together from the pieces in this
//! module: decimal numbers, trimmed words and lists joined by a separator. A
//! text is modelled as the sequence of its characters, never of its bytes.

use vstd::prelude::*;

verus! {

/// `String::push` of std: the text grows by that one character at its end.
pub assume_specification[ String::push ](s: &mut String, c: char)
    ensures
        final(s)@ == old(s)@.push(c),
;

/// A text as the sequence of its characters.
pub type Chars = Seq<char>;

// ---------------------------------------------------------------------------
// Characters
// ---------------------------------------------------------------------------

/// The characters that carry the Unicode property `White_Space`.
pub open spec fn is_white(c: char) -> bool {
    ||| '\u{9}' <= c <= '\u{d}'
    ||| c == ' '
    ||| c == '\u{85}'
    ||| c == '\u{a0}'
    ||| c == '\u{1680}'
    ||| '\u{2000}' <= c <= '\u{200a}'
    ||| c == '\u{2028}'
    ||| c == '\u{2029}'
    ||| c == '\u{202f}'
    ||| c == '\u{205f}'
    ||| c == '\u{3000}'
}

/// Whether `c` is white space.
pub fn white(c: char) -> (r: bool)
    ensures
        r == is_white(c),
{
    ('\u{9}' <= c && c <= '\u{d}') || c == ' ' || c == '\u{85}' || c == '\u{a0}' || c
        == '\u{1680}' || ('\u{2000}' <= c && c <= '\u{200a}') || c == '\u{2028}' || c == '\u{2029}'
        || c == '\u{202f}' || c == '\u{205f}' || c == '\u{3000}'
}

/// The characters of the Unicode general category `Cc`.
pub open spec fn is_control(c: char) -> bool {
    c <= '\u{1f}' || '\u{7f}' <= c <= '\u{9f}'
}

/// Whether `c` is a control character.
pub fn control(c: char) -> (r: bool)
    ensures
        r == is_control(c),
{
    c <= '\u{1f}' || ('\u{7f}' <= c && c <= '\u{9f}')
}

/// The ten ASCII digits.
pub open spec fn is_ascii_digit(c: char) -> bool {
    '0' <= c <= '9'
}

/// Whether `c` is an ASCII digit.
pub fn ascii_digit(c: char) -> (r: bool)
    ensures
        r == is_ascii_digit(c),
{
    '0' <= c && c <= '9'
}

/// The lower-case mapping of `c`, as `char::to_lowercase` of std gives it: one
/// character or several, by the Unicode tables that std carries.
pub uninterp spec fn lowercase(c: char) -> Chars;

/// `char::to_lowercase` of std. Its result is a function of the character
/// alone; nothing more is claimed of it.
#[verifier::external_body]
fn lower(c: char) -> (r: Vec<char>)
    ensures
        r@ == lowercase(c),
{
    c.to_lowercase().collect()
}

/// `s` with every character replaced by its lower-case mapping.
pub open spec fn folded(s: Chars) -> Chars
    decreases s.len(),
{
    if s.len() == 0 {
        Seq::empty()
    } else {
        folded(s.drop_last()) + lowercase(s.last())
    }
}

/// The characters of `s` in lower case, for comparing without regard to case.
pub fn fold_case(s: &str) -> (r: Vec<char>)
    ensures
        r@ == folded(s@),
{
    let mut r: Vec<char> = Vec::new();
    for c in it: s.chars()
        invariant
            it.seq() == s@,
            r@ == folded(s@.take(it.index() as int)),
    {
        let mut more: Vec<char> = lower(c);
        r.append(&mut more);
        proof {
            let n = it.index() as int;
            assert(s@.take(n + 1).drop_last() =~= s@.take(n));
        }
    }
    proof {
        assert(s@.take(s@.len() as int) =~= s@);
    }
    r
}

// ---------------------------------------------------------------------------
// Decimal numbers
// ---------------------------------------------------------------------------

/// The digit that stands for `d`, for `d` below ten.
pub open spec fn digit(d: nat) -> char {
    (('0' as nat) + d) as char
}

/// `n` in decimal, without leading zeros.
pub open spec fn dec(n: nat) -> Chars
    decreases n,
{
    if n < 10 {
        seq![digit(n)]
    } else {
        dec(n / 10).push(digit(n % 10))
    }
}

fn digit_char(d: u64) -> (c: char)
    requires
        d < 10,
    ensures
        c == digit(d as nat),
{
    match d {
        0 => '0',
        1 => '1',
        2 => '2',
        3 => '3',
        4 => '4',
        5 => '5',
        6 => '6',
        7 => '7',
        8 => '8',
        _ => '9',
    }
}

/// `n` written in decimal.
pub fn decimal(n: u64) -> (r: String)
    ensures
        r@ == dec(n as nat),
    decreases n,
{
    if n < 10 {
        let mut r: String = String::new();
        r.push(digit_char(n));
        proof {
            assert(r@ =~= seq![digit(n as nat)]);
        }
        r
    } else {
        let mut r: String = decimal(n / 10);
        r.push(digit_char(n % 10));
        r
    }
}

// ---------------------------------------------------------------------------
// Plurals
// ---------------------------------------------------------------------------

/// The ending a counted noun takes: nothing for one, "s" for any other count.
pub open spec fn plural_end(n: nat) -> Chars {
    if n == 1 {
        Seq::empty()
    } else {
        "s"@
    }
}

/// A count with its noun: "1 file", "0 files".
pub open spec fn counted(n: nat, noun: Chars) -> Chars {
    dec(n) + " "@ + noun + plural_end(n)
}

/// The ending of a counted noun.
pub fn ending(n: u64) -> (r: &'static str)
    ensures
        r@ == plural_end(n as nat),
{
    if n == 1 {
        proof {
            reveal_strlit("");
            assert(""@ =~= Seq::<char>::empty());
        }
        ""
    } else {
        "s"
    }
}

/// A count with its noun, pluralised by a plain "s".
pub fn counted_noun(n: u64, noun: &str) -> (r: String)
    ensures
        r@ == counted(n as nat, noun@),
{
    let mut r: String = decimal(n);
    r.append(" ");
    r.append(noun);
    r.append(ending(n));
    r
}

// ---------------------------------------------------------------------------
// Trimming
// ---------------------------------------------------------------------------

/// `s` without the white space it begins with.
pub open spec fn trim_start(s: Chars) -> Chars
    decreases s.len(),
{
    if s.len() > 0 && is_white(s[0]) {
        trim_start(s.drop_first())
    } else {
        s
    }
}

/// `s` without the white space it ends with.
pub open spec fn trim_end(s: Chars) -> Chars
    decreases s.len(),
{
    if s.len() > 0 && is_white(s.last()) {
        trim_end(s.drop_last())
    } else {
        s
    }
}

/// `s` without the white space at either end.
pub open spec fn trimmed(s: Chars) -> Chars {
    trim_end(trim_start(s))
}

/// `s` without any of its white space.
pub open spec fn marks(s: Chars) -> Chars {
    s.filter(|c: char| !is_white(c))
}

proof fn lemma_trim_start_skip(s: Chars, n: int)
    requires
        0 <= n <= s.len(),
        forall|i: int| 0 <= i < n ==> is_white(#[trigger] s[i]),
        n < s.len() ==> !is_white(s[n]),
    ensures
        trim_start(s) == s.skip(n),
    decreases s.len(),
{
    if n > 0 {
        lemma_trim_start_skip(s.drop_first(), n - 1);
        assert(s.drop_first().skip(n - 1) =~= s.skip(n));
    } else {
        assert(s.skip(0) =~= s);
    }
}

proof fn lemma_trim_end_take(s: Chars, n: int)
    requires
        0 <= n <= s.len(),
        forall|i: int| n <= i < s.len() ==> is_white(#[trigger] s[i]),
        n > 0 ==> !is_white(s[n - 1]),
    ensures
        trim_end(s) == s.take(n),
    decreases s.len(),
{
    if n < s.len() {
        lemma_trim_end_take(s.drop_last(), n);
        assert(s.drop_last().take(n) =~= s.take(n));
    } else {
        assert(s.take(n) =~= s);
    }
}

/// Trimming drops white space only.
pub proof fn lemma_trim_marks(s: Chars)
    ensures
        marks(trim_start(s)) == marks(s),
        marks(trim_end(s)) == marks(s),
        marks(trimmed(s)) == marks(s),
    decreases s.len(),
{
    lemma_trim_start_marks(s);
    lemma_trim_end_marks(s);
    lemma_trim_end_marks(trim_start(s));
}

proof fn lemma_trim_start_marks(s: Chars)
    ensures
        marks(trim_start(s)) == marks(s),
    decreases s.len(),
{
    if s.len() > 0 && is_white(s[0]) {
        lemma_trim_start_marks(s.drop_first());
        let head = seq![s[0]];
        assert(s =~= head + s.drop_first());
        lemma_marks_add(head, s.drop_first());
        reveal_with_fuel(Seq::<_>::filter, 2);
        assert(head.drop_last() =~= Seq::<char>::empty());
        assert(marks(head) =~= Seq::<char>::empty());
        assert(marks(s) =~= marks(s.drop_first()));
    }
}

proof fn lemma_trim_end_marks(s: Chars)
    ensures
        marks(trim_end(s)) == marks(s),
    decreases s.len(),
{
    if s.len() > 0 && is_white(s.last()) {
        lemma_trim_end_marks(s.drop_last());
        reveal(Seq::filter);
    }
}

/// The marks of a text are those of its two halves, one after the other.
pub proof fn lemma_marks_add(a: Chars, b: Chars)
    ensures
        marks(a + b) == marks(a) + marks(b),
{
    Seq::filter_distributes_over_add(a, b, |c: char| !is_white(c));
}

/// Trimming takes the white space that a text begins with, and nothing of a rest
/// that neither begins nor ends with any.
pub proof fn lemma_trim_padded(s: Chars, n: int)
    requires
        0 <= n <= s.len(),
        forall|i: int| 0 <= i < n ==> is_white(#[trigger] s[i]),
        n < s.len() ==> !is_white(s[n]) && !is_white(s.last()),
    ensures
        trimmed(s) == s.skip(n),
{
    lemma_trim_start_skip(s, n);
}

/// A trimmed text neither begins nor ends with white space, and trimming it
/// again changes nothing.
pub proof fn lemma_trimmed_ends(s: Chars)
    ensures
        trimmed(s).len() > 0 ==> !is_white(trimmed(s)[0]) && !is_white(trimmed(s).last()),
        trimmed(trimmed(s)) == trimmed(s),
{
    lemma_trim_start_head(s);
    lemma_trim_end_tail(trim_start(s));
    let t = trimmed(s);
    if t.len() > 0 {
        assert(trim_start(t) == t);
        assert(trim_end(t) == t);
    }
}

proof fn lemma_trim_start_head(s: Chars)
    ensures
        trim_start(s).len() > 0 ==> !is_white(trim_start(s)[0]),
    decreases s.len(),
{
    if s.len() > 0 && is_white(s[0]) {
        lemma_trim_start_head(s.drop_first());
    }
}

proof fn lemma_trim_end_tail(s: Chars)
    ensures
        trim_end(s).len() > 0 ==> !is_white(trim_end(s).last()) && trim_end(s)[0] == s[0],
        trim_end(s).len() <= s.len(),
    decreases s.len(),
{
    if s.len() > 0 && is_white(s.last()) {
        lemma_trim_end_tail(s.drop_last());
    }
}

/// `s` without the white space it ends with.
pub fn trim_tail<'a>(s: &'a str) -> (r: &'a str)
    ensures
        r@ == trim_end(s@),
{
    let cs: Vec<char> = chars(s);
    let n: usize = cs.len();
    let mut to: usize = n;
    while to > 0 && white(cs[to - 1])
        invariant
            to <= n,
            n == cs.len(),
            cs@ == s@,
            forall|i: int| to <= i < n ==> is_white(#[trigger] s@[i]),
        decreases to,
    {
        to = to - 1;
    }
    proof {
        lemma_trim_end_take(s@, to as int);
        assert(s@.take(to as int) =~= s@.subrange(0, to as int));
    }
    s.substring_char(0, to)
}

/// `s` without the white space at either end.
pub fn trim<'a>(s: &'a str) -> (r: &'a str)
    ensures
        r@ == trimmed(s@),
{
    let cs: Vec<char> = chars(s);
    let n: usize = cs.len();
    let mut from: usize = 0;
    while from < n && white(cs[from])
        invariant
            from <= n,
            n == cs.len(),
            cs@ == s@,
            forall|i: int| 0 <= i < from ==> is_white(#[trigger] s@[i]),
        decreases n - from,
    {
        from = from + 1;
    }
    let mut to: usize = n;
    while to > from && white(cs[to - 1])
        invariant
            from <= to <= n,
            n == cs.len(),
            cs@ == s@,
            forall|i: int| to <= i < n ==> is_white(#[trigger] s@[i]),
        decreases to,
    {
        to = to - 1;
    }
    proof {
        lemma_trim_start_skip(s@, from as int);
        let rest = s@.skip(from as int);
        assert forall|i: int| to - from <= i < rest.len() implies is_white(#[trigger] rest[i]) by {
            assert(rest[i] == s@[i + from]);
        }
        lemma_trim_end_take(rest, to - from);
        assert(rest.take(to - from) =~= s@.subrange(from as int, to as int));
    }
    s.substring_char(from, to)
}

// ---------------------------------------------------------------------------
// Characters in and out
// ---------------------------------------------------------------------------

/// The characters of a text, in order.
pub fn chars(s: &str) -> (r: Vec<char>)
    ensures
        r@ == s@,
{
    let mut r: Vec<char> = Vec::new();
    for c in it: s.chars()
        invariant
            it.seq() == s@,
            r@ =~= s@.take(it.index() as int),
    {
        r.push(c);
    }
    r
}

/// Whether two texts are the same.
pub fn same(a: &str, b: &str) -> (r: bool)
    ensures
        r == (a@ == b@),
{
    a.to_owned() == b.to_owned()
}

/// The same text `n` times over.
pub open spec fn repeated(c: char, n: nat) -> Chars {
    Seq::new(n, |i: int| c)
}

/// `n` copies of `c`.
pub fn repeat(c: char, n: usize) -> (r: String)
    ensures
        r@ == repeated(c, n as nat),
{
    let mut r: String = String::new();
    let mut i: usize = 0;
    while i < n
        invariant
            i <= n,
            r@ == repeated(c, i as nat),
        decreases n - i,
    {
        r.push(c);
        i = i + 1;
        proof {
            assert(r@ =~= repeated(c, i as nat));
        }
    }
    proof {
        assert(r@ =~= repeated(c, n as nat));
    }
    r
}

// ---------------------------------------------------------------------------
// Lists
// ---------------------------------------------------------------------------

/// The texts behind a sequence of strings.
pub open spec fn texts(v: Seq<String>) -> Seq<Chars> {
    v.map_values(|s: String| s@)
}

/// The texts behind a sequence of string slices.
pub open spec fn slices(v: Seq<&str>) -> Seq<Chars> {
    v.map_values(|s: &str| s@)
}

/// The parts one after another, with `sep` between each two.
pub open spec fn joined(parts: Seq<Chars>, sep: Chars) -> Chars
    decreases parts.len(),
{
    if parts.len() == 0 {
        Seq::empty()
    } else if parts.len() == 1 {
        parts[0]
    } else {
        joined(parts.drop_last(), sep) + sep + parts.last()
    }
}

/// Joins `parts` with `sep` between each two.
pub fn join(parts: &Vec<String>, sep: &str) -> (r: String)
    ensures
        r@ == joined(texts(parts@), sep@),
{
    let mut r: String = String::new();
    let mut i: usize = 0;
    proof {
        assert(texts(parts@).take(0) =~= Seq::<Chars>::empty());
        assert(r@ =~= joined(texts(parts@).take(0), sep@));
    }
    while i < parts.len()
        invariant
            i <= parts.len(),
            r@ == joined(texts(parts@).take(i as int), sep@),
        decreases parts.len() - i,
    {
        if i > 0 {
            r.append(sep);
        }
        r.append(parts[i].as_str());
        proof {
            let t = texts(parts@);
            let next = t.take(i + 1);
            assert(next.drop_last() =~= t.take(i as int));
            assert(next.last() == parts@[i as int]@);
            if i == 0 {
                assert(r@ =~= next[0]);
            }
            assert(r@ =~= joined(next, sep@));
        }
        i = i + 1;
    }
    proof {
        assert(texts(parts@).take(i as int) =~= texts(parts@));
    }
    r
}

// ---------------------------------------------------------------------------
// Laws
// ---------------------------------------------------------------------------

/// The number that a row of decimal digits stands for.
pub open spec fn worth(s: Chars) -> int
    decreases s.len(),
{
    if s.len() == 0 {
        0
    } else {
        worth(s.drop_last()) * 10 + (s.last() as int - '0' as int)
    }
}

/// A number written out reads back as itself, holds digits only, and does not
/// begin with a zero unless it is zero.
pub proof fn law_a_number_reads_back(n: nat)
    ensures
        worth(dec(n)) == n,
        dec(n).len() > 0,
        forall|i: int| 0 <= i < dec(n).len() ==> '0' <= #[trigger] dec(n)[i] <= '9',
        n > 0 ==> dec(n)[0] != '0',
        n < 10 ==> dec(n).len() == 1,
    decreases n,
{
    if n >= 10 {
        law_a_number_reads_back(n / 10);
        assert(dec(n).drop_last() =~= dec(n / 10));
    } else {
        assert(dec(n).drop_last() =~= Seq::<char>::empty());
        assert(worth(dec(n).drop_last()) == 0);
    }
}

/// A noun takes an "s" for every count but one.
pub proof fn law_a_counted_noun(n: nat, noun: Chars)
    ensures
        n == 1 ==> counted(n, noun) == "1 "@ + noun,
        n != 1 ==> counted(n, noun) == dec(n) + " "@ + noun + "s"@,
{
    reveal_strlit("1 ");
    reveal_strlit(" ");
    if n == 1 {
        assert(counted(n, noun) =~= "1 "@ + noun);
    }
}

/// A text is its trimmed self between two runs of white space, and the trimmed
/// text has none at either end.
pub proof fn law_trimming_takes_white_space_only(s: Chars) -> (at: int)
    ensures
        0 <= at <= at + trimmed(s).len() <= s.len(),
        trimmed(s) == s.subrange(at, at + trimmed(s).len()),
        forall|i: int| 0 <= i < at ==> is_white(#[trigger] s[i]),
        forall|i: int| at + trimmed(s).len() <= i < s.len() ==> is_white(#[trigger] s[i]),
        trimmed(s).len() > 0 ==> !is_white(trimmed(s)[0]) && !is_white(trimmed(s).last()),
{
    lemma_trimmed_ends(s);
    let from = lemma_trim_start_cut(s);
    let t = trim_start(s);
    let to = lemma_trim_end_cut(t);
    assert(trimmed(s) =~= s.subrange(from, from + to));
    assert forall|i: int| from + to <= i < s.len() implies is_white(#[trigger] s[i]) by {
        assert(t[i - from] == s[i]);
    }
    from
}

proof fn lemma_trim_start_cut(s: Chars) -> (at: int)
    ensures
        0 <= at <= s.len(),
        trim_start(s) == s.skip(at),
        forall|i: int| 0 <= i < at ==> is_white(#[trigger] s[i]),
    decreases s.len(),
{
    if s.len() > 0 && is_white(s[0]) {
        let n = lemma_trim_start_cut(s.drop_first());
        assert(s.drop_first().skip(n) =~= s.skip(n + 1));
        assert forall|i: int| 0 <= i < n + 1 implies is_white(#[trigger] s[i]) by {
            if i > 0 {
                assert(s.drop_first()[i - 1] == s[i]);
            }
        }
        n + 1
    } else {
        assert(s.skip(0) =~= s);
        0
    }
}

proof fn lemma_trim_end_cut(s: Chars) -> (at: int)
    ensures
        0 <= at <= s.len(),
        trim_end(s) == s.take(at),
        forall|i: int| at <= i < s.len() ==> is_white(#[trigger] s[i]),
    decreases s.len(),
{
    if s.len() > 0 && is_white(s.last()) {
        let n = lemma_trim_end_cut(s.drop_last());
        assert(s.drop_last().take(n) =~= s.take(n));
        assert forall|i: int| n <= i < s.len() implies is_white(#[trigger] s[i]) by {
            if i < s.len() - 1 {
                assert(s.drop_last()[i] == s[i]);
            }
        }
        n
    } else {
        assert(s.take(s.len() as int) =~= s);
        s.len() as int
    }
}

/// Two lists are joined as their parts are, with one separator between them, and
/// a single part stands alone.
pub proof fn law_joins_put_one_separator_between(a: Seq<Chars>, b: Seq<Chars>, sep: Chars)
    ensures
        a.len() > 0 && b.len() > 0 ==> joined(a + b, sep) == joined(a, sep) + sep + joined(b, sep),
        a.len() == 1 ==> joined(a, sep) == a[0],
        a.len() == 0 ==> joined(a, sep).len() == 0,
    decreases b.len(),
{
    if a.len() > 0 && b.len() > 0 {
        let all = a + b;
        assert(all.drop_last() =~= a + b.drop_last());
        if b.len() == 1 {
            assert(a + b.drop_last() =~= a);
        } else {
            law_joins_put_one_separator_between(a, b.drop_last(), sep);
            assert(joined(all, sep) =~= joined(a, sep) + sep + joined(b, sep));
        }
    }
}

/// Case is folded letter by letter, in order.
pub proof fn law_case_is_folded_letter_by_letter(a: Chars, b: Chars)
    ensures
        folded(a + b) == folded(a) + folded(b),
        a.len() == 1 ==> folded(a) == lowercase(a[0]),
    decreases b.len(),
{
    if b.len() == 0 {
        assert(a + b =~= a);
        assert(folded(a) + folded(b) =~= folded(a));
    } else {
        law_case_is_folded_letter_by_letter(a, b.drop_last());
        assert((a + b).drop_last() =~= a + b.drop_last());
        assert(folded(a + b) =~= folded(a) + folded(b));
    }
    if a.len() == 1 {
        assert(a.drop_last() =~= Seq::<char>::empty());
        assert(folded(a.drop_last()).len() == 0);
        assert(folded(a) =~= lowercase(a[0]));
    }
}

/// The characters that count as white space, as control characters and as digits.
pub proof fn law_characters_are_told_apart(c: char, w: bool, k: bool, d: bool)
    requires
        call_ensures(white, (c,), w),
        call_ensures(control, (c,), k),
        call_ensures(ascii_digit, (c,), d),
    ensures
        c == ' ' || c == '\t' || c == '\n' || c == '\r' || c == '\u{b}' || c == '\u{c}' ==> w,
        c == '\u{85}' || c == '\u{a0}' || c == '\u{1680}' || c == '\u{2028}' || c == '\u{2029}' || c
            == '\u{202f}' || c == '\u{205f}' || c == '\u{3000}' ==> w,
        '\u{2000}' <= c <= '\u{200a}' ==> w,
        '!' <= c <= '~' ==> !w && !k,
        '\u{a1}' <= c < '\u{1680}' ==> !w && !k,
        '\u{3001}' <= c ==> !w && !k,
        k <==> (c as int) < 32 || 127 <= (c as int) < 160,
        d <==> 48 <= (c as int) < 58,
{
}

} // verus!
