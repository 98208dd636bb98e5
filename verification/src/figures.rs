//! Ledger alignment and relative time for columns of numbers.
//!
//! A size, a count or an age arrives as a finished text. [`split`] finds the
//! boundary between its number and its unit again, [`value_width`] measures a
//! column of them, and [`align`] pads each one so that the units line up.
//! [`ago`] and [`count`] give one voice to elapsed time and to counted nouns.

use crate::text::{self, ascii_digit, chars, counted_noun, repeat, same, trim, Chars};
use vstd::prelude::*;

verus! {

/// A number split from its unit so a column can align on the boundary.
#[derive(Debug, Clone, PartialEq, Eq)]
pub struct Figure {
    /// The numeric prefix, such as "12.4". Empty when the text had no number.
    pub value: String,
    /// Everything after the number, trimmed, such as "MB" or "MB/s".
    pub unit: String,
}

/// Seconds in a minute.
pub const MINUTE: u64 = 60;

/// Seconds in an hour.
pub const HOUR: u64 = 3600;

/// Seconds in a day.
pub const DAY: u64 = 86400;

// ---------------------------------------------------------------------------
// Splitting
// ---------------------------------------------------------------------------

/// The two characters that may stand between two digits of a number.
pub open spec fn is_separator(c: char) -> bool {
    c == '.' || c == ','
}

/// Digits with separators among them: it begins and ends with a digit, and no
/// two separators touch.
pub open spec fn is_magnitude(b: Chars) -> bool {
    &&& b.len() > 0
    &&& text::is_ascii_digit(b[0])
    &&& text::is_ascii_digit(b.last())
    &&& forall|i: int| 0 <= i < b.len() ==> text::is_ascii_digit(#[trigger] b[i]) || is_separator(b[i])
    &&& forall|i: int, j: int|
        0 <= i < b.len() && j == i + 1 && j < b.len() && is_separator(#[trigger] b[i])
            ==> text::is_ascii_digit(#[trigger] b[j])
}

/// A magnitude, or a minus sign and a magnitude.
pub open spec fn is_number(v: Chars) -> bool {
    ||| is_magnitude(v)
    ||| v.len() > 0 && v[0] == '-' && is_magnitude(v.skip(1))
}

/// `v` is the longest number that `t` begins with; empty where there is none.
pub open spec fn is_leading_number(v: Chars, t: Chars) -> bool {
    &&& v.is_prefix_of(t)
    &&& v.len() == 0 || is_number(v)
    &&& forall|k: int| v.len() < k <= t.len() ==> !is_number(#[trigger] t.take(k))
}

fn is_digit(cs: &Vec<char>, i: usize) -> (r: bool)
    ensures
        r == (i < cs.len() && text::is_ascii_digit(cs@[i as int])),
{
    i < cs.len() && ascii_digit(cs[i])
}

/// The characters of `cs` from `from` up to `to`, as a text.
fn span(cs: &Vec<char>, from: usize, to: usize) -> (r: String)
    requires
        from <= to <= cs.len(),
    ensures
        r@ == cs@.subrange(from as int, to as int),
{
    let mut r: String = String::new();
    let mut i: usize = from;
    while i < to
        invariant
            from <= i <= to <= cs.len(),
            r@ =~= cs@.subrange(from as int, i as int),
        decreases to - i,
    {
        r.push(cs[i]);
        i = i + 1;
    }
    r
}

/// Beyond `cut`, where the scan stopped, no longer prefix of `t` is a number.
proof fn lemma_scan_stops(t: Chars, start: int, cut: int, k: int)
    requires
        0 <= start <= cut < k <= t.len(),
        start <= 1,
        start == 1 ==> t[0] == '-' && 1 < t.len() && text::is_ascii_digit(t[1]),
        start == 0 ==> !(t[0] == '-' && 1 < t.len() && text::is_ascii_digit(t[1])),
        !text::is_ascii_digit(t[cut]),
        is_separator(t[cut]) ==> cut == start || !(cut + 1 < t.len() && text::is_ascii_digit(t[cut + 1])),
    ensures
        !is_number(t.take(k)),
{
    let v = t.take(k);
    let from = if v[0] == '-' { 1int } else { 0int };
    if is_number(v) {
        let b = v.skip(from);
        if from == 0 {
            assert(b =~= v);
        }
        assert(is_magnitude(b));
        if from != start {
            assert(b[0] == t[from]);
        }
        assert(b[cut - from] == t[cut]);
        if is_separator(t[cut]) {
            if cut + 1 < k {
                assert(b[cut - from + 1] == t[cut + 1]);
            } else {
                assert(b.last() == t[cut]);
            }
        }
        assert(b[0] == t[from]);
    }
}

/// `value` and `unit` are the two parts of `s`: the longest number it begins
/// with once it is trimmed, and what is left, trimmed.
pub open spec fn is_split(s: Chars, value: Chars, unit: Chars) -> bool {
    &&& is_leading_number(value, text::trimmed(s))
    &&& unit == text::trimmed(text::trimmed(s).skip(value.len() as int))
}

/// Splits a formatted quantity such as "12.4 MB", "900 ms" or "7" into its
/// number and its unit.
///
/// The text is trimmed first. The value is the longest number it then begins
/// with: ASCII digits, with "." and "," between two digits, after a "-" or
/// none. The unit is what is left, trimmed; where there is no number, it is the
/// whole text. Nothing but white space is ever lost.
pub fn split(text: &str) -> (f: Figure)
    ensures
        is_split(text@, f.value@, f.unit@),
        text::marks(f.value@ + f.unit@) == text::marks(text@),
{
    let whole: &str = trim(text);
    let cs: Vec<char> = chars(whole);
    let n: usize = cs.len();
    let ghost t = whole@;
    let start: usize = if n > 0 && cs[0] == '-' && is_digit(&cs, 1) {
        1
    } else {
        0
    };
    let mut cut: usize = start;
    let mut going: bool = true;
    while going && cut < n
        invariant
            start <= cut <= n,
            n == cs.len(),
            cs@ == t,
            start <= 1,
            start == 1 ==> 1 < n && t[0] == '-' && text::is_ascii_digit(t[1]),
            start == 0 && n > 0 ==> !(t[0] == '-' && 1 < n && text::is_ascii_digit(t[1])),
            cut > start ==> text::is_ascii_digit(t[start as int]),
            forall|i: int|
                start <= i < cut ==> text::is_ascii_digit(#[trigger] t[i]) || is_separator(t[i]),
            forall|i: int, j: int|
                start <= i < cut && j == i + 1 && is_separator(#[trigger] t[i]) ==> j < n
                    && text::is_ascii_digit(#[trigger] t[j]),
            !going ==> cut < n && !text::is_ascii_digit(t[cut as int]) && (is_separator(t[cut as int])
                ==> cut == start || !(cut + 1 < n && text::is_ascii_digit(t[cut + 1]))),
        decreases n - cut + (if going {
            1int
        } else {
            0int
        }),
    {
        let c: char = cs[cut];
        if ascii_digit(c) {
            cut = cut + 1;
        } else if (c == '.' || c == ',') && cut > start && is_digit(&cs, cut + 1) {
            cut = cut + 1;
        } else {
            going = false;
        }
    }
    let end: usize = if cut == start {
        0
    } else {
        cut
    };
    proof {
        let v = t.take(end as int);
        if cut > start {
            let b = t.subrange(start as int, cut as int);
            assert forall|i: int| 0 <= i < b.len() implies text::is_ascii_digit(#[trigger] b[i])
                || is_separator(b[i]) by {
                assert(b[i] == t[i + start]);
            }
            assert forall|i: int, j: int|
                0 <= i < b.len() && j == i + 1 && j < b.len() && is_separator(
                    #[trigger] b[i],
                ) implies text::is_ascii_digit(#[trigger] b[j]) by {
                assert(b[i] == t[i + start] && b[j] == t[j + start]);
            }
            assert(b.last() == t[cut - 1]);
            if is_separator(t[cut - 1]) {
                // A separator is taken only when a digit follows, so the scan
                // cannot have stopped right behind one.
                assert(text::is_ascii_digit(t[cut as int]));
            }
            assert(is_magnitude(b));
            if start == 1 {
                assert(v.skip(1) =~= b);
            } else {
                assert(v =~= b);
            }
        }
        assert forall|k: int| end < k <= t.len() implies !is_number(#[trigger] t.take(k)) by {
            if cut < n {
                if cut == start && k <= cut {
                    // Only the sign itself is this short.
                    assert(t.take(k)[0] == '-');
                    assert(t.take(k).skip(1).len() == 0);
                } else {
                    lemma_scan_stops(t, start as int, cut as int, k);
                }
            }
        }
    }
    let value: String = span(&cs, 0, end);
    let rest: String = span(&cs, end, n);
    let unit: String = trim(rest.as_str()).to_owned();
    proof {
        assert(value@ =~= t.take(end as int));
        assert(rest@ =~= t.skip(end as int));
        assert(value@ + rest@ =~= t);
        text::lemma_marks_add(value@, rest@);
        text::lemma_marks_add(value@, unit@);
        text::lemma_trim_marks(rest@);
        text::lemma_trim_marks(text@);
    }
    Figure { value, unit }
}

/// Whether a text is a number and nothing else, white space around it aside.
pub fn numeric(text: &str) -> (r: bool)
    ensures
        r == is_number(text::trimmed(text@)),
{
    let t: &str = trim(text);
    let f: Figure = split(text);
    let value: &str = f.value.as_str();
    let r: bool = !value.is_empty() && same(value, t);
    proof {
        assert(t@.take(t@.len() as int) =~= t@);
        assert(!is_number(Seq::<char>::empty()));
        if is_number(t@) {
            assert(f.value@ =~= t@);
        }
    }
    r
}

// ---------------------------------------------------------------------------
// Columns
// ---------------------------------------------------------------------------

/// The widest value among `figures`, in characters; 0 for none.
pub open spec fn widest(figures: Seq<Figure>) -> nat
    decreases figures.len(),
{
    if figures.len() == 0 {
        0
    } else {
        let w = widest(figures.drop_last());
        let l = figures.last().value@.len();
        if l > w {
            l
        } else {
            w
        }
    }
}

/// The column is as wide as its widest value, and no wider.
pub proof fn law_widest_is_the_maximum(figures: Seq<Figure>)
    ensures
        forall|i: int|
            0 <= i < figures.len() ==> (#[trigger] figures[i]).value@.len() <= widest(figures),
        figures.len() > 0 ==> exists|i: int|
            0 <= i < figures.len() && (#[trigger] figures[i]).value@.len() == widest(figures),
    decreases figures.len(),
{
    if figures.len() > 0 {
        let init = figures.drop_last();
        law_widest_is_the_maximum(init);
        assert forall|i: int| 0 <= i < figures.len() implies (#[trigger] figures[i]).value@.len()
            <= widest(figures) by {
            if i < init.len() {
                assert(init[i] == figures[i]);
            }
        }
        if figures.last().value@.len() > widest(init) || init.len() == 0 {
            assert(figures[figures.len() - 1].value@.len() == widest(figures));
        } else {
            let i = choose|i: int|
                0 <= i < init.len() && (#[trigger] init[i]).value@.len() == widest(init);
            assert(figures[i].value@.len() == widest(figures));
        }
    }
}

/// The width, in characters, that the value column needs so that every figure
/// aligns on the boundary between number and unit.
pub fn value_width(figures: &[Figure]) -> (w: usize)
    ensures
        w == widest(figures@),
{
    let mut w: usize = 0;
    let mut i: usize = 0;
    while i < figures.len()
        invariant
            i <= figures@.len(),
            w == widest(figures@.take(i as int)),
        decreases figures@.len() - i,
    {
        let l: usize = figures[i].value.as_str().unicode_len();
        if l > w {
            w = l;
        }
        proof {
            assert(figures@.take(i + 1).drop_last() =~= figures@.take(i as int));
        }
        i = i + 1;
    }
    proof {
        assert(figures@.take(i as int) =~= figures@);
    }
    w
}

/// The spaces in front of a value in a column `width` characters wide.
pub open spec fn padding(value: Chars, width: nat) -> nat {
    if value.len() < width {
        (width - value.len()) as nat
    } else {
        0
    }
}

/// A figure in a column `width` characters wide: the value flush right, then,
/// where there is a unit, one space and the unit.
pub open spec fn aligned(value: Chars, unit: Chars, width: nat) -> Chars {
    let body = text::repeated(' ', padding(value, width)) + value;
    if unit.len() == 0 {
        body
    } else {
        body.push(' ') + unit
    }
}

/// Renders one figure padded to `width`. A value wider than the column is
/// written in full.
pub fn align(figure: &Figure, width: usize) -> (r: String)
    ensures
        r@ == aligned(figure.value@, figure.unit@, width as nat),
{
    let len: usize = figure.value.as_str().unicode_len();
    let pad: usize = if len < width {
        width - len
    } else {
        0
    };
    let mut out: String = repeat(' ', pad);
    out.append(figure.value.as_str());
    if !figure.unit.as_str().is_empty() {
        out.push(' ');
        out.append(figure.unit.as_str());
    }
    out
}

/// In a column wide enough for its values, every unit begins at the same
/// place: one past the column and its space.
pub proof fn law_units_line_up(value: Chars, unit: Chars, width: nat)
    requires
        value.len() <= width,
        unit.len() > 0,
    ensures
        aligned(value, unit, width).len() == width + 1 + unit.len(),
        aligned(value, unit, width).skip(width as int + 1) == unit,
        aligned(value, unit, width)[width as int] == ' ',
{
    assert(aligned(value, unit, width).skip(width as int + 1) =~= unit);
}

/// Padding never cuts a value short: all of it stands behind the spaces.
pub proof fn law_align_keeps_the_value(value: Chars, unit: Chars, width: nat)
    ensures
        aligned(value, unit, width).subrange(
            padding(value, width) as int,
            (padding(value, width) + value.len()) as int,
        ) == value,
{
    assert(aligned(value, unit, width).subrange(
        padding(value, width) as int,
        (padding(value, width) + value.len()) as int,
    ) =~= value);
}

/// Nothing with a space in it is a number.
proof fn lemma_no_space_in_a_number(v: Chars, at: int)
    requires
        0 <= at < v.len(),
        v[at] == ' ',
    ensures
        !is_number(v),
{
    if is_magnitude(v) {
        assert(text::is_ascii_digit(v[at]) || is_separator(v[at]));
    }
    if v[0] == '-' && is_magnitude(v.skip(1)) {
        assert(v.skip(1)[at - 1] == v[at]);
    }
}

/// A number neither begins nor ends with white space.
pub proof fn lemma_number_ends(v: Chars)
    requires
        is_number(v),
    ensures
        v.len() > 0,
        !text::is_white(v[0]),
        !text::is_white(v.last()),
        forall|i: int| 0 <= i < v.len() ==> #[trigger] v[i] != ' ',
{
    if !is_magnitude(v) {
        assert(v.skip(1).last() == v.last());
    }
    assert forall|i: int| 0 <= i < v.len() implies #[trigger] v[i] != ' ' by {
        if v[i] == ' ' {
            lemma_no_space_in_a_number(v, i);
        }
    }
}

/// Splitting an aligned figure gives the figure back, however wide its column.
pub proof fn law_an_aligned_figure_splits_again(s: Chars, value: Chars, unit: Chars, width: nat)
    requires
        is_split(s, value, unit),
    ensures
        is_split(aligned(value, unit, width), value, unit),
{
    let pad = padding(value, width) as int;
    let line = aligned(value, unit, width);
    let rest = text::trimmed(s).skip(value.len() as int);
    text::lemma_trimmed_ends(s);
    text::lemma_trimmed_ends(rest);
    if value.len() > 0 {
        lemma_number_ends(value);
        text::lemma_trim_padded(line, pad);
        let t = text::trimmed(line);
        assert(value.is_prefix_of(t)) by {
            assert(t.take(value.len() as int) =~= value);
        }
        assert forall|k: int| value.len() < k <= t.len() implies !is_number(
            #[trigger] t.take(k),
        ) by {
            assert(t.take(k)[value.len() as int] == ' ');
            lemma_no_space_in_a_number(t.take(k), value.len() as int);
        }
        let tail = t.skip(value.len() as int);
        if unit.len() == 0 {
            assert(tail =~= Seq::<char>::empty());
            assert(text::trimmed(tail) =~= unit);
        } else {
            assert(tail =~= seq![' '] + unit);
            text::lemma_trim_padded(tail, 1);
            assert(tail.skip(1) =~= unit);
        }
    } else {
        assert(rest =~= text::trimmed(s));
        if unit.len() == 0 {
            text::lemma_trim_padded(line, line.len() as int);
            assert(text::trimmed(line) =~= unit);
        } else {
            text::lemma_trim_padded(line, pad + 1);
            assert(line.skip(pad + 1) =~= unit);
        }
        assert(text::trimmed(line).skip(0) =~= text::trimmed(line));
    }
}

// ---------------------------------------------------------------------------
// Time and counts
// ---------------------------------------------------------------------------

/// The seconds from `then` to `now`; none where `then` lies ahead.
pub open spec fn elapsed(then: nat, now: nat) -> nat {
    if then < now {
        (now - then) as nat
    } else {
        0
    }
}

/// The unit an age is told in: its length in seconds and its noun.
pub open spec fn age_unit(secs: nat) -> (nat, Chars) {
    if secs < HOUR {
        (MINUTE as nat, "minute"@)
    } else if secs < DAY {
        (HOUR as nat, "hour"@)
    } else {
        (DAY as nat, "day"@)
    }
}

/// How long ago something was, in words.
pub open spec fn ago_text(secs: nat) -> Chars {
    if secs < MINUTE {
        "just now"@
    } else {
        text::counted(secs / age_unit(secs).0, age_unit(secs).1) + " ago"@
    }
}

/// How long ago `then` was, relative to `now`, both in seconds since the Unix
/// epoch: "just now" under a minute or where `then` lies ahead, and beyond that
/// whole minutes, hours or days, never rounded up.
pub fn ago(then: u64, now: u64) -> (r: String)
    ensures
        r@ == ago_text(elapsed(then as nat, now as nat)),
{
    let secs: u64 = if then < now {
        now - then
    } else {
        0
    };
    if secs < MINUTE {
        return "just now".to_owned();
    }
    let mut r: String = if secs < HOUR {
        plural(secs / MINUTE, "minute")
    } else if secs < DAY {
        plural(secs / HOUR, "hour")
    } else {
        plural(secs / DAY, "day")
    };
    r.append(" ago");
    r
}

/// An age never claims more time than passed, and falls short of it by less
/// than one of its units.
pub proof fn law_ago_never_overstates(secs: nat)
    requires
        secs >= MINUTE,
    ensures
        ({
            let (unit, noun) = age_unit(secs);
            let told = secs / unit;
            &&& ago_text(secs) == text::counted(told, noun) + " ago"@
            &&& 1 <= told
            &&& told * unit <= secs < (told + 1) * unit
        }),
{
    let unit = age_unit(secs).0;
    let told = secs / unit;
    assert(told * unit <= secs < (told + 1) * unit && 1 <= told) by (nonlinear_arith)
        requires
            told == secs / unit,
            0 < unit <= secs,
    ;
}

/// An age below an hour is told in minutes of sixty seconds, each begun minute
/// left out.
pub proof fn law_minutes_are_sixty_seconds(then: nat, now: nat, k: nat)
    requires
        1 <= k < 60,
        then + 60 * k <= now < then + 60 * (k + 1),
    ensures
        ago_text(elapsed(then, now)) == (if k == 1 {
            text::dec(1) + " minute ago"@
        } else {
            text::dec(k) + " minutes ago"@
        }),
{
    let secs = elapsed(then, now);
    assert(secs / 60 == k);
    lemma_ago_words(k, "minute"@);
    reveal_strlit(" ");
    reveal_strlit("s");
    reveal_strlit(" ago");
    reveal_strlit("minute");
    reveal_strlit(" minute ago");
    reveal_strlit(" minutes ago");
    assert(" "@ + "minute"@ + " ago"@ =~= " minute ago"@);
    assert(" "@ + "minute"@ + "s"@ + " ago"@ =~= " minutes ago"@);
}

/// An age from an hour up to a day is told in hours of 3600 seconds.
pub proof fn law_hours_are_sixty_minutes(then: nat, now: nat, k: nat)
    requires
        1 <= k < 24,
        then + 3_600 * k <= now < then + 3_600 * (k + 1),
    ensures
        ago_text(elapsed(then, now)) == (if k == 1 {
            text::dec(1) + " hour ago"@
        } else {
            text::dec(k) + " hours ago"@
        }),
{
    let secs = elapsed(then, now);
    assert(secs / 3_600 == k);
    lemma_ago_words(k, "hour"@);
    reveal_strlit(" ");
    reveal_strlit("s");
    reveal_strlit(" ago");
    reveal_strlit("hour");
    reveal_strlit(" hour ago");
    reveal_strlit(" hours ago");
    assert(" "@ + "hour"@ + " ago"@ =~= " hour ago"@);
    assert(" "@ + "hour"@ + "s"@ + " ago"@ =~= " hours ago"@);
}

/// An age of a day or more is told in days of 86400 seconds, however many they
/// are.
pub proof fn law_days_are_twenty_four_hours(then: nat, now: nat, k: nat)
    requires
        1 <= k,
        then + 86_400 * k <= now < then + 86_400 * (k + 1),
    ensures
        ago_text(elapsed(then, now)) == (if k == 1 {
            text::dec(1) + " day ago"@
        } else {
            text::dec(k) + " days ago"@
        }),
{
    let secs = elapsed(then, now);
    assert(secs / 86_400 == k);
    lemma_ago_words(k, "day"@);
    reveal_strlit(" ");
    reveal_strlit("s");
    reveal_strlit(" ago");
    reveal_strlit("day");
    reveal_strlit(" day ago");
    reveal_strlit(" days ago");
    assert(" "@ + "day"@ + " ago"@ =~= " day ago"@);
    assert(" "@ + "day"@ + "s"@ + " ago"@ =~= " days ago"@);
}

/// What passed within the last minute is just now.
pub proof fn law_under_a_minute_is_now(then: nat, now: nat)
    requires
        now < then + 60,
    ensures
        ago_text(elapsed(then, now)) == "just now"@,
{
}

proof fn lemma_ago_words(k: nat, noun: Chars)
    ensures
        text::counted(k, noun) + " ago"@ == text::dec(k) + (if k == 1 {
            " "@ + noun + " ago"@
        } else {
            " "@ + noun + "s"@ + " ago"@
        }),
{
    reveal_strlit(" ");
    reveal_strlit("s");
    reveal_strlit(" ago");
    reveal_strlit("");
    assert(text::counted(k, noun) + " ago"@ =~= text::dec(k) + (if k == 1 {
        " "@ + noun + " ago"@
    } else {
        " "@ + noun + "s"@ + " ago"@
    }));
}

/// A moment that lies ahead reads as the present.
pub proof fn law_ago_ahead_is_now(then: nat, now: nat)
    requires
        now <= then,
    ensures
        ago_text(elapsed(then, now)) == "just now"@,
{
}

/// A count with its noun, pluralised: "1 file", "0 files", "3 conflicts".
pub fn count(n: usize, noun: &str) -> (r: String)
    ensures
        r@ == text::counted(n as nat, noun@),
{
    plural(n as u64, noun)
}

/// A plain "s" for every count but one.
pub fn plural(n: u64, noun: &str) -> (r: String)
    ensures
        r@ == text::counted(n as nat, noun@),
{
    counted_noun(n, noun)
}

/// A digit is a number; two numbers in a row are one, with or without a "." or
/// a "," between them; and a minus sign may stand in front.
pub proof fn law_numbers_are_made_of_digits(a: Chars, b: Chars, d: char)
    requires
        is_magnitude(a),
        is_magnitude(b),
        '0' <= d <= '9',
    ensures
        is_number(seq![d]),
        is_number(a + b),
        is_number(a + seq!['.'] + b),
        is_number(a + seq![','] + b),
        is_number(seq!['-'] + a),
{
    assert(is_magnitude(seq![d]));
    lemma_magnitudes_join(a, b);
    lemma_magnitudes_part(a, b, '.');
    lemma_magnitudes_part(a, b, ',');
    assert((seq!['-'] + a).skip(1) =~= a);
}

proof fn lemma_magnitudes_join(a: Chars, b: Chars)
    requires
        is_magnitude(a),
        is_magnitude(b),
    ensures
        is_magnitude(a + b),
{
    let s = a + b;
    assert(s.last() == b.last());
    assert forall|i: int, j: int|
        0 <= i < s.len() && j == i + 1 && j < s.len() && is_separator(
            #[trigger] s[i],
        ) implies text::is_ascii_digit(#[trigger] s[j]) by {
        if i < a.len() - 1 {
            assert(s[i] == a[i] && s[j] == a[j]);
        } else if i == a.len() - 1 {
            assert(s[i] == a.last());
        } else {
            assert(s[i] == b[i - a.len()] && s[j] == b[j - a.len()]);
        }
    }
}

proof fn lemma_magnitudes_part(a: Chars, b: Chars, c: char)
    requires
        is_magnitude(a),
        is_magnitude(b),
        c == '.' || c == ',',
    ensures
        is_magnitude(a + seq![c] + b),
{
    let s = a + seq![c] + b;
    assert(s.last() == b.last());
    assert forall|i: int, j: int|
        0 <= i < s.len() && j == i + 1 && j < s.len() && is_separator(
            #[trigger] s[i],
        ) implies text::is_ascii_digit(#[trigger] s[j]) by {
        if i < a.len() - 1 {
            assert(s[i] == a[i] && s[j] == a[j]);
        } else if i == a.len() - 1 {
            assert(s[i] == a.last());
        } else if i == a.len() {
            assert(s[j] == b[0]);
        } else {
            assert(s[i] == b[i - a.len() - 1] && s[j] == b[j - a.len() - 1]);
        }
    }
}

/// A number holds digits, "." and "," behind its sign, and ends with a digit.
pub proof fn law_a_number_holds_nothing_else(v: Chars, i: int)
    requires
        is_number(v),
        0 <= i < v.len(),
    ensures
        '0' <= v.last() <= '9',
        '0' <= v[i] <= '9' || v[i] == '.' || v[i] == ',' || (i == 0 && v[i] == '-'),
{
    if !is_magnitude(v) {
        let b = v.skip(1);
        assert(b.last() == v.last());
        if i > 0 {
            assert(b[i - 1] == v[i]);
        }
    }
}

/// A number and its unit come apart again, wherever the unit does not itself
/// begin as a number goes on.
pub proof fn law_a_figure_splits_at_its_number(number: Chars, unit: Chars)
    requires
        is_number(number),
        unit.len() > 0,
        !text::is_white(unit[0]),
        !text::is_white(unit.last()),
    ensures
        is_split(number + " "@ + unit, number, unit),
{
    let s = number + " "@ + unit;
    reveal_strlit(" ");
    lemma_number_ends(number);
    text::lemma_trim_padded(s, 0);
    assert(s.skip(0) =~= s);
    assert(s.take(number.len() as int) =~= number);
    assert forall|k: int| number.len() < k <= s.len() implies !is_number(#[trigger] s.take(k)) by {
        assert(s.take(k)[number.len() as int] == ' ');
        lemma_no_space_in_a_number(s.take(k), number.len() as int);
    }
    let rest = s.skip(number.len() as int);
    assert(rest =~= seq![' '] + unit);
    text::lemma_trim_padded(rest, 1);
    assert(rest.skip(1) =~= unit);
}

/// A text splits in one way only.
pub proof fn law_a_text_splits_one_way(s: Chars, v: Chars, u: Chars, w: Chars, x: Chars)
    requires
        is_split(s, v, u),
        is_split(s, w, x),
    ensures
        v == w,
        u == x,
{
    let t = text::trimmed(s);
    assert(v =~= t.take(v.len() as int));
    assert(w =~= t.take(w.len() as int));
    if v.len() < w.len() {
        assert(!is_number(t.take(w.len() as int)));
    }
    if w.len() < v.len() {
        assert(!is_number(t.take(v.len() as int)));
    }
}

/// A value is set flush right: nothing but spaces stands in front of it, just
/// enough of them to fill the column, and nothing behind it but its unit.
pub proof fn law_a_value_is_flush_right(value: Chars, unit: Chars, width: nat, i: int)
    requires
        value.len() <= width,
    ensures
        aligned(value, unit, width).take(width as int).skip(width - value.len()) == value,
        0 <= i < width - value.len() ==> aligned(value, unit, width)[i] == ' ',
        unit.len() == 0 ==> aligned(value, unit, width).len() == width,
{
    let line = aligned(value, unit, width);
    assert(line.take(width as int).skip(width - value.len()) =~= value);
}

} // verus!
