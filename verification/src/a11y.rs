//! Text scale and the sentences a screen reader hears.
//!
//! A painted figure says nothing to a reader who cannot see it, so every figure
//! announces one sentence: what it is, then its parts in reading order.
//! [`sentence`] and [`clause`] build that sentence; [`spoken_ms`] and
//! [`spoken_size`] spell out the units that a drawn caption abbreviates.
//!
//! The text scale is held in ten-thousandths, so that 10000 is the size the
//! window was designed at. Where a scale that is no number may come in, it is
//! an `Option`, and `None` stands for it.

use crate::figures::{self, numeric};
use crate::text::{self, chars, decimal, same, trim, Chars};
use vstd::prelude::*;

verus! {

/// The smallest text scale, in ten-thousandths.
pub const SCALE_MIN: i32 = 7_000;

/// The largest text scale, in ten-thousandths.
pub const SCALE_MAX: i32 = 22_000;

/// The distance between two notches of the text scale: a twentieth.
pub const SCALE_STEP: i32 = 500;

/// The text scale a window starts with.
pub const SCALE_DEFAULT: i32 = 10_000;

// ---------------------------------------------------------------------------
// Text scale
// ---------------------------------------------------------------------------

/// `s` held within the range of the text scale.
pub open spec fn clamped(s: int) -> int {
    if s < SCALE_MIN {
        SCALE_MIN as int
    } else if s > SCALE_MAX {
        SCALE_MAX as int
    } else {
        s
    }
}

/// The scale that was asked for, or the default where none can be made out.
pub open spec fn asked(scale: Option<i32>) -> int {
    match scale {
        Some(s) => s as int,
        None => SCALE_DEFAULT as int,
    }
}

/// The first notch above `s`.
pub open spec fn notch_above(s: int) -> int {
    (s / SCALE_STEP as int + 1) * SCALE_STEP
}

/// The first notch below `s`.
pub open spec fn notch_below(s: int) -> int {
    ((s + SCALE_STEP - 1) / SCALE_STEP as int - 1) * SCALE_STEP
}

/// The scale one step on from `s`.
pub open spec fn stepped(s: int, up: bool) -> int {
    clamped(
        if up {
            notch_above(s)
        } else {
            notch_below(s)
        },
    )
}

/// Holds any scale within the range; what is no number becomes the default.
pub fn clamp_scale(scale: Option<i32>) -> (r: i32)
    ensures
        r == clamped(asked(scale)),
{
    match scale {
        Some(s) => if s < SCALE_MIN {
            SCALE_MIN
        } else if s > SCALE_MAX {
            SCALE_MAX
        } else {
            s
        },
        None => SCALE_DEFAULT,
    }
}

/// The next notch in the given direction, held within the range. A scale
/// between two notches moves to the neighbouring one and is not rounded first.
pub fn step_scale(current: Option<i32>, up: bool) -> (r: i32)
    ensures
        r == stepped(asked(current), up),
{
    let base: i32 = match current {
        Some(s) => s,
        None => SCALE_DEFAULT,
    };
    if base < 0 {
        return SCALE_MIN;
    }
    if base > SCALE_MAX + SCALE_STEP {
        return SCALE_MAX;
    }
    let next: i32 = if up {
        (base / SCALE_STEP + 1) * SCALE_STEP
    } else {
        ((base + SCALE_STEP - 1) / SCALE_STEP - 1) * SCALE_STEP
    };
    clamp_scale(Some(next))
}

/// A scale as a whole percentage, rounded half up.
pub open spec fn scale_percent(s: int) -> nat {
    ((s + 50) / 100) as nat
}

/// The "100%" label of a scale.
pub fn scale_label(scale: Option<i32>) -> (r: String)
    ensures
        r@ == text::dec(scale_percent(clamped(asked(scale)))) + "%"@,
{
    let s: i32 = clamp_scale(scale);
    let mut r: String = decimal(((s + 50) / 100) as u64);
    r.append("%");
    r
}

/// A step lands on a notch within the range, whatever it started from.
pub proof fn law_step_lands_on_a_notch(s: int, up: bool)
    ensures
        SCALE_MIN <= stepped(s, up) <= SCALE_MAX,
        stepped(s, up) % SCALE_STEP as int == 0,
{
}

/// Inside the range a step moves, in the direction asked for, to the nearest
/// notch: there is none in between.
pub proof fn law_step_moves_to_the_next_notch(s: int)
    ensures
        SCALE_MIN - SCALE_STEP <= s < SCALE_MAX ==> s < stepped(s, true) <= s + SCALE_STEP,
        SCALE_MIN < s <= SCALE_MAX + SCALE_STEP ==> s - SCALE_STEP <= stepped(s, false) < s,
{
}

/// From a notch, a step up and a step down come back, and so do a step down and
/// a step up.
pub proof fn law_steps_come_back(s: int)
    requires
        s % SCALE_STEP as int == 0,
    ensures
        SCALE_MIN <= s < SCALE_MAX ==> stepped(stepped(s, true), false) == s,
        SCALE_MIN < s <= SCALE_MAX ==> stepped(stepped(s, false), true) == s,
{
}

/// Clamping a scale twice is clamping it once.
pub proof fn law_clamp_is_idempotent(s: int)
    ensures
        clamped(clamped(s)) == clamped(s),
        SCALE_MIN <= s <= SCALE_MAX ==> clamped(s) == s,
{
}

/// The scale after `n` steps up.
pub open spec fn climbed(s: int, n: nat) -> int
    decreases n,
{
    if n == 0 {
        s
    } else {
        stepped(climbed(s, (n - 1) as nat), true)
    }
}

/// Stepping up from anywhere in the range reaches the largest scale and stays.
pub proof fn law_climb_reaches_the_top(s: int, n: nat)
    requires
        SCALE_MIN <= s <= SCALE_MAX,
        n >= 30,
    ensures
        climbed(s, n) == SCALE_MAX,
{
    lemma_climb(s, n);
}

proof fn lemma_climb(s: int, n: nat)
    requires
        SCALE_MIN <= s <= SCALE_MAX,
    ensures
        climbed(s, n) <= SCALE_MAX,
        n > 0 ==> climbed(s, n) % SCALE_STEP as int == 0,
        n > 0 ==> climbed(s, n) >= SCALE_MAX || climbed(s, n) >= SCALE_MIN + n * SCALE_STEP,
        climbed(s, n) >= SCALE_MIN,
    decreases n,
{
    if n > 0 {
        lemma_climb(s, (n - 1) as nat);
        law_step_lands_on_a_notch(climbed(s, (n - 1) as nat), true);
        law_step_moves_to_the_next_notch(climbed(s, (n - 1) as nat));
    }
}

// ---------------------------------------------------------------------------
// Sentences
// ---------------------------------------------------------------------------

/// Something a sentence can be made of.
pub trait Part {
    /// Its text.
    spec fn said(&self) -> Chars;

    /// Its text.
    fn text(&self) -> (r: &str)
        ensures
            r@ == self.said(),
    ;
}

impl Part for String {
    open spec fn said(&self) -> Chars {
        self@
    }

    fn text(&self) -> (r: &str) {
        self.as_str()
    }
}

impl<'a> Part for &'a str {
    open spec fn said(&self) -> Chars {
        (*self)@
    }

    fn text(&self) -> (r: &str) {
        *self
    }
}

/// The texts of the parts.
pub open spec fn all_said<S: Part>(parts: Seq<S>) -> Seq<Chars> {
    parts.map_values(|p: S| p.said())
}

/// The parts trimmed, without those that are empty then.
pub open spec fn worth_saying(parts: Seq<Chars>) -> Seq<Chars>
    decreases parts.len(),
{
    if parts.len() == 0 {
        Seq::empty()
    } else {
        let init = worth_saying(parts.drop_last());
        let last = text::trimmed(parts.last());
        if last.len() == 0 {
            init
        } else {
            init.push(last)
        }
    }
}

/// The parts as one clause.
pub open spec fn clause_of(parts: Seq<Chars>) -> Chars {
    text::joined(worth_saying(parts), ", "@)
}

/// A lead and its parts as one sentence.
pub open spec fn sentence_of(lead: Chars, parts: Seq<Chars>) -> Chars {
    let head = text::trimmed(lead);
    let body = clause_of(parts);
    if head.len() == 0 {
        body
    } else if body.len() == 0 {
        head
    } else {
        head + ": "@ + body
    }
}

/// The parts of a figure joined into one clause, without the empty ones.
pub fn clause<S: Part>(parts: &[S]) -> (r: String)
    ensures
        r@ == clause_of(all_said(parts@)),
{
    let ghost all = all_said(parts@);
    let mut kept: Vec<String> = Vec::new();
    let mut i: usize = 0;
    proof {
        assert(text::texts(kept@) =~= worth_saying(all.take(0)));
    }
    while i < parts.len()
        invariant
            i <= parts@.len(),
            all == all_said(parts@),
            text::texts(kept@) == worth_saying(all.take(i as int)),
        decreases parts@.len() - i,
    {
        let part: &str = trim(parts[i].text());
        let ghost before = text::texts(kept@);
        proof {
            assert(all.take(i + 1).drop_last() =~= all.take(i as int));
            assert(all.take(i + 1).last() == parts@[i as int].said());
        }
        if !part.is_empty() {
            kept.push(part.to_owned());
            proof {
                assert(text::texts(kept@) =~= before.push(part@));
            }
        }
        i = i + 1;
    }
    proof {
        assert(all.take(i as int) =~= all);
    }
    text::join(&kept, ", ")
}

/// The one sentence a figure announces: `lead` names it and what it holds, and
/// `parts` are its marks in reading order. Empty parts drop out.
pub fn sentence<S: Part>(lead: &str, parts: &[S]) -> (r: String)
    ensures
        r@ == sentence_of(lead@, all_said(parts@)),
{
    let head: &str = trim(lead);
    let body: String = clause(parts);
    if head.is_empty() {
        body
    } else if body.as_str().is_empty() {
        head.to_owned()
    } else {
        let mut r: String = head.to_owned();
        r.append(": ");
        r.append(body.as_str());
        r
    }
}

/// A sentence never announces a colon with nothing behind it: with no part worth
/// saying it is the lead alone, and without a lead the parts alone.
pub proof fn law_sentence_survives_missing_halves(lead: Chars, parts: Seq<Chars>)
    ensures
        worth_saying(parts).len() == 0 ==> sentence_of(lead, parts) == text::trimmed(lead),
        text::trimmed(lead).len() == 0 ==> sentence_of(lead, parts) == clause_of(parts),
{
    if worth_saying(parts).len() == 0 && text::trimmed(lead).len() == 0 {
        assert(clause_of(parts) =~= text::trimmed(lead));
    }
}

/// A part that is empty or white space can be left out without a change.
pub proof fn law_empty_parts_are_free(before: Seq<Chars>, part: Chars, after: Seq<Chars>)
    requires
        text::trimmed(part).len() == 0,
    ensures
        clause_of(before.push(part) + after) == clause_of(before + after),
{
    lemma_worth_saying_without(before, part, after);
}

proof fn lemma_worth_saying_without(before: Seq<Chars>, part: Chars, after: Seq<Chars>)
    requires
        text::trimmed(part).len() == 0,
    ensures
        worth_saying(before.push(part) + after) == worth_saying(before + after),
    decreases after.len(),
{
    if after.len() == 0 {
        assert(before.push(part) + after =~= before.push(part));
        assert(before + after =~= before);
        assert(before.push(part).drop_last() =~= before);
    } else {
        lemma_worth_saying_without(before, part, after.drop_last());
        assert((before.push(part) + after).drop_last() =~= before.push(part) + after.drop_last());
        assert((before + after).drop_last() =~= before + after.drop_last());
    }
}

// ---------------------------------------------------------------------------
// Spoken units
// ---------------------------------------------------------------------------

/// A round-trip time in words.
pub open spec fn spoken_ms_text(ms: nat) -> Chars {
    if ms == 1 {
        "1 millisecond"@
    } else {
        text::dec(ms) + " milliseconds"@
    }
}

/// A round-trip time with its unit spelled out.
pub fn spoken_ms(ms: u64) -> (r: String)
    ensures
        r@ == spoken_ms_text(ms as nat),
{
    if ms == 1 {
        "1 millisecond".to_owned()
    } else {
        let mut r: String = decimal(ms);
        r.append(" milliseconds");
        r
    }
}

/// The words for a unit of size, for one of it and for many.
pub open spec fn unit_words(unit: Chars) -> Option<(Chars, Chars)> {
    if unit == "B"@ {
        Some(("byte"@, "bytes"@))
    } else if unit == "KB"@ {
        Some(("kilobyte"@, "kilobytes"@))
    } else if unit == "MB"@ {
        Some(("megabyte"@, "megabytes"@))
    } else if unit == "GB"@ {
        Some(("gigabyte"@, "gigabytes"@))
    } else if unit == "TB"@ {
        Some(("terabyte"@, "terabytes"@))
    } else {
        None
    }
}

fn words_of(unit: &str) -> (r: Option<(&'static str, &'static str)>)
    ensures
        match r {
            Some((one, many)) => unit_words(unit@) == Some((one@, many@)),
            None => unit_words(unit@) is None,
        },
{
    if same(unit, "B") {
        Some(("byte", "bytes"))
    } else if same(unit, "KB") {
        Some(("kilobyte", "kilobytes"))
    } else if same(unit, "MB") {
        Some(("megabyte", "megabytes"))
    } else if same(unit, "GB") {
        Some(("gigabyte", "gigabytes"))
    } else if same(unit, "TB") {
        Some(("terabyte", "terabytes"))
    } else {
        None
    }
}

/// The last space among the first `n` characters of `s`.
pub open spec fn last_space(s: Chars, n: int) -> Option<int>
    decreases n,
{
    if n <= 0 {
        None
    } else if s[n - 1] == ' ' {
        Some(n - 1)
    } else {
        last_space(s, n - 1)
    }
}

/// Whether `s` is told per second.
pub open spec fn is_rate(s: Chars) -> bool {
    s.len() >= 2 && s[s.len() - 2] == '/' && s[s.len() - 1] == 's'
}

/// What stands in front of the "/s" of a rate; a size as it is.
pub open spec fn without_rate(s: Chars) -> Chars {
    if is_rate(s) {
        text::trim_end(s.take(s.len() - 2))
    } else {
        s
    }
}

/// A size or rate in words; a text of any other shape as it is.
pub open spec fn spoken_size_text(s: Chars) -> Chars {
    let t = text::trimmed(s);
    let head = without_rate(t);
    match last_space(head, head.len() as int) {
        None => s,
        Some(at) => {
            let value = head.take(at);
            match unit_words(head.skip(at + 1)) {
                None => s,
                Some((one, many)) => if figures::is_number(text::trimmed(value)) {
                    let word = if text::trimmed(value) == "1"@ {
                        one
                    } else {
                        many
                    };
                    let told = value + " "@ + word;
                    if is_rate(t) {
                        told + " per second"@
                    } else {
                        told
                    }
                } else {
                    s
                },
            }
        },
    }
}

/// A value and a unit as a caption writes them.
pub open spec fn captioned(value: Chars, unit: Chars) -> Chars {
    value + " "@ + unit
}

/// Whether a text is a number and one of the units, or such a rate.
pub open spec fn is_size(s: Chars) -> bool {
    exists|value: Chars, unit: Chars|
        {
            &&& figures::is_number(text::trimmed(value))
            &&& unit_words(unit) is Some
            &&& without_rate(text::trimmed(s)) == #[trigger] captioned(value, unit)
        }
}

fn find_last_space(cs: &Vec<char>) -> (r: Option<usize>)
    ensures
        match r {
            Some(at) => at < cs.len() && last_space(cs@, cs.len() as int) == Some(at as int),
            None => last_space(cs@, cs.len() as int) is None,
        },
{
    let mut n: usize = cs.len();
    while n > 0
        invariant
            n <= cs.len(),
            last_space(cs@, cs.len() as int) == last_space(cs@, n as int),
        decreases n,
    {
        if cs[n - 1] == ' ' {
            return Some(n - 1);
        }
        n = n - 1;
    }
    None
}

/// Spells the unit of a size or rate: "1.5 KB/s" is "1.5 kilobytes per second".
/// A text that is not a number and one of the units comes back unchanged.
pub fn spoken_size(text: &str) -> (r: String)
    ensures
        r@ == spoken_size_text(text@),
{
    let t: &str = trim(text);
    let len: usize = t.unicode_len();
    let per_second: bool = len >= 2 && t.get_char(len - 2) == '/' && t.get_char(len - 1) == 's';
    let head: &str = if per_second {
        let cut: &str = t.substring_char(0, len - 2);
        proof {
            assert(t@.take(len - 2) =~= cut@);
        }
        text::trim_tail(cut)
    } else {
        t
    };
    let cs: Vec<char> = chars(head);
    match find_last_space(&cs) {
        None => text.to_owned(),
        Some(at) => {
            let value: &str = head.substring_char(0, at);
            let unit: &str = head.substring_char(at + 1, cs.len());
            proof {
                assert(value@ =~= head@.take(at as int));
                assert(unit@ =~= head@.skip(at + 1));
            }
            match words_of(unit) {
                None => text.to_owned(),
                Some((one, many)) => {
                    if !numeric(value) {
                        return text.to_owned();
                    }
                    let mut r: String = value.to_owned();
                    r.append(" ");
                    if same(trim(value), "1") {
                        r.append(one);
                    } else {
                        r.append(many);
                    }
                    if per_second {
                        r.append(" per second");
                    }
                    r
                },
            }
        },
    }
}

proof fn lemma_last_space_at(s: Chars, at: int, n: int)
    requires
        0 <= at < n <= s.len(),
        s[at] == ' ',
        forall|i: int| at < i < n ==> s[i] != ' ',
    ensures
        last_space(s, n) == Some(at),
    decreases n,
{
    if n - 1 > at {
        lemma_last_space_at(s, at, n - 1);
    }
}

proof fn lemma_last_space(s: Chars, n: int)
    requires
        0 <= n <= s.len(),
    ensures
        match last_space(s, n) {
            Some(at) => 0 <= at < n && s[at] == ' ',
            None => true,
        },
    decreases n,
{
    if n > 0 && s[n - 1] != ' ' {
        lemma_last_space(s, n - 1);
    }
}

/// A unit is one word that ends in a letter.
proof fn lemma_unit(unit: Chars)
    requires
        unit_words(unit) is Some,
    ensures
        unit.len() > 0,
        unit.last() == 'B',
        forall|i: int| 0 <= i < unit.len() ==> unit[i] != ' ',
{
    reveal_strlit("B");
    reveal_strlit("KB");
    reveal_strlit("MB");
    reveal_strlit("GB");
    reveal_strlit("TB");
}

/// Only a number and a unit are put in words: every other text comes back as it
/// is, to the last blank.
pub proof fn law_other_texts_come_back_unchanged(s: Chars)
    requires
        !is_size(s),
    ensures
        spoken_size_text(s) == s,
{
    let head = without_rate(text::trimmed(s));
    lemma_last_space(head, head.len() as int);
    match last_space(head, head.len() as int) {
        Some(at) => {
            reveal_strlit(" ");
            assert(head =~= captioned(head.take(at), head.skip(at + 1)));
        },
        None => {},
    }
}

/// A number and a unit are always put in words, by themselves and per second.
pub proof fn law_a_number_and_a_unit_are_spelled(value: Chars, unit: Chars)
    requires
        figures::is_number(value),
        unit_words(unit) is Some,
    ensures
        ({
            let (one, many) = unit_words(unit)->0;
            let told = value + " "@ + if value == "1"@ {
                one
            } else {
                many
            };
            &&& spoken_size_text(captioned(value, unit)) == told
            &&& spoken_size_text(captioned(value, unit) + "/s"@) == told + " per second"@
        }),
{
    let head = captioned(value, unit);
    let rate = head + "/s"@;
    let at = value.len() as int;
    reveal_strlit(" ");
    reveal_strlit("/s");
    figures::lemma_number_ends(value);
    lemma_unit(unit);
    text::lemma_trim_padded(value, 0);
    assert(value.skip(0) =~= value);
    text::lemma_trim_padded(head, 0);
    assert(head.skip(0) =~= head);
    text::lemma_trim_padded(rate, 0);
    assert(rate.skip(0) =~= rate);
    assert(rate.take(rate.len() - 2) =~= head);
    assert(head.last() == 'B');
    assert forall|i: int| at < i < head.len() implies head[i] != ' ' by {
        assert(head[i] == unit[i - at - 1]);
    }
    lemma_last_space_at(head, at, head.len() as int);
    assert(head.take(at) =~= value);
    assert(head.skip(at + 1) =~= unit);
}

// ---------------------------------------------------------------------------
// What the scale and the sentences promise
// ---------------------------------------------------------------------------

/// A text scale lies between 70 and 220 percent: what is asked for within that
/// is granted, what is beyond it is brought to the nearer end, and what is no
/// number is 100 percent.
pub proof fn law_the_scale_is_granted_within_its_ends(scale: Option<i32>, r: i32)
    requires
        call_ensures(clamp_scale, (scale,), r),
    ensures
        scale is None ==> r == 10_000,
        scale is Some && 7_000 <= scale->0 <= 22_000 ==> r == scale->0,
        scale is Some && scale->0 < 7_000 ==> r == 7_000,
        scale is Some && scale->0 > 22_000 ==> r == 22_000,
{
}

/// A step lands on the next multiple of five percent in its direction: no other
/// one lies between, and at the end of the range it stays.
pub proof fn law_a_step_takes_the_next_five_percent(scale: i32, up: bool, r: i32, notch: int)
    requires
        call_ensures(step_scale, (Some(scale), up), r),
        7_000 <= scale <= 22_000,
        notch % 500 == 0,
    ensures
        r % 500 == 0,
        up && scale < 22_000 ==> scale < r <= 22_000 && (scale < notch ==> r <= notch),
        !up && scale > 7_000 ==> 7_000 <= r < scale && (notch < scale ==> notch <= r),
        up && scale == 22_000 ==> r == 22_000,
        !up && scale == 7_000 ==> r == 7_000,
{
    law_step_lands_on_a_notch(scale as int, up);
    law_step_moves_to_the_next_notch(scale as int);
}

/// The scale is told in the nearest whole percent, the larger one halfway.
pub proof fn law_the_label_is_the_nearest_percent(scale: i32, percent: nat, r: String)
    requires
        call_ensures(scale_label, (Some(scale),), r),
        7_000 <= scale <= 22_000,
        100 * percent <= scale + 50 < 100 * (percent + 1),
    ensures
        r@ == text::dec(percent) + "%"@,
{
}

/// What is said of two lists is said of each, in order, with a comma between;
/// what is said of one part is the part, trimmed.
pub proof fn law_every_part_is_said_in_order(a: Seq<Chars>, b: Seq<Chars>)
    ensures
        clause_of(a).len() > 0 && clause_of(b).len() > 0 ==> clause_of(a + b) == clause_of(a)
            + ", "@ + clause_of(b),
        clause_of(a).len() == 0 ==> clause_of(a + b) == clause_of(b),
        clause_of(b).len() == 0 ==> clause_of(a + b) == clause_of(a),
        a.len() == 1 ==> clause_of(a) == text::trimmed(a[0]),
        a.len() == 0 ==> clause_of(a).len() == 0,
{
    lemma_worth_saying_adds(a, b);
    let x = worth_saying(a);
    let y = worth_saying(b);
    text::law_joins_put_one_separator_between(x, y, ", "@);
    lemma_clause_is_empty(a);
    lemma_clause_is_empty(b);
    if x.len() == 0 {
        assert(x + y =~= y);
    }
    if y.len() == 0 {
        assert(x + y =~= x);
    }
    if a.len() == 1 {
        assert(worth_saying(a.drop_last()) =~= Seq::<Chars>::empty());
        assert(a.last() == a[0]);
        if text::trimmed(a[0]).len() > 0 {
            assert(x =~= seq![text::trimmed(a[0])]);
        } else {
            assert(clause_of(a) =~= text::trimmed(a[0]));
        }
    }
}

proof fn lemma_worth_saying_adds(a: Seq<Chars>, b: Seq<Chars>)
    ensures
        worth_saying(a + b) == worth_saying(a) + worth_saying(b),
    decreases b.len(),
{
    if b.len() == 0 {
        assert(a + b =~= a);
        assert(worth_saying(a) + worth_saying(b) =~= worth_saying(a));
    } else {
        lemma_worth_saying_adds(a, b.drop_last());
        assert((a + b).drop_last() =~= a + b.drop_last());
        assert(worth_saying(a + b) =~= worth_saying(a) + worth_saying(b));
    }
}

proof fn lemma_said_parts_are_filled(parts: Seq<Chars>)
    ensures
        forall|i: int|
            0 <= i < worth_saying(parts).len() ==> (#[trigger] worth_saying(parts)[i]).len() > 0,
    decreases parts.len(),
{
    if parts.len() > 0 {
        lemma_said_parts_are_filled(parts.drop_last());
        let init = worth_saying(parts.drop_last());
        assert forall|i: int| 0 <= i < worth_saying(parts).len() implies (
        #[trigger] worth_saying(parts)[i]).len() > 0 by {
            if i < init.len() {
                assert(worth_saying(parts)[i] == init[i]);
            }
        }
    }
}

proof fn lemma_clause_is_empty(parts: Seq<Chars>)
    ensures
        clause_of(parts).len() == 0 <==> worth_saying(parts).len() == 0,
{
    lemma_said_parts_are_filled(parts);
    let x = worth_saying(parts);
    if x.len() > 0 {
        assert(x.last().len() > 0);
        assert(x.last() == x[x.len() - 1]);
    }
}

/// A sentence is its lead, a colon and what there is to say.
pub proof fn law_a_sentence_leads_and_tells(lead: Chars, parts: Seq<Chars>)
    ensures
        text::trimmed(lead).len() > 0 && clause_of(parts).len() > 0 ==> sentence_of(lead, parts)
            == text::trimmed(lead) + ": "@ + clause_of(parts),
        clause_of(parts).len() == 0 ==> sentence_of(lead, parts) == text::trimmed(lead),
        text::trimmed(lead).len() == 0 ==> sentence_of(lead, parts) == clause_of(parts),
{
    if clause_of(parts).len() == 0 && text::trimmed(lead).len() == 0 {
        assert(clause_of(parts) =~= text::trimmed(lead));
    }
}

/// A round trip is told in milliseconds, one of them without the "s".
pub proof fn law_milliseconds_are_counted(ms: u64, r: String)
    requires
        call_ensures(spoken_ms, (ms,), r),
    ensures
        r@ == text::counted(ms as nat, "millisecond"@),
{
    text::law_a_counted_noun(ms as nat, "millisecond"@);
    reveal_strlit("1 millisecond");
    reveal_strlit(" milliseconds");
    reveal_strlit("1 ");
    reveal_strlit(" ");
    reveal_strlit("s");
    reveal_strlit("millisecond");
    assert("1 "@ + "millisecond"@ =~= "1 millisecond"@);
    assert(text::dec(ms as nat) + " "@ + "millisecond"@ + "s"@ =~= text::dec(ms as nat)
        + " milliseconds"@);
}

/// The five units are spelled out, and nothing else is a unit.
pub proof fn law_units_are_spelled_out(unit: Chars)
    ensures
        unit == "B"@ ==> unit_words(unit) == Some(("byte"@, "bytes"@)),
        unit == "KB"@ ==> unit_words(unit) == Some(("kilobyte"@, "kilobytes"@)),
        unit == "MB"@ ==> unit_words(unit) == Some(("megabyte"@, "megabytes"@)),
        unit == "GB"@ ==> unit_words(unit) == Some(("gigabyte"@, "gigabytes"@)),
        unit == "TB"@ ==> unit_words(unit) == Some(("terabyte"@, "terabytes"@)),
        unit_words(unit) is Some ==> unit == "B"@ || unit == "KB"@ || unit == "MB"@ || unit
            == "GB"@ || unit == "TB"@,
{
    reveal_strlit("B");
    reveal_strlit("KB");
    reveal_strlit("MB");
    reveal_strlit("GB");
    reveal_strlit("TB");
    assert("B"@.len() == 1);
    assert("KB"@[0] == 'K' && "MB"@[0] == 'M' && "GB"@[0] == 'G' && "TB"@[0] == 'T');
}

/// White space around a size changes nothing of what is said of it.
pub proof fn law_a_size_is_told_without_its_padding(s: Chars)
    ensures
        spoken_size_text(s) == s || spoken_size_text(s) == spoken_size_text(text::trimmed(s)),
{
    text::lemma_trimmed_ends(s);
}

} // verus!
