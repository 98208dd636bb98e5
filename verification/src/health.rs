//! Peer health in words: the grade of a link, the trend of its round trips and
//! the two transfer rates.
//!
//! A reading is a position in a peer's own range, in ten-thousandths; `None`
//! stands for a reading that is no number.

use crate::a11y::{self, sentence, spoken_size};
use crate::geometry::{Frame, Point};
use crate::text::{self, decimal, same, trim, Chars};
use vstd::prelude::*;

verus! {

/// What the rate column shows for an idle link.
pub const NO_RATE: &'static str = "—";

/// What the seal is called.
pub const SIGNAL_LEAD: &'static str = "link";

/// What the plot of round trips is called.
pub const TREND_LEAD: &'static str = "round-trip history";

/// A plot without readings.
pub const TREND_NONE: &'static str = "no readings yet";

/// A plot of a single reading.
pub const TREND_ONE: &'static str = "one reading so far";

/// A trail that climbs.
pub const RISING: &'static str = "rising";

/// A trail that falls.
pub const FALLING: &'static str = "falling";

/// A trail that does neither.
pub const STEADY: &'static str = "steady";

/// What leaves this device.
pub const SENDING: &'static str = "sending";

/// What arrives at it.
pub const RECEIVING: &'static str = "receiving";

/// An idle direction.
pub const RATE_IDLE: &'static str = "nothing";

/// The whole of a peer's own range.
pub const FULL_LEVEL: u32 = 10_000;

/// How far the second half of a trail must sit from the first before the trail
/// is called anything but steady.
pub const TREND_SWING: u32 = 1_000;

// ---------------------------------------------------------------------------
// Grades
// ---------------------------------------------------------------------------

/// How many marks of the seal a grade strikes.
pub open spec fn lit_marks(grade: Chars) -> nat {
    if grade == "Good"@ {
        3
    } else if grade == "Fair"@ {
        2
    } else if grade == "Poor"@ {
        1
    } else {
        0
    }
}

/// How many of the three marks of the seal a grade strikes. A grade that is not
/// one of the house's strikes none.
pub fn grade_lit(grade: &str) -> (r: u8)
    ensures
        r == lit_marks(grade@),
        r <= 3,
{
    if same(grade, "Good") {
        3
    } else if same(grade, "Fair") {
        2
    } else if same(grade, "Poor") {
        1
    } else {
        0
    }
}

/// The word for a seal with that many marks struck.
pub open spec fn grade_word(lit: nat) -> Chars {
    if lit == 0 {
        "offline"@
    } else if lit == 1 {
        "poor"@
    } else if lit == 2 {
        "fair"@
    } else {
        "good"@
    }
}

/// The grade of a link in words, from the marks that strike its seal.
pub fn signal_sentence(lit: u8) -> (r: String)
    ensures
        r@ == SIGNAL_LEAD@ + " "@ + grade_word(lit as nat) + ", "@ + text::dec(
            if lit > 3 {
                3
            } else {
                lit as nat
            },
        ) + " of 3"@,
{
    let lit: u8 = if lit > 3 {
        3
    } else {
        lit
    };
    let mut r: String = SIGNAL_LEAD.to_owned();
    r.append(" ");
    if lit == 0 {
        r.append("offline");
    } else if lit == 1 {
        r.append("poor");
    } else if lit == 2 {
        r.append("fair");
    } else {
        r.append("good");
    }
    r.append(", ");
    r.append(decimal(lit as u64).as_str());
    r.append(" of 3");
    r
}

// ---------------------------------------------------------------------------
// Round trips
// ---------------------------------------------------------------------------

/// A reading held within the band; what is no number rests on its floor.
pub open spec fn level_of(sample: Option<i32>) -> nat {
    match sample {
        Some(s) => if s <= 0 {
            0
        } else if s >= FULL_LEVEL {
            FULL_LEVEL as nat
        } else {
            s as nat
        },
        None => 0,
    }
}

/// A reading as the plot reads it.
pub fn level(sample: Option<i32>) -> (r: u32)
    ensures
        r == level_of(sample),
        r <= FULL_LEVEL,
{
    match sample {
        Some(s) => if s <= 0 {
            0
        } else if s >= 10_000 {
            FULL_LEVEL
        } else {
            s as u32
        },
        None => 0,
    }
}

/// The sum of the levels of the readings.
pub open spec fn level_sum(samples: Seq<Option<i32>>) -> nat
    decreases samples.len(),
{
    if samples.len() == 0 {
        0
    } else {
        level_sum(samples.drop_last()) + level_of(samples.last())
    }
}

/// The mean of `new` lies above the mean of `old` by more than the swing that
/// counts. The mean of no readings is the floor.
pub open spec fn swings_above(new: Seq<Option<i32>>, old: Seq<Option<i32>>) -> bool {
    if new.len() == 0 {
        false
    } else if old.len() == 0 {
        level_sum(new) > TREND_SWING * new.len()
    } else {
        level_sum(new) * old.len() > level_sum(old) * new.len() + TREND_SWING * (new.len()
            * old.len())
    }
}

/// Which way a trail leans: its second half against its first.
pub open spec fn trend_word(samples: Seq<Option<i32>>) -> Chars {
    let half = samples.len() as int / 2;
    let old = samples.take(half);
    let new = samples.skip(half);
    if swings_above(new, old) {
        RISING@
    } else if swings_above(old, new) {
        FALLING@
    } else {
        STEADY@
    }
}

fn sum_levels(samples: &[Option<i32>], from: usize, to: usize) -> (r: u128)
    requires
        from <= to <= samples@.len(),
    ensures
        r == level_sum(samples@.subrange(from as int, to as int)),
        r <= FULL_LEVEL * (to - from),
{
    let mut sum: u128 = 0;
    let mut i: usize = from;
    while i < to
        invariant
            from <= i <= to <= samples@.len(),
            sum == level_sum(samples@.subrange(from as int, i as int)),
            sum <= FULL_LEVEL * (i - from),
        decreases to - i,
    {
        proof {
            let next = samples@.subrange(from as int, i + 1);
            assert(next.drop_last() =~= samples@.subrange(from as int, i as int));
            assert(next.last() == samples@[i as int]);
        }
        sum = sum + level(samples[i]) as u128;
        i = i + 1;
    }
    sum
}

/// `swings_above` over the sums and the counts.
fn swung(new_sum: u128, new_len: u128, old_sum: u128, old_len: u128) -> (r: bool)
    requires
        new_len <= u64::MAX,
        old_len <= u64::MAX,
        new_sum <= FULL_LEVEL * new_len,
        old_sum <= FULL_LEVEL * old_len,
    ensures
        r == (if new_len == 0 {
            false
        } else if old_len == 0 {
            new_sum > TREND_SWING * new_len
        } else {
            new_sum * old_len > old_sum * new_len + TREND_SWING * (new_len * old_len)
        }),
{
    if new_len == 0 {
        return false;
    }
    if old_len == 0 {
        return new_sum > 1_000 * new_len;
    }
    // Compared as mean against mean plus swing, in whole parts and remainders,
    // so that no product outgrows its type.
    let new_whole: u128 = new_sum / new_len;
    let old_whole: u128 = old_sum / old_len;
    let new_rest: u128 = new_sum % new_len;
    let old_rest: u128 = old_sum % old_len;
    let r: bool = if new_whole != old_whole + 1_000 {
        new_whole > old_whole + 1_000
    } else {
        proof {
            lemma_rest_fits(new_rest as int, old_len as int);
            lemma_rest_fits(old_rest as int, new_len as int);
        }
        new_rest * old_len > old_rest * new_len
    };
    proof {
        lemma_mean_compare(
            new_sum as int,
            new_len as int,
            old_sum as int,
            old_len as int,
        );
    }
    r
}

proof fn lemma_rest_fits(rest: int, len: int)
    requires
        0 <= rest <= u64::MAX,
        0 <= len <= u64::MAX,
    ensures
        0 <= rest * len <= u128::MAX,
{
    assert(0 <= rest * len <= u64::MAX * u64::MAX) by (nonlinear_arith)
        requires
            0 <= rest <= u64::MAX,
            0 <= len <= u64::MAX,
    ;
}

/// Comparing whole parts and remainders compares the products.
proof fn lemma_mean_compare(ns: int, nl: int, os: int, ol: int)
    requires
        nl > 0,
        ol > 0,
        ns >= 0,
        os >= 0,
    ensures
        ({
            let nw = ns / nl;
            let ow = os / ol;
            let nr = ns % nl;
            let or = os % ol;
            (ns * ol > os * nl + 1_000 * (nl * ol)) == (if nw != ow + 1_000 {
                nw > ow + 1_000
            } else {
                nr * ol > or * nl
            })
        }),
{
    let nw = ns / nl;
    let ow = os / ol;
    let nr = ns % nl;
    let or = os % ol;
    let d = nw - ow - 1_000;
    assert(ns == nw * nl + nr && 0 <= nr < nl) by (nonlinear_arith)
        requires
            nl > 0,
            nw == ns / nl,
            nr == ns % nl,
    ;
    assert(os == ow * ol + or && 0 <= or < ol) by (nonlinear_arith)
        requires
            ol > 0,
            ow == os / ol,
            or == os % ol,
    ;
    assert(ns * ol - os * nl - 1_000 * (nl * ol) == d * (nl * ol) + (nr * ol - or * nl))
        by (nonlinear_arith)
        requires
            ns == nw * nl + nr,
            os == ow * ol + or,
            d == nw - ow - 1_000,
    ;
    assert(0 <= nr * ol < nl * ol && 0 <= or * nl < nl * ol) by (nonlinear_arith)
        requires
            0 <= nr < nl,
            0 <= or < ol,
    ;
    if d >= 1 {
        assert(d * (nl * ol) >= nl * ol) by (nonlinear_arith)
            requires
                d >= 1,
                nl * ol > 0,
        ;
    } else if d <= -1 {
        assert(d * (nl * ol) <= -(nl * ol)) by (nonlinear_arith)
            requires
                d <= -1,
                nl * ol > 0,
        ;
    } else {
        assert(d * (nl * ol) == 0) by (nonlinear_arith)
            requires
                d == 0,
        ;
    }
}

/// Which way the trail leans: the second half of the history against the first.
pub fn trend_of(samples: &[Option<i32>]) -> (r: &'static str)
    ensures
        r@ == trend_word(samples@),
{
    let half: usize = samples.len() / 2;
    let n: usize = samples.len();
    let old_sum: u128 = sum_levels(samples, 0, half);
    let new_sum: u128 = sum_levels(samples, half, n);
    let old_len: u128 = half as u128;
    let new_len: u128 = (n - half) as u128;
    proof {
        assert(samples@.subrange(0, half as int) =~= samples@.take(half as int));
        assert(samples@.subrange(half as int, n as int) =~= samples@.skip(half as int));
        assert(new_len * old_len == old_len * new_len) by (nonlinear_arith);
    }
    if swung(new_sum, new_len, old_sum, old_len) {
        RISING
    } else if swung(old_sum, old_len, new_sum, new_len) {
        FALLING
    } else {
        STEADY
    }
}

/// The parts of the sentence on a plot.
pub open spec fn trend_parts(samples: Seq<Option<i32>>) -> Seq<Chars> {
    if samples.len() == 0 {
        seq![TREND_NONE@]
    } else if samples.len() == 1 {
        seq![TREND_ONE@]
    } else {
        seq![
            text::dec(samples.len()) + " readings"@,
            "latest "@ + text::dec(level_of(samples.last()) / 100)
                + " percent of its own range"@,
            trend_word(samples),
        ]
    }
}

/// The plot in words: how much history there is, where the newest reading sits
/// in the peer's own range, and which way the trail is going.
pub fn trend_sentence(samples: &[Option<i32>]) -> (r: String)
    ensures
        r@ == a11y::sentence_of(TREND_LEAD@, trend_parts(samples@)),
{
    let mut parts: Vec<String> = Vec::new();
    let n: usize = samples.len();
    if n == 0 {
        parts.push(TREND_NONE.to_owned());
    } else if n == 1 {
        parts.push(TREND_ONE.to_owned());
    } else {
        let mut many: String = decimal(n as u64);
        many.append(" readings");
        parts.push(many);
        let mut latest: String = "latest ".to_owned();
        latest.append(decimal((level(samples[n - 1]) / 100) as u64).as_str());
        latest.append(" percent of its own range");
        parts.push(latest);
        parts.push(trend_of(samples).to_owned());
    }
    proof {
        assert(a11y::all_said(parts@) =~= trend_parts(samples@));
    }
    sentence(TREND_LEAD, parts.as_slice())
}

/// A trail whose readings all sit at one level is steady, but for a lone reading:
/// that one is measured against the floor.
pub proof fn law_a_flat_trail_is_steady(samples: Seq<Option<i32>>, at: nat)
    requires
        forall|i: int| 0 <= i < samples.len() ==> level_of(#[trigger] samples[i]) == at,
        samples.len() != 1,
    ensures
        trend_word(samples) == STEADY@,
{
    if samples.len() > 0 {
        let half = samples.len() as int / 2;
        let old = samples.take(half);
        let new = samples.skip(half);
        lemma_flat_sum(old, at);
        lemma_flat_sum(new, at);
        assert(at * new.len() * old.len() == at * old.len() * new.len()) by (nonlinear_arith);
        assert(new.len() * old.len() > 0) by (nonlinear_arith)
            requires
                new.len() > 0,
                old.len() > 0,
        ;
        assert(old.len() * new.len() == new.len() * old.len()) by (nonlinear_arith);
    }
}

proof fn lemma_flat_sum(samples: Seq<Option<i32>>, at: nat)
    requires
        forall|i: int| 0 <= i < samples.len() ==> level_of(#[trigger] samples[i]) == at,
    ensures
        level_sum(samples) == at * samples.len(),
    decreases samples.len(),
{
    if samples.len() == 0 {
        assert(at * 0 == 0) by (nonlinear_arith);
    } else {
        lemma_flat_sum(samples.drop_last(), at);
        assert(at * samples.len() == at * (samples.len() - 1) + at) by (nonlinear_arith);
    }
}

/// A step in a trail is told by its height: where the older half of the readings
/// all sit at `a` and the newer half all sit at `b`, the trail rises or falls if
/// the two lie more than a tenth of the range apart, and is steady otherwise.
pub proof fn law_a_step_is_told_by_its_height(samples: Seq<Option<i32>>, a: nat, b: nat)
    requires
        samples.len() >= 2,
        forall|i: int|
            0 <= i < samples.len() ==> level_of(#[trigger] samples[i]) == if i < samples.len() as int
                / 2 {
                a
            } else {
                b
            },
    ensures
        b > a + 1_000 ==> trend_word(samples) == "rising"@,
        a > b + 1_000 ==> trend_word(samples) == "falling"@,
        a <= b + 1_000 && b <= a + 1_000 ==> trend_word(samples) == "steady"@,
{
    let half = samples.len() as int / 2;
    let old = samples.take(half);
    let new = samples.skip(half);
    assert forall|i: int| 0 <= i < new.len() implies level_of(#[trigger] new[i]) == b by {
        assert(new[i] == samples[i + half]);
    }
    lemma_flat_sum(old, a);
    lemma_flat_sum(new, b);
    law_the_trend_compares_the_means(samples, level_sum(old), level_sum(new));
    let n = new.len() as int;
    let m = old.len() as int;
    lemma_step_products(a as int, b as int, m, n);
    lemma_step_products(b as int, a as int, n, m);
}

proof fn lemma_step_products(a: int, b: int, m: int, n: int)
    requires
        m > 0,
        n > 0,
    ensures
        ((b * n) * m > (a * m) * n + 1_000 * (n * m)) == (b > a + 1_000),
{
    assert((b * n) * m - (a * m) * n - 1_000 * (n * m) == (b - a - 1_000) * (n * m))
        by (nonlinear_arith);
    let d = b - a - 1_000;
    let p = n * m;
    assert(p > 0) by (nonlinear_arith)
        requires
            p == n * m,
            n > 0,
            m > 0,
    ;
    assert((d * p > 0) == (d > 0)) by (nonlinear_arith)
        requires
            p > 0,
    ;
}

/// Every reading of a trail counts: the word is decided by the mean over all the
/// readings of the older half and the mean over all those of the newer, whose
/// sums are `old` and `new`. They must lie more than a tenth of the range apart.
pub proof fn law_the_trend_compares_the_means(samples: Seq<Option<i32>>, old: nat, new: nat)
    requires
        samples.len() >= 2,
        old == level_sum(samples.take(samples.len() as int / 2)),
        new == level_sum(samples.skip(samples.len() as int / 2)),
    ensures
        ({
            let m = samples.len() as int / 2;
            let n = samples.len() - m;
            &&& trend_word(samples) == "rising"@ <==> new * m > old * n + 1_000 * (n * m)
            &&& trend_word(samples) == "falling"@ <==> old * n > new * m + 1_000 * (m * n)
            &&& trend_word(samples) == "rising"@ || trend_word(samples) == "falling"@ || trend_word(
                samples,
            ) == "steady"@
        }),
{
    reveal_strlit("rising");
    reveal_strlit("falling");
    reveal_strlit("steady");
    assert("rising"@.len() == 6 && "falling"@.len() == 7 && "steady"@.len() == 6);
    assert("rising"@[0] != "steady"@[0]);
    let m = samples.len() as int / 2;
    let n = samples.len() - m;
    assert(n * m > 0 && m * n == n * m) by (nonlinear_arith)
        requires
            n > 0,
            m > 0,
    ;
}

/// A reading counts for what it is within its range, and one that is no number
/// counts for nothing.
pub proof fn law_a_reading_is_held_in_its_range(sample: Option<i32>)
    ensures
        sample is None ==> level_of(sample) == 0,
        sample is Some && 0 <= sample->0 <= 10_000 ==> level_of(sample) == sample->0,
        sample is Some && sample->0 < 0 ==> level_of(sample) == 0,
        sample is Some && sample->0 > 10_000 ==> level_of(sample) == 10_000,
{
}

/// One more reading adds its own level to the sum, whichever end it is put at.
pub proof fn law_a_sum_takes_every_reading(older: Seq<Option<i32>>, newer: Seq<Option<i32>>)
    ensures
        level_sum(older + newer) == level_sum(older) + level_sum(newer),
        older.len() == 1 ==> level_sum(older) == level_of(older[0]),
        older.len() == 0 ==> level_sum(older) == 0,
    decreases newer.len(),
{
    if newer.len() == 0 {
        assert(older + newer =~= older);
    } else {
        law_a_sum_takes_every_reading(older, newer.drop_last());
        assert((older + newer).drop_last() =~= older + newer.drop_last());
    }
    if older.len() == 1 {
        assert(level_sum(older.drop_last()) == 0);
    }
}

// ---------------------------------------------------------------------------
// Rates
// ---------------------------------------------------------------------------

/// One direction's rate in words.
pub open spec fn rate_text(s: Chars, outgoing: bool) -> Chars {
    let lead = if outgoing {
        SENDING@
    } else {
        RECEIVING@
    };
    let t = text::trimmed(s);
    lead + " "@ + if t == NO_RATE@ || t.len() == 0 {
        RATE_IDLE@
    } else {
        a11y::spoken_size_text(t)
    }
}

/// One direction's rate in words: the direction, then the rate with its unit
/// spelled out, or "nothing" for an idle link.
pub fn rate_phrase(text: &str, outgoing: bool) -> (r: String)
    ensures
        r@ == rate_text(text@, outgoing),
{
    let lead: &str = if outgoing {
        SENDING
    } else {
        RECEIVING
    };
    let t: &str = trim(text);
    let mut r: String = lead.to_owned();
    r.append(" ");
    if same(t, NO_RATE) || t.is_empty() {
        r.append(RATE_IDLE);
    } else {
        r.append(spoken_size(t).as_str());
    }
    r
}

/// A rate that is absent, empty or blank is an idle direction.
pub proof fn law_idle_rate_is_nothing(s: Chars, outgoing: bool)
    requires
        text::trimmed(s).len() == 0 || text::trimmed(s) == NO_RATE@,
    ensures
        rate_text(s, outgoing) == (if outgoing {
            SENDING@
        } else {
            RECEIVING@
        }) + " "@ + RATE_IDLE@,
{
}

/// A rate that is there is told with its direction and its unit spelled out.
pub proof fn law_a_rate_is_told_with_its_direction(s: Chars, outgoing: bool)
    requires
        text::trimmed(s).len() > 0,
        text::trimmed(s) != "—"@,
    ensures
        outgoing ==> rate_text(s, outgoing) == "sending "@ + a11y::spoken_size_text(
            text::trimmed(s),
        ),
        !outgoing ==> rate_text(s, outgoing) == "receiving "@ + a11y::spoken_size_text(
            text::trimmed(s),
        ),
{
    reveal_strlit("sending");
    reveal_strlit("receiving");
    reveal_strlit(" ");
    reveal_strlit("sending ");
    reveal_strlit("receiving ");
    assert("sending"@ + " "@ =~= "sending "@);
    assert("receiving"@ + " "@ =~= "receiving "@);
}

/// A good link strikes three marks, a fair one two, a poor one one, and any
/// other word none; and the seal is told in the word of its marks.
pub proof fn law_the_seal_tells_its_grade(grade: &str, lit: u8, r: String)
    requires
        call_ensures(grade_lit, (grade,), lit),
        call_ensures(signal_sentence, (lit,), r),
    ensures
        grade@ == "Good"@ ==> r@ == "link good, 3 of 3"@,
        grade@ == "Fair"@ ==> r@ == "link fair, 2 of 3"@,
        grade@ == "Poor"@ ==> r@ == "link poor, 1 of 3"@,
        grade@ != "Good"@ && grade@ != "Fair"@ && grade@ != "Poor"@ ==> r@ == "link offline, 0 of 3"@,
{
    reveal_strlit("Good");
    reveal_strlit("Fair");
    reveal_strlit("Poor");
    assert("Good"@[0] == 'G' && "Fair"@[0] == 'F' && "Poor"@[0] == 'P');
    reveal_strlit("link");
    reveal_strlit(" ");
    reveal_strlit("good");
    reveal_strlit("fair");
    reveal_strlit("poor");
    reveal_strlit("offline");
    reveal_strlit(", ");
    reveal_strlit(" of 3");
    reveal_strlit("link good, 3 of 3");
    reveal_strlit("link fair, 2 of 3");
    reveal_strlit("link poor, 1 of 3");
    reveal_strlit("link offline, 0 of 3");
    assert(text::dec(3) =~= seq!['3']);
    assert(text::dec(2) =~= seq!['2']);
    assert(text::dec(1) =~= seq!['1']);
    assert(text::dec(0) =~= seq!['0']);
    assert("link"@ + " "@ + "good"@ + ", "@ + text::dec(3) + " of 3"@ =~= "link good, 3 of 3"@);
    assert("link"@ + " "@ + "fair"@ + ", "@ + text::dec(2) + " of 3"@ =~= "link fair, 2 of 3"@);
    assert("link"@ + " "@ + "poor"@ + ", "@ + text::dec(1) + " of 3"@ =~= "link poor, 1 of 3"@);
    assert("link"@ + " "@ + "offline"@ + ", "@ + text::dec(0) + " of 3"@
        =~= "link offline, 0 of 3"@);
}

/// A plot of two readings or more is told by their number, by how many whole
/// hundredths of its range the newest one has reached, and by its trend.
pub proof fn law_a_plot_is_told_by_its_newest_reading(samples: Seq<Option<i32>>, percent: nat)
    requires
        samples.len() >= 2,
        100 * percent <= level_of(samples[samples.len() - 1]) < 100 * (percent + 1),
    ensures
        trend_parts(samples) == seq![
            text::dec(samples.len()) + " readings"@,
            "latest "@ + text::dec(percent) + " percent of its own range"@,
            trend_word(samples),
        ],
{
    assert(level_of(samples.last()) / 100 == percent);
}

/// Without two readings there is no trend to tell.
pub proof fn law_a_plot_without_history_says_so(samples: Seq<Option<i32>>)
    ensures
        samples.len() == 0 ==> trend_parts(samples) == seq!["no readings yet"@],
        samples.len() == 1 ==> trend_parts(samples) == seq!["one reading so far"@],
{
}

// ---------------------------------------------------------------------------
// Drawing the marks
// ---------------------------------------------------------------------------

/// How the seal of a link is struck.
#[derive(Clone, Copy, PartialEq, Eq, Debug, Structural)]
pub enum Strike {
    /// Not at all.
    Empty,
    /// With a pip.
    Pip,
    /// With a lozenge.
    Lozenge,
    /// Wholly.
    Whole,
}

/// How the seal of a link is struck, by how many of its marks are lit.
pub fn strike(lit: u8) -> (r: Strike)
    ensures
        r == (if lit == 0 {
            Strike::Empty
        } else if lit == 1 {
            Strike::Pip
        } else if lit == 2 {
            Strike::Lozenge
        } else {
            Strike::Whole
        }),
{
    if lit == 0 {
        Strike::Empty
    } else if lit == 1 {
        Strike::Pip
    } else if lit == 2 {
        Strike::Lozenge
    } else {
        Strike::Whole
    }
}

/// The radius of the mark on the newest reading.
pub const HEAD_R: i64 = 300;

/// Where the reading at that place is plotted.
pub open spec fn plotted(frame: Frame, samples: Seq<Option<i32>>, i: int) -> (int, int) {
    let top = frame.top + HEAD_R;
    let bottom = frame.bottom - HEAD_R;
    (
        frame.left + (frame.right - frame.left) * i / (samples.len() - 1),
        bottom - level_of(samples[i]) * (bottom - top) / FULL_LEVEL as int,
    )
}

/// Plots the readings into a cell, oldest at its left edge and newest at its
/// right. The mark on the newest one hangs half over it, so its radius is kept
/// free above and below. There is nothing to plot with fewer than two readings,
/// or without room.
pub fn sparkline(frame: Frame, samples: &[Option<i32>]) -> (r: Option<Vec<Point>>)
    requires
        frame.near(),
    ensures
        r is Some <==> samples@.len() >= 2 && frame.left < frame.right && frame.top + HEAD_R
            < frame.bottom - HEAD_R,
        r is Some ==> {
            &&& (r->0)@.len() == samples@.len()
            &&& forall|i: int|
                #![trigger (r->0)@[i]]
                0 <= i < samples@.len() ==> ((r->0)@[i].x as int, (r->0)@[i].y as int) == plotted(
                    frame,
                    samples@,
                    i,
                )
        },
{
    let top: i64 = frame.top + HEAD_R;
    let bottom: i64 = frame.bottom - HEAD_R;
    if samples.len() < 2 || frame.left >= frame.right || top >= bottom {
        return None;
    }
    let width: i128 = (frame.right - frame.left) as i128;
    let height: i64 = bottom - top;
    let last: i128 = (samples.len() - 1) as i128;
    let mut out: Vec<Point> = Vec::new();
    let mut i: usize = 0;
    while i < samples.len()
        invariant
            i <= samples@.len(),
            samples@.len() >= 2,
            frame.near(),
            top == frame.top + HEAD_R,
            bottom == frame.bottom - HEAD_R,
            width == frame.right - frame.left,
            0 < width <= 2_000_000_000_000,
            0 < height <= 2_000_000_000_000,
            height == bottom - top,
            last == samples@.len() - 1,
            out@.len() == i,
            forall|j: int|
                #![trigger out@[j]]
                0 <= j < i ==> (out@[j].x as int, out@[j].y as int) == plotted(frame, samples@, j),
        decreases samples@.len() - i,
    {
        let lev: u32 = level(samples[i]);
        proof {
            assert(0 <= width * i <= width * last) by (nonlinear_arith)
                requires
                    0 <= i <= last,
                    0 < width,
            ;
            assert(width * last <= 2_000_000_000_000 * 0x1_0000_0000_0000_0000) by (nonlinear_arith)
                requires
                    0 < width <= 2_000_000_000_000,
                    0 <= last <= 0x1_0000_0000_0000_0000,
            ;
            assert(0 <= width * i / (last as int) <= width) by (nonlinear_arith)
                requires
                    0 <= width * i <= width * last,
                    last > 0,
            ;
            assert(0 <= lev * height <= 10_000 * height) by (nonlinear_arith)
                requires
                    0 <= lev <= 10_000,
                    0 < height,
            ;
        }
        let dx: i128 = width * i as i128 / last;
        let dy: i64 = lev as i64 * height / 10_000;
        out.push(Point { x: frame.left + dx as i64, y: bottom - dy });
        i = i + 1;
    }
    Some(out)
}

/// A plot runs from one side of its cell to the other and stays inside it.
pub proof fn law_a_plot_fills_its_cell(frame: Frame, samples: Seq<Option<i32>>, i: int)
    requires
        samples.len() >= 2,
        frame.left < frame.right,
        frame.top + HEAD_R < frame.bottom - HEAD_R,
        0 <= i < samples.len(),
    ensures
        plotted(frame, samples, 0).0 == frame.left,
        plotted(frame, samples, samples.len() - 1).0 == frame.right,
        frame.left <= plotted(frame, samples, i).0 <= frame.right,
        frame.top + HEAD_R <= plotted(frame, samples, i).1 <= frame.bottom - HEAD_R,
{
    let w = frame.right - frame.left;
    let last = samples.len() - 1;
    let h = frame.bottom - HEAD_R - (frame.top + HEAD_R);
    let lev = level_of(samples[i]);
    assert(w * 0 / last == 0) by (nonlinear_arith)
        requires
            last > 0,
    ;
    assert(w * last / last == w) by (nonlinear_arith)
        requires
            last > 0,
    ;
    assert(0 <= w * i / last <= w) by (nonlinear_arith)
        requires
            last > 0,
            w > 0,
            0 <= i <= last,
    ;
    assert(0 <= lev * h / 10_000 <= h) by (nonlinear_arith)
        requires
            0 <= lev <= 10_000,
            h > 0,
    ;
}

/// A higher reading is plotted no lower, one at the top of its range at the top
/// of the cell, one at the bottom at the bottom, and a later one no further left.
pub proof fn law_a_higher_reading_stands_higher(
    frame: Frame,
    samples: Seq<Option<i32>>,
    i: int,
    j: int,
)
    requires
        samples.len() >= 2,
        frame.left < frame.right,
        frame.top + 300 < frame.bottom - 300,
        0 <= i < samples.len(),
        0 <= j < samples.len(),
    ensures
        level_of(samples[i]) <= level_of(samples[j]) ==> plotted(frame, samples, i).1 >= plotted(
            frame,
            samples,
            j,
        ).1,
        level_of(samples[i]) == 0 ==> plotted(frame, samples, i).1 == frame.bottom - 300,
        level_of(samples[i]) == 10_000 ==> plotted(frame, samples, i).1 == frame.top + 300,
        i <= j ==> plotted(frame, samples, i).0 <= plotted(frame, samples, j).0,
{
    let h = frame.bottom - 300 - (frame.top + 300);
    let a = level_of(samples[i]) as int;
    let b = level_of(samples[j]) as int;
    let w = frame.right - frame.left;
    let last = samples.len() - 1;
    if a <= b {
        assert(a * h <= b * h) by (nonlinear_arith)
            requires
                a <= b,
                h > 0,
        ;
    }
    assert(0 * h == 0 && 10_000 * h / 10_000 == h);
    if i <= j {
        assert(w * i <= w * j) by (nonlinear_arith)
            requires
                i <= j,
                w > 0,
        ;
        vstd::arithmetic::div_mod::lemma_div_is_ordered(w * i, w * j, last);
    }
}

/// The seal is empty for an unlit link, and whole for one with all its marks.
pub proof fn law_the_seal_fills_with_its_marks(lit: u8, r: Strike)
    requires
        call_ensures(strike, (lit,), r),
    ensures
        r == Strike::Empty <==> lit == 0,
        r == Strike::Pip <==> lit == 1,
        r == Strike::Lozenge <==> lit == 2,
        r == Strike::Whole <==> lit >= 3,
{
}

} // verus!
