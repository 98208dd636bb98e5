//! The bar of actions on several sessions at once, and the braces beside them.
//!
//! Lengths are in hundredths of a point.

use crate::geometry::{self, min_of, Point};
use vstd::prelude::*;

verus! {

/// A run lower than this gets no brace.
pub const MIN_RUN: i32 = 800;

/// What the bar reported.
#[derive(Clone, Copy, PartialEq, Eq, Debug, Structural)]
pub struct BulkOut {
    /// Start what is stopped.
    pub start: bool,
    /// Stop what is running.
    pub stop: bool,
    /// Drop the selection.
    pub clear: bool,
}

/// The word beside the count of what is selected.
pub fn bulk_word(count: usize) -> (r: &'static str)
    ensures
        r@ == (if count == 0 {
            "none selected"@
        } else {
            "selected"@
        }),
{
    if count == 0 {
        "none selected"
    } else {
        "selected"
    }
}

/// What the bar reports of the clicks of one frame. A start is offered only
/// where something is stopped, and a stop only where something is running.
pub fn bulk_bar(any_running: bool, any_stopped: bool, clicked: BulkOut) -> (r: BulkOut)
    ensures
        r == (BulkOut {
            start: any_stopped && clicked.start,
            stop: any_running && clicked.stop,
            clear: clicked.clear,
        }),
{
    BulkOut {
        start: any_stopped && clicked.start,
        stop: any_running && clicked.stop,
        clear: clicked.clear,
    }
}

// ---------------------------------------------------------------------------
// The brace
// ---------------------------------------------------------------------------

/// The stretch of one run of selected rows. What is no number is `None`.
#[derive(Clone, Copy, PartialEq, Eq, Debug, Structural)]
pub struct Run {
    /// Its upper end.
    pub top: Option<i32>,
    /// Its lower end.
    pub bottom: Option<i32>,
}

/// The measures of a brace beside a run: two halves that mirror each other about
/// its middle, each with a swell at the cusp, a straight spine, and a curl at its
/// end.
#[derive(Clone, Copy, PartialEq, Eq, Debug, Structural)]
pub struct Brace {
    /// The middle of the run, where the cusp is.
    pub mid: i64,
    /// Half of the height of the run.
    pub half: i64,
    /// How far the cusp reaches towards the rows.
    pub reach: i64,
    /// How far the curls hook into the margin.
    pub hook: i64,
    /// How high the swell of one half is.
    pub swell: i64,
    /// How high the curl of one half is.
    pub curl: i64,
    /// How much of it is drawn, in ten-thousandths.
    pub ease: i64,
}

/// How far the pen has got at a time: fast off the cusp, and slower towards the
/// curls.
pub open spec fn eased(t: int) -> int {
    let u = geometry::lesser(t, 10_000);
    u * (20_000 - u) / 10_000
}

/// The brace beside a run, at a time in ten-thousandths. There is none where
/// anything is no number, where the run is too low or upside down, or before the
/// pen is set down.
pub fn brace_paths(x: Option<i32>, run: &Run, t: Option<i32>) -> (r: Option<Brace>)
    ensures
        r is Some <==> {
            &&& x is Some
            &&& t is Some && (t->0) > 0
            &&& run.top is Some && run.bottom is Some
            &&& (run.bottom->0) - (run.top->0) >= MIN_RUN
        },
        r is Some ==> {
            let b = r->0;
            let half = ((run.bottom->0) - (run.top->0)) / 2;
            &&& b.half == half
            &&& b.mid == (run.top->0) + half
            &&& b.reach == geometry::lesser(600, half / 2)
            &&& b.hook == geometry::lesser(500, half * 4 / 10)
            &&& b.swell == geometry::lesser(700, half * 4 / 10)
            &&& b.curl == geometry::lesser(550, half * 35 / 100)
            &&& b.ease == eased((t->0) as int)
            &&& b.swell + b.curl < b.half
            &&& b.drawable()
            &&& 0 < b.ease <= 10_000
        },
{
    match (x, run.top, run.bottom, t) {
        (Some(_), Some(top), Some(bottom), Some(t)) => {
            let h: i64 = bottom as i64 - top as i64;
            if t <= 0 || h < MIN_RUN as i64 {
                return None;
            }
            let half: i64 = h / 2;
            let u: i64 = min_of(t as i64, 10_000);
            proof {
                assert(20_000 - 1 <= u * (20_000 - u) <= 10_000 * 10_000) by (nonlinear_arith)
                    requires
                        1 <= u <= 10_000,
                ;
            }
            Some(
                Brace {
                    mid: top as i64 + half,
                    half,
                    reach: min_of(600, half / 2),
                    hook: min_of(500, half * 4 / 10),
                    swell: min_of(700, half * 4 / 10),
                    curl: min_of(550, half * 35 / 100),
                    ease: u * (20_000 - u) / 10_000,
                },
            )
        },
        _ => None,
    }
}

/// The sine of so many twelfths of a quarter turn, in ten-thousandths.
pub open spec fn sine_of_twelfths(i: int) -> int {
    if i <= 0 {
        0
    } else if i == 1 {
        1_305
    } else if i == 2 {
        2_588
    } else if i == 3 {
        3_827
    } else if i == 4 {
        5_000
    } else if i == 5 {
        6_088
    } else if i == 6 {
        7_071
    } else if i == 7 {
        7_934
    } else if i == 8 {
        8_660
    } else if i == 9 {
        9_239
    } else if i == 10 {
        9_659
    } else if i == 11 {
        9_914
    } else {
        10_000
    }
}

/// The sine of so many tenths of a quarter turn, in ten-thousandths.
pub open spec fn sine_of_tenths(i: int) -> int {
    if i <= 0 {
        0
    } else if i == 1 {
        1_564
    } else if i == 2 {
        3_090
    } else if i == 3 {
        4_540
    } else if i == 4 {
        5_878
    } else if i == 5 {
        7_071
    } else if i == 6 {
        8_090
    } else if i == 7 {
        8_910
    } else if i == 8 {
        9_511
    } else if i == 9 {
        9_877
    } else {
        10_000
    }
}

fn sine_12(i: i64) -> (r: i64)
    ensures
        r == sine_of_twelfths(i as int),
        0 <= r <= 10_000,
{
    if i <= 0 {
        0
    } else if i == 1 {
        1_305
    } else if i == 2 {
        2_588
    } else if i == 3 {
        3_827
    } else if i == 4 {
        5_000
    } else if i == 5 {
        6_088
    } else if i == 6 {
        7_071
    } else if i == 7 {
        7_934
    } else if i == 8 {
        8_660
    } else if i == 9 {
        9_239
    } else if i == 10 {
        9_659
    } else if i == 11 {
        9_914
    } else {
        10_000
    }
}

fn sine_10(i: i64) -> (r: i64)
    ensures
        r == sine_of_tenths(i as int),
        0 <= r <= 10_000,
{
    if i <= 0 {
        0
    } else if i == 1 {
        1_564
    } else if i == 2 {
        3_090
    } else if i == 3 {
        4_540
    } else if i == 4 {
        5_878
    } else if i == 5 {
        7_071
    } else if i == 6 {
        8_090
    } else if i == 7 {
        8_910
    } else if i == 8 {
        9_511
    } else if i == 9 {
        9_877
    } else {
        10_000
    }
}

/// How many steps the arc at the cusp is drawn in.
pub const CUSP_STEPS: i64 = 12;

/// How many steps the arc at the end is drawn in.
pub const TERM_STEPS: i64 = 10;

/// How many points one half of a brace has, however high it is.
pub const HALF_POINTS: i64 = 24;

/// `a` times a number of ten-thousandths.
pub open spec fn part(a: int, of: int) -> int {
    a * of / 10_000
}

impl Brace {
    /// Its measures are such that each half can be drawn.
    pub open spec fn drawable(self) -> bool {
        &&& 0 <= self.reach <= 600
        &&& 0 <= self.hook <= 500
        &&& 0 <= self.swell <= 700
        &&& 0 <= self.curl <= 550
        &&& self.swell + self.curl <= self.half <= 0x1_0000_0000
        &&& -0x1_0000_0000 <= self.mid <= 0x1_0000_0000
    }

    /// Point `i` of a half, from the cusp on: how far it lies from the spine
    /// towards the rows, and how far from the middle. The arc at the cusp leaves
    /// it level and meets the spine upright; the arc at the end is the reverse.
    pub open spec fn half_point(self, i: int) -> (int, int) {
        if i <= CUSP_STEPS {
            (
                part(self.reach as int, 10_000 - sine_of_twelfths(i)),
                self.swell - part(self.swell as int, sine_of_twelfths(12 - i)),
            )
        } else {
            let j = i - CUSP_STEPS - 1;
            (
                -part(self.hook as int, 10_000 - sine_of_tenths(10 - j)),
                self.half - part(self.curl as int, 10_000 - sine_of_tenths(j)),
            )
        }
    }
}

/// Point `i` of the lower or the upper half of a brace whose spine stands at `x`.
pub open spec fn drawn_point(b: Brace, x: int, lower: bool, i: int) -> (int, int) {
    let (dx, dy) = b.half_point(i);
    (
        x + dx,
        if lower {
            b.mid + dy
        } else {
            b.mid - dy
        },
    )
}

/// One half of a brace whose spine stands at `x`, from the cusp to its end: the
/// lower half, or the upper one.
pub fn half_path(x: i32, b: &Brace, lower: bool) -> (r: Vec<Point>)
    requires
        b.drawable(),
    ensures
        r@.len() == HALF_POINTS,
        forall|i: int|
            #![trigger r@[i]]
            0 <= i < HALF_POINTS ==> (r@[i].x as int, r@[i].y as int) == drawn_point(
                *b,
                x as int,
                lower,
                i,
            ),
{
    let mut r: Vec<Point> = Vec::new();
    let mut i: i64 = 0;
    while i < HALF_POINTS
        invariant
            0 <= i <= HALF_POINTS,
            b.drawable(),
            r@.len() == i,
            forall|k: int|
                #![trigger r@[k]]
                0 <= k < i ==> (r@[k].x as int, r@[k].y as int) == drawn_point(
                    *b,
                    x as int,
                    lower,
                    k,
                ),
        decreases HALF_POINTS - i,
    {
        let (dx, dy): (i64, i64) = if i <= CUSP_STEPS {
            (
                share(b.reach, 10_000 - sine_12(i)),
                b.swell - share(b.swell, sine_12(12 - i)),
            )
        } else {
            let j: i64 = i - CUSP_STEPS - 1;
            (
                -share(b.hook, 10_000 - sine_10(10 - j)),
                b.half - share(b.curl, 10_000 - sine_10(j)),
            )
        };
        let y: i64 = if lower {
            b.mid + dy
        } else {
            b.mid - dy
        };
        r.push(Point { x: x as i64 + dx, y });
        i = i + 1;
    }
    r
}

fn share(a: i64, of: i64) -> (r: i64)
    requires
        0 <= a <= 1_000,
        0 <= of <= 10_000,
    ensures
        r == part(a as int, of as int),
        0 <= r <= a,
{
    proof {
        assert(0 <= a * of <= a * 10_000) by (nonlinear_arith)
            requires
                0 <= a <= 1_000,
                0 <= of <= 10_000,
        ;
    }
    a * of / 10_000
}

proof fn lemma_part(a: int, p: int, q: int)
    requires
        0 <= a,
        0 <= p <= q <= 10_000,
    ensures
        0 <= part(a, p) <= part(a, q) <= a,
        part(a, 0) == 0,
        part(a, 10_000) == a,
{
    assert(0 <= a * p <= a * q <= a * 10_000) by (nonlinear_arith)
        requires
            0 <= a,
            0 <= p <= q <= 10_000,
    ;
}

/// A half starts at the tip of the cusp, comes to the spine, and ends hooked into
/// the margin at the edge of the run.
pub proof fn law_a_half_runs_from_cusp_to_edge(b: Brace)
    requires
        b.drawable(),
    ensures
        b.half_point(0) == (b.reach as int, 0int),
        b.half_point(CUSP_STEPS as int) == (0int, b.swell as int),
        b.half_point(CUSP_STEPS + 1) == (0int, b.half - b.curl),
        b.half_point(HALF_POINTS - 1) == (-b.hook as int, b.half as int),
{
    lemma_part(b.reach as int, 0, 0);
    lemma_part(b.swell as int, 0, 0);
    lemma_part(b.hook as int, 0, 0);
    lemma_part(b.curl as int, 0, 0);
}

/// The two halves mirror each other about the middle of the run.
pub proof fn law_the_halves_mirror(b: Brace, x: int, i: int)
    ensures
        drawn_point(b, x, false, i).0 == drawn_point(b, x, true, i).0,
        drawn_point(b, x, false, i).1 + drawn_point(b, x, true, i).1 == 2 * b.mid,
{
}

/// The pen moves away from the middle at every step, and never towards the rows.
pub proof fn law_the_pen_never_turns_back(b: Brace, i: int)
    requires
        b.drawable(),
        0 <= i < HALF_POINTS - 1,
    ensures
        b.half_point(i).1 <= b.half_point(i + 1).1,
        b.half_point(i).0 >= b.half_point(i + 1).0,
{
    if i < CUSP_STEPS {
        lemma_part(
            b.reach as int,
            10_000 - sine_of_twelfths(i + 1),
            10_000 - sine_of_twelfths(i),
        );
        lemma_part(b.swell as int, sine_of_twelfths(11 - i), sine_of_twelfths(12 - i));
    } else if i == CUSP_STEPS {
        law_a_half_runs_from_cusp_to_edge(b);
    } else {
        let j = i - CUSP_STEPS - 1;
        lemma_part(
            b.hook as int,
            10_000 - sine_of_tenths(10 - j),
            10_000 - sine_of_tenths(9 - j),
        );
        lemma_part(
            b.curl as int,
            10_000 - sine_of_tenths(j + 1),
            10_000 - sine_of_tenths(j),
        );
    }
}

/// How much of a line of segments is drawn.
#[derive(Clone, Copy, PartialEq, Eq, Debug, Structural)]
pub enum Reveal {
    /// Nothing.
    Nothing,
    /// All of it.
    Whole,
    /// So many whole segments, and then `into` of the `of` parts of the next one.
    Upto {
        /// How many whole segments.
        whole: usize,
        /// How far into the next one.
        into: u128,
        /// Out of how many parts.
        of: u128,
    },
}

/// The length of the first `n` segments.
pub open spec fn length_of(lens: Seq<u32>, n: int) -> int
    decreases n,
{
    if n <= 0 {
        0
    } else {
        length_of(lens, n - 1) + lens[n - 1]
    }
}

proof fn lemma_length_of(lens: Seq<u32>, n: int, m: int)
    requires
        0 <= n <= m <= lens.len(),
    ensures
        0 <= length_of(lens, n) <= length_of(lens, m),
        length_of(lens, m) <= m * 0x1_0000_0000,
    decreases m,
{
    if m > 0 {
        if n < m {
            lemma_length_of(lens, n, m - 1);
        } else {
            lemma_length_of(lens, m - 1, m - 1);
        }
    }
}

/// Draws the leading part of a line of segments with those lengths, by its
/// length; `frac` is in ten-thousandths. A line without length draws nothing.
pub fn revealed(lens: &[u32], frac: Option<i32>) -> (r: Reveal)
    ensures
        ({
            let n = lens@.len() as int;
            let total = length_of(lens@, n);
            match frac {
                None => r == Reveal::Nothing,
                Some(f) => if n == 0 || f <= 0 {
                    r == Reveal::Nothing
                } else if f >= 10_000 {
                    r == Reveal::Whole
                } else if total == 0 {
                    r == Reveal::Nothing
                } else {
                    match r {
                        Reveal::Upto { whole, into, of } => {
                            &&& whole < n
                            &&& of == lens@[whole as int] * 10_000
                            &&& 0 < into <= of
                            &&& length_of(lens@, whole as int) * 10_000 + into == total * f
                        },
                        _ => false,
                    }
                },
            }
        }),
{
    let f: i32 = match frac {
        None => {
            return Reveal::Nothing;
        },
        Some(f) => f,
    };
    if lens.len() == 0 || f <= 0 {
        return Reveal::Nothing;
    }
    if f >= 10_000 {
        return Reveal::Whole;
    }
    let n: usize = lens.len();
    let mut total: u128 = 0;
    let mut i: usize = 0;
    while i < n
        invariant
            i <= n,
            n == lens@.len(),
            total == length_of(lens@, i as int),
        decreases n - i,
    {
        proof {
            lemma_length_of(lens@, i as int, i + 1);
        }
        total = total + lens[i] as u128;
        i = i + 1;
    }
    if total == 0 {
        return Reveal::Nothing;
    }
    proof {
        lemma_length_of(lens@, 0, n as int);
        assert(0 < total * f < total * 10_000) by (nonlinear_arith)
            requires
                0 < total,
                0 < f < 10_000,
        ;
    }
    let target: u128 = total * f as u128;
    let mut walked: u128 = 0;
    let mut at: usize = 0;
    while at + 1 < n && (walked + lens[at] as u128) * 10_000 < target
        invariant
            at < n,
            n == lens@.len(),
            0 < n,
            walked == length_of(lens@, at as int),
            walked * 10_000 < target,
            total == length_of(lens@, n as int),
            total <= 0x1_0000_0000_0000_0000 * 0x1_0000_0000,
            target < total * 10_000,
        decreases n - at,
    {
        proof {
            lemma_length_of(lens@, at as int, at + 1);
            lemma_length_of(lens@, at + 1, n as int);
        }
        walked = walked + lens[at] as u128;
        at = at + 1;
        proof {
            lemma_length_of(lens@, at as int, at + 1);
            lemma_length_of(lens@, at + 1, n as int);
        }
    }
    proof {
        lemma_length_of(lens@, at as int, at + 1);
        lemma_length_of(lens@, at + 1, n as int);
    }
    Reveal::Upto { whole: at, into: target - walked * 10_000, of: lens[at] as u128 * 10_000 }
}

/// A verb of the bulk bar goes through exactly where some session can take it.
pub proof fn law_a_bulk_verb_needs_a_session_that_can_take_it(
    any_running: bool,
    any_stopped: bool,
    clicked: BulkOut,
    r: BulkOut,
)
    requires
        call_ensures(bulk_bar, (any_running, any_stopped, clicked), r),
    ensures
        r.start <==> any_stopped && clicked.start,
        r.stop <==> any_running && clicked.stop,
        r.clear <==> clicked.clear,
{
}

/// The bar says whether anything is selected.
pub proof fn law_the_bulk_bar_says_whether_anything_is_selected(count: usize, r: &'static str)
    requires
        call_ensures(bulk_word, (count,), r),
    ensures
        count == 0 ==> r@ == "none selected"@,
        count > 0 ==> r@ == "selected"@,
{
}

/// A growth eases out: it starts at nothing, ends at the whole, never goes back
/// and is never behind an even one.
pub proof fn law_growth_eases_out(a: int, b: int)
    requires
        0 <= a <= b <= 10_000,
    ensures
        eased(0) == 0,
        eased(10_000) == 10_000,
        eased(a) <= eased(b),
        a <= eased(a) <= 10_000,
{
    assert(a * (20_000 - a) <= b * (20_000 - b)) by (nonlinear_arith)
        requires
            0 <= a <= b <= 10_000,
    ;
    assert(a * (20_000 - a) >= a * 10_000) by (nonlinear_arith)
        requires
            0 <= a <= 10_000,
    ;
    assert(a * (20_000 - a) <= 10_000 * 10_000) by (nonlinear_arith)
        requires
            0 <= a <= 10_000,
    ;
}

/// What is revealed of a path is that fraction of its length: nothing at or below
/// none, all of it at or beyond the whole, and between them every segment before
/// the one that is reached.
pub proof fn law_a_path_is_revealed_by_its_length(lens: &[u32], f: i32, r: Reveal)
    requires
        call_ensures(revealed, (lens, Some(f)), r),
        lens@.len() > 0,
        length_of(lens@, lens@.len() as int) > 0,
    ensures
        r == Reveal::Nothing <==> f <= 0,
        r == Reveal::Whole <==> f >= 10_000,
        r is Upto ==> {
            let total = length_of(lens@, lens@.len() as int);
            let before = length_of(lens@, r->whole as int);
            let upto = length_of(lens@, r->whole as int + 1);
            before * 10_000 < total * f <= upto * 10_000
        },
{
}

/// A path is as long as its segments together.
pub proof fn law_lengths_are_summed(lens: Seq<u32>, n: int)
    requires
        0 <= n < lens.len(),
    ensures
        length_of(lens, 0) == 0,
        length_of(lens, n + 1) - length_of(lens, n) == lens[n],
{
}

/// The pen's curves are sines: they start at nothing, end at the whole, rise all
/// the way, and at the middle of the turn stand where the other half does.
pub proof fn law_the_curves_are_sines(i: int)
    requires
        0 <= i < 12,
    ensures
        sine_of_twelfths(0) == 0 && sine_of_twelfths(12) == 10_000,
        sine_of_twelfths(i) < sine_of_twelfths(i + 1),
        sine_of_twelfths(4) == 5_000,
        -20_000 <= sine_of_twelfths(i) * sine_of_twelfths(i) + sine_of_twelfths(12 - i)
            * sine_of_twelfths(12 - i) - 100_000_000 <= 20_000,
        i < 10 ==> sine_of_tenths(i) < sine_of_tenths(i + 1),
        sine_of_tenths(0) == 0 && sine_of_tenths(10) == 10_000,
        i <= 10 ==> -20_000 <= sine_of_tenths(i) * sine_of_tenths(i) + sine_of_tenths(10 - i)
            * sine_of_tenths(10 - i) - 100_000_000 <= 20_000,
{
}

} // verus!
