//! The baseline grid, and the running head that says where the reader is.
//!
//! Lengths are in hundredths of a point. A length that is no number comes in as
//! `None`.

use vstd::prelude::*;

verus! {

/// The step of the baseline grid.
pub const BASELINE: i32 = 400;

/// The width of the mark between two names of a trail.
pub const SEP_W: i32 = 1_600;

/// The gap between the trail and the folio.
pub const FOLIO_GAP: i32 = 1_200;

/// What stands for the names that are left out.
pub const ELIDE_MARK: &'static str = "…";

/// `y` brought down onto the baseline grid; what is no number stays as it is.
pub fn snap(y: Option<i32>) -> (r: Option<i64>)
    ensures
        match y {
            Some(v) => r == Some((v as int / BASELINE as int * BASELINE) as i64),
            None => r is None,
        },
{
    match y {
        None => None,
        Some(v) => {
            let q: i64 = v as i64 / 400;
            let floor: i64 = if v < 0 && q * 400 != v as i64 {
                q - 1
            } else {
                q
            };
            proof {
                lemma_floor(v as int, q as int, floor as int);
            }
            Some(floor * 400)
        },
    }
}

proof fn lemma_floor(v: int, q: int, floor: int)
    requires
        v >= 0 ==> q == v / 400,
        v < 0 ==> q == -((-v) / 400),
        floor == (if v < 0 && q * 400 != v {
            q - 1
        } else {
            q
        }),
    ensures
        floor == v / 400,
        -3_000_000_000 <= v <= 3_000_000_000 ==> -8_000_000 <= floor <= 8_000_000,
{
}

/// Snapping lands on the grid, less than one step below where it started, and
/// leaves what is on the grid alone.
pub proof fn law_snap_is_a_floor(v: int)
    ensures
        ({
            let s = v / BASELINE as int * BASELINE;
            &&& s % BASELINE as int == 0
            &&& s <= v < s + BASELINE
            &&& v % BASELINE as int == 0 ==> s == v
        }),
{
}

/// So many steps of the grid.
pub fn units_to_px(units: u16) -> (r: u32)
    ensures
        r == units * BASELINE,
{
    units as u32 * 400
}

// ---------------------------------------------------------------------------
// The trail
// ---------------------------------------------------------------------------

/// What the first `n` names take.
pub open spec fn names_w(widths: Seq<i32>, n: int) -> int
    decreases n,
{
    if n <= 0 {
        0
    } else {
        names_w(widths, n - 1) + widths[n - 1]
    }
}

/// What the names from `start` on take, with a mark between one and the next.
pub open spec fn width_from(widths: Seq<i32>, sep: int, start: int) -> int {
    names_w(widths, widths.len() as int) - names_w(widths, start) + sep * (if start
        < widths.len() {
        widths.len() - start - 1
    } else {
        0
    })
}

/// Whether the names from `start` on fit behind the mark of what is left out.
pub open spec fn fits_behind(
    widths: Seq<i32>,
    sep: int,
    marker: int,
    budget: int,
    start: int,
) -> bool {
    marker + sep + width_from(widths, sep, start) <= budget
}

/// Whether `(start, lead)` is how a trail is drawn: whole where it fits; else
/// behind the mark from the first name that fits; else the last name alone.
pub open spec fn is_plan(
    widths: Seq<i32>,
    sep: int,
    marker: int,
    budget: int,
    start: int,
    lead: bool,
) -> bool {
    if widths.len() == 0 || width_from(widths, sep, 0) <= budget {
        start == 0 && !lead
    } else if lead {
        &&& 1 <= start < widths.len()
        &&& fits_behind(widths, sep, marker, budget, start)
        &&& forall|s: int|
            1 <= s < start ==> !#[trigger] fits_behind(widths, sep, marker, budget, s)
    } else {
        &&& start == widths.len() - 1
        &&& forall|s: int|
            1 <= s < widths.len() ==> !#[trigger] fits_behind(widths, sep, marker, budget, s)
    }
}

proof fn lemma_names_w(widths: Seq<i32>, n: int)
    requires
        0 <= n <= widths.len(),
    ensures
        -n * 0x8000_0000 <= names_w(widths, n) <= n * 0x8000_0000,
    decreases n,
{
    if n > 0 {
        lemma_names_w(widths, n - 1);
    }
}

fn total(widths: &[i32], n: usize) -> (r: i128)
    requires
        n <= widths@.len(),
    ensures
        r == names_w(widths@, n as int),
        -0x1_0000_0000_0000_0000 * 0x8000_0000 <= r <= 0x1_0000_0000_0000_0000 * 0x8000_0000,
{
    let mut sum: i128 = 0;
    let mut i: usize = 0;
    while i < n
        invariant
            i <= n <= widths@.len(),
            sum == names_w(widths@, i as int),
        decreases n - i,
    {
        proof {
            lemma_names_w(widths@, i as int);
            lemma_names_w(widths@, i + 1);
        }
        sum = sum + widths[i] as i128;
        i = i + 1;
    }
    proof {
        lemma_names_w(widths@, n as int);
    }
    sum
}

/// What the names from `start` on take, with a mark between one and the next.
pub fn trail_w(widths: &[i32], sep: i32, start: usize) -> (r: i128)
    requires
        start <= widths@.len(),
    ensures
        r == width_from(widths@, sep as int, start as int),
        -0x4_0000_0000_0000_0000 * 0x8000_0000 <= r <= 0x4_0000_0000_0000_0000 * 0x8000_0000,
{
    let all: i128 = total(widths, widths.len());
    let before: i128 = total(widths, start);
    let seps: i128 = if start < widths.len() {
        (widths.len() - start - 1) as i128
    } else {
        0
    };
    proof {
        assert(-0x1_0000_0000_0000_0000 * 0x8000_0000 <= sep * seps <= 0x1_0000_0000_0000_0000
            * 0x8000_0000) by (nonlinear_arith)
            requires
                -0x8000_0000 <= sep <= 0x8000_0000,
                0 <= seps <= 0x1_0000_0000_0000_0000,
        ;
    }
    all - before + sep as i128 * seps
}

/// Which names of a trail are drawn, and whether the mark of what is left out
/// leads them.
pub fn plan_trail(widths: &[i32], sep: i32, marker: i32, budget: i32) -> (r: (usize, bool))
    ensures
        is_plan(
            widths@,
            sep as int,
            marker as int,
            budget as int,
            r.0 as int,
            r.1,
        ),
{
    if widths.len() == 0 || trail_w(widths, sep, 0) <= budget as i128 {
        return (0, false);
    }
    let mut start: usize = 1;
    while start < widths.len()
        invariant
            1 <= start <= widths@.len(),
            width_from(widths@, sep as int, 0) > budget,
            forall|s: int|
                1 <= s < start ==> !#[trigger] fits_behind(
                    widths@,
                    sep as int,
                    marker as int,
                    budget as int,
                    s,
                ),
        decreases widths@.len() - start,
    {
        let needs: i128 = marker as i128 + sep as i128 + trail_w(widths, sep, start);
        if needs <= budget as i128 {
            proof {
                assert(fits_behind(
                    widths@,
                    sep as int,
                    marker as int,
                    budget as int,
                    start as int,
                ));
            }
            return (start, true);
        }
        start = start + 1;
    }
    (widths.len() - 1, false)
}

/// The widths as numbers, where all of them are numbers.
pub open spec fn numbers(widths: Seq<Option<i32>>) -> Option<Seq<i32>> {
    if forall|i: int| 0 <= i < widths.len() ==> (#[trigger] widths[i]) is Some {
        Some(widths.map_values(|w: Option<i32>| w->0))
    } else {
        None
    }
}

fn as_numbers(widths: &[Option<i32>]) -> (r: Option<Vec<i32>>)
    ensures
        match r {
            Some(v) => numbers(widths@) == Some(v@),
            None => numbers(widths@) is None,
        },
{
    let mut out: Vec<i32> = Vec::new();
    let mut i: usize = 0;
    while i < widths.len()
        invariant
            i <= widths@.len(),
            out@.len() == i,
            forall|j: int| 0 <= j < i ==> #[trigger] widths@[j] == Some(out@[j]),
        decreases widths@.len() - i,
    {
        match widths[i] {
            Some(w) => {
                out.push(w);
            },
            None => {
                return None;
            },
        }
        i = i + 1;
    }
    proof {
        assert(out@ =~= widths@.map_values(|w: Option<i32>| w->0));
    }
    Some(out)
}

/// Which names of a trail are drawn, given as the first of them, and whether the
/// mark of what is left out leads them. Where anything is no number, everything
/// is drawn.
pub fn elide_plan(
    widths: &[Option<i32>],
    sep: Option<i32>,
    marker: Option<i32>,
    budget: Option<i32>,
) -> (r: (usize, bool))
    ensures
        match (numbers(widths@), sep, marker, budget) {
            (Some(ws), Some(s), Some(m), Some(b)) => is_plan(
                ws,
                s as int,
                m as int,
                b as int,
                r.0 as int,
                r.1,
            ),
            _ => r == (0usize, false),
        },
{
    match (as_numbers(widths), sep, marker, budget) {
        (Some(ws), Some(s), Some(m), Some(b)) => plan_trail(ws.as_slice(), s, m, b),
        _ => (0, false),
    }
}

/// There is only one way to draw a trail.
pub proof fn law_the_plan_is_unique(
    widths: Seq<i32>,
    sep: int,
    marker: int,
    budget: int,
    a: (int, bool),
    b: (int, bool),
)
    requires
        is_plan(widths, sep, marker, budget, a.0, a.1),
        is_plan(widths, sep, marker, budget, b.0, b.1),
    ensures
        a == b,
{
    if widths.len() > 0 && width_from(widths, sep, 0) > budget {
        if a.1 && b.1 {
            if a.0 < b.0 {
                assert(fits_behind(widths, sep, marker, budget, a.0));
            } else if b.0 < a.0 {
                assert(fits_behind(widths, sep, marker, budget, b.0));
            }
        } else if a.1 {
            assert(fits_behind(widths, sep, marker, budget, a.0));
        } else if b.1 {
            assert(fits_behind(widths, sep, marker, budget, b.0));
        }
    }
}

/// The name that says where the reader is is always drawn.
pub proof fn law_the_last_name_survives(
    widths: Seq<i32>,
    sep: int,
    marker: int,
    budget: int,
    start: int,
    lead: bool,
)
    requires
        widths.len() > 0,
        is_plan(widths, sep, marker, budget, start, lead),
    ensures
        0 <= start < widths.len(),
        lead ==> start > 0,
{
}

/// One thing drawn in the trail.
#[derive(Clone, Copy, PartialEq, Eq, Debug, Structural)]
pub struct Drawn {
    /// Which name it is; `None` for the mark of what is left out.
    pub name: Option<usize>,
    /// Its left edge, from the left edge of the head.
    pub x: i128,
    /// Whether it is where the reader is.
    pub current: bool,
}

/// Which name stands at place `k` of the trail.
pub open spec fn name_at(start: int, lead: bool, k: int) -> Option<int> {
    if lead {
        if k == 0 {
            None
        } else {
            Some(start + k - 1)
        }
    } else {
        Some(start + k)
    }
}

/// Where the thing at place `k` of the trail stands.
pub open spec fn x_at(
    widths: Seq<i32>,
    sep: int,
    marker: int,
    start: int,
    lead: bool,
    k: int,
) -> int {
    if k <= 0 {
        0
    } else if lead {
        marker + sep + names_w(widths, start + k - 1) - names_w(widths, start) + sep * (k - 1)
    } else {
        names_w(widths, start + k) - names_w(widths, start) + sep * k
    }
}

/// Whether `t` is the trail from `start` on, behind the mark of what is left out
/// where it leads.
pub open spec fn is_trail(
    widths: Seq<i32>,
    sep: int,
    marker: int,
    start: int,
    lead: bool,
    t: Seq<Drawn>,
) -> bool {
    &&& t.len() == widths.len() - start + (if lead {
        1int
    } else {
        0
    })
    &&& forall|k: int|
        #![trigger t[k]]
        0 <= k < t.len() ==> {
            &&& t[k].x == x_at(widths, sep, marker, start, lead, k)
            &&& t[k].current == (k == t.len() - 1)
            &&& match t[k].name {
                Some(i) => name_at(start, lead, k) == Some(i as int),
                None => name_at(start, lead, k) is None,
            }
        }
}

/// Sets the trail: the mark of what is left out, where it leads, and then the
/// names from `start` on, with a mark between one and the next.
pub fn set_trail(widths: &[i32], sep: i32, marker: i32, start: usize, lead: bool) -> (r: Vec<Drawn>)
    requires
        start < widths@.len(),
    ensures
        is_trail(widths@, sep as int, marker as int, start as int, lead, r@),
{
    let mut r: Vec<Drawn> = Vec::new();
    let mut x: i128 = 0;
    if lead {
        r.push(Drawn { name: None, x: 0, current: false });
        x = marker as i128 + sep as i128;
    }
    let ghost from: int = if lead {
        marker + sep
    } else {
        0
    };
    let mut i: usize = start;
    while i < widths.len()
        invariant
            start <= i <= widths@.len(),
            from == (if lead {
                marker + sep
            } else {
                0
            }),
            r@.len() == i - start + (if lead {
                1int
            } else {
                0
            }),
            x == from + names_w(widths@, i as int) - names_w(widths@, start as int) + sep * (i
                - start),
            forall|k: int|
                #![trigger r@[k]]
                0 <= k < r@.len() ==> {
                    &&& r@[k].x == x_at(
                        widths@,
                        sep as int,
                        marker as int,
                        start as int,
                        lead,
                        k,
                    )
                    &&& r@[k].current == (r@[k].name == Some((widths@.len() - 1) as usize))
                    &&& match r@[k].name {
                        Some(n) => name_at(start as int, lead, k) == Some(n as int) && n
                            < widths@.len(),
                        None => name_at(start as int, lead, k) is None,
                    }
                },
        decreases widths@.len() - i,
    {
        proof {
            lemma_names_w(widths@, i as int);
            lemma_names_w(widths@, i + 1);
            lemma_names_w(widths@, start as int);
            assert(-0x1_0000_0000_0000_0000 * 0x8000_0000 <= sep * (i + 1 - start)
                <= 0x1_0000_0000_0000_0000 * 0x8000_0000) by (nonlinear_arith)
                requires
                    -0x8000_0000 <= sep <= 0x8000_0000,
                    0 <= i + 1 - start <= 0x1_0000_0000_0000_0000,
            ;
            assert(-0x1_0000_0000_0000_0000 * 0x8000_0000 <= sep * (i - start)
                <= 0x1_0000_0000_0000_0000 * 0x8000_0000) by (nonlinear_arith)
                requires
                    -0x8000_0000 <= sep <= 0x8000_0000,
                    0 <= i - start <= 0x1_0000_0000_0000_0000,
            ;
            assert(sep * (i + 1 - start) == sep * (i - start) + sep) by (nonlinear_arith);
            if i == start {
                assert(sep * (i - start) == 0) by (nonlinear_arith)
                    requires
                        i == start,
                ;
            }
        }
        r.push(Drawn { name: Some(i), x, current: i == widths.len() - 1 });
        x = x + widths[i] as i128 + sep as i128;
        i = i + 1;
    }
    r
}

/// A trail that is drawn whole, or behind the mark, ends inside its room.
pub proof fn law_the_trail_ends_inside_its_room(
    widths: Seq<i32>,
    sep: int,
    marker: int,
    budget: int,
    start: int,
    lead: bool,
)
    requires
        widths.len() > 0,
        is_plan(widths, sep, marker, budget, start, lead),
        lead || start == 0,
        lead || width_from(widths, sep, 0) <= budget,
    ensures
        ({
            let k = widths.len() - start - 1 + (if lead {
                1int
            } else {
                0
            });
            x_at(widths, sep, marker, start, lead, k) + widths.last() <= budget
        }),
{
    let n = widths.len() as int;
    assert(names_w(widths, n) == names_w(widths, n - 1) + widths[n - 1]);
    if lead {
        assert(fits_behind(widths, sep, marker, budget, start));
    }
    if n == 1 {
        assert(sep * 0 == 0) by (nonlinear_arith);
        assert(names_w(widths, 0) == 0);
    }
}

/// How a running head shares out its width.
#[derive(Clone, Copy, PartialEq, Eq, Debug, Structural)]
pub struct HeadRoom {
    /// What the folio takes of the outer edge; nothing without one.
    pub folio: i32,
    /// What is left for the trail.
    pub trail: i64,
}

/// What the folio takes of the outer edge: at most half of the head.
pub open spec fn folio_w(width: int, folio: Option<i32>) -> int {
    match folio {
        None => 0,
        Some(f) => if f < width / 2 {
            f as int
        } else {
            width / 2
        },
    }
}

/// What is left for the trail.
pub open spec fn trail_room(width: int, folio: Option<i32>) -> int {
    match folio {
        None => width,
        Some(_) => width - folio_w(width, folio) - FOLIO_GAP,
    }
}

/// Shares out the width of a running head. The folio owns the outer edge, up to
/// half of the head, and the trail gets what is left before the gap.
pub fn head_room(width: i32, folio: Option<i32>) -> (r: HeadRoom)
    requires
        width >= 0,
    ensures
        r.folio == folio_w(width as int, folio),
        r.trail == trail_room(width as int, folio),
{
    match folio {
        None => HeadRoom { folio: 0, trail: width as i64 },
        Some(f) => {
            let half: i32 = width / 2;
            let zone: i32 = if f < half {
                f
            } else {
                half
            };
            HeadRoom { folio: zone, trail: width as i64 - zone as i64 - 1_200 }
        },
    }
}

/// What a running head draws.
#[derive(Debug)]
pub struct Head {
    /// What the folio takes of the outer edge.
    pub folio: i32,
    /// The trail.
    pub trail: Vec<Drawn>,
}

/// What a running head of that width draws for names of those widths. Nothing is
/// drawn without a name or without a point of width, and no trail where the
/// folio leaves it less than a point.
pub fn running_head(widths: &[i32], marker: i32, width: i32, folio: Option<i32>) -> (r: Option<
    Head,
>)
    requires
        folio is Some ==> (folio->0) >= 0,
    ensures
        r is None <==> widths@.len() == 0 || width < 100,
        r is Some ==> {
            let h = r->0;
            &&& h.folio == folio_w(width as int, folio)
            &&& if trail_room(width as int, folio) < 100 {
                h.trail@.len() == 0
            } else {
                exists|start: int, lead: bool|
                    {
                        &&& #[trigger] is_plan(
                            widths@,
                            SEP_W as int,
                            marker as int,
                            trail_room(width as int, folio),
                            start,
                            lead,
                        )
                        &&& is_trail(
                            widths@,
                            SEP_W as int,
                            marker as int,
                            start,
                            lead,
                            h.trail@,
                        )
                    }
            }
        },
{
    if widths.len() == 0 || width < 100 {
        return None;
    }
    let room: HeadRoom = head_room(width, folio);
    if room.trail < 100 {
        return Some(Head { folio: room.folio, trail: Vec::new() });
    }
    let (start, lead): (usize, bool) = plan_trail(widths, SEP_W, marker, room.trail as i32);
    proof {
        law_the_last_name_survives(
            widths@,
            SEP_W as int,
            marker as int,
            room.trail as int,
            start as int,
            lead,
        );
    }
    let trail: Vec<Drawn> = set_trail(widths, SEP_W, marker, start, lead);
    Some(Head { folio: room.folio, trail })
}

/// A coordinate goes down to the nearest multiple of four points at or below it.
pub proof fn law_the_grid_is_four_points(v: i32, r: Option<i64>, line: int)
    requires
        call_ensures(snap, (Some(v),), r),
        line % 400 == 0,
        line <= v,
    ensures
        r is Some,
        (r->0) % 400 == 0,
        (r->0) <= v < (r->0) + 400,
        line <= (r->0),
{
    law_snap_is_a_floor(v as int);
}

/// A unit of space is four points.
pub proof fn law_a_unit_is_four_points(units: u16, r: u32)
    requires
        call_ensures(units_to_px, (units,), r),
    ensures
        r == 400 * units,
{
}

/// The names of a trail are as wide as each of them together.
pub proof fn law_names_are_summed(widths: Seq<i32>, n: int)
    requires
        0 <= n < widths.len(),
    ensures
        names_w(widths, 0) == 0,
        names_w(widths, n + 1) - names_w(widths, n) == widths[n],
{
}

/// A trail is as wide as its names from the first one kept, with a separator
/// between every two of them.
pub proof fn law_a_trail_is_its_names_and_separators(widths: Seq<i32>, sep: int, start: int)
    requires
        0 <= start < widths.len(),
    ensures
        width_from(widths, sep, start) == widths[start] + (if start + 1 < widths.len() {
            sep + width_from(widths, sep, start + 1)
        } else {
            0
        }),
{
    let n = widths.len() - start - 1;
    assert(sep * n == sep + sep * (n - 1)) by (nonlinear_arith);
    assert(sep * 0 == 0) by (nonlinear_arith);
}

/// A trail that fits is shown whole; one that does not keeps as many of its last
/// names as fit behind the mark of what was cut, and where none does, its very
/// last one alone.
pub proof fn law_a_trail_keeps_what_fits(
    widths: Seq<i32>,
    sep: int,
    marker: int,
    budget: int,
    start: int,
    lead: bool,
    more: int,
)
    requires
        widths.len() > 0,
        is_plan(widths, sep, marker, budget, start, lead),
        1 <= more < widths.len(),
    ensures
        width_from(widths, sep, 0) <= budget ==> start == 0 && !lead,
        width_from(widths, sep, 0) > budget && marker + sep + width_from(widths, sep, more)
            <= budget ==> lead && 1 <= start <= more && marker + sep + width_from(
            widths,
            sep,
            start,
        ) <= budget,
        width_from(widths, sep, 0) > budget && !lead ==> start == widths.len() - 1 && marker + sep
            + width_from(widths, sep, more) > budget,
{
    assert(fits_behind(widths, sep, marker, budget, more) == (marker + sep + width_from(
        widths,
        sep,
        more,
    ) <= budget));
}

/// In a trail each name stands one separator behind the one before it, the first
/// at the left edge, or behind the mark of what was cut; and only the last is
/// the current one.
pub proof fn law_names_stand_one_separator_apart(
    widths: Seq<i32>,
    sep: int,
    marker: int,
    start: int,
    lead: bool,
    t: Seq<Drawn>,
    k: int,
)
    requires
        is_trail(widths, sep, marker, start, lead, t),
        0 <= start < widths.len(),
        0 <= k < t.len(),
    ensures
        t[0].x == 0,
        lead ==> t[0].name is None,
        t[k].name is None ==> lead && k == 0,
        t[k].name is Some ==> start <= t[k].name->0 < widths.len() && t[k].name->0 == start + k - (
        if lead {
            1int
        } else {
            0
        }),
        k + 1 < t.len() && t[k].name is Some ==> t[k + 1].x == t[k].x + widths[t[k].name->0 as int]
            + sep,
        k + 1 < t.len() && t[k].name is None ==> t[k + 1].x == marker + sep,
        t[k].current <==> k == t.len() - 1,
{
    assert(t[k].x == x_at(widths, sep, marker, start, lead, k));
    assert(t[0].x == x_at(widths, sep, marker, start, lead, 0));
    if k + 1 < t.len() {
        assert(t[k + 1].x == x_at(widths, sep, marker, start, lead, k + 1));
        assert(sep * (k + 1) == sep * k + sep) by (nonlinear_arith);
        assert(sep * k == sep * (k - 1) + sep) by (nonlinear_arith);
        assert(sep * 0 == 0) by (nonlinear_arith);
    }
}

/// A folio takes no more than half the width, and the trail what is left beside
/// it and their gap.
pub proof fn law_the_trail_leaves_room_for_the_folio(width: i32, folio: Option<i32>, r: HeadRoom)
    requires
        call_ensures(head_room, (width, folio), r),
        width >= 0,
    ensures
        folio is None ==> r.folio == 0 && r.trail == width,
        folio is Some ==> r.folio <= width / 2 && r.folio <= folio->0 && r.trail + r.folio + 1_200
            == width,
        folio is Some && folio->0 <= width / 2 ==> r.folio == folio->0,
{
}

/// A trail among whose measures one is no number is shown as it is.
pub proof fn law_an_unmeasured_trail_is_not_cut(
    widths: &[Option<i32>],
    sep: Option<i32>,
    marker: Option<i32>,
    budget: Option<i32>,
    r: (usize, bool),
    i: int,
)
    requires
        call_ensures(elide_plan, (widths, sep, marker, budget), r),
        sep is None || marker is None || budget is None || (0 <= i < widths@.len() && widths@[i] is
            None),
    ensures
        r == (0usize, false),
{
    if 0 <= i < widths@.len() && widths@[i] is None {
        assert(numbers(widths@) is None);
    }
}

/// A trail of numbers is cut by those numbers.
pub proof fn law_a_measured_trail_is_cut_by_its_measures(
    widths: &[Option<i32>],
    sep: i32,
    marker: i32,
    budget: i32,
    r: (usize, bool),
    ws: Seq<i32>,
)
    requires
        call_ensures(elide_plan, (widths, Some(sep), Some(marker), Some(budget)), r),
        ws.len() == widths@.len(),
        forall|i: int| 0 <= i < ws.len() ==> (#[trigger] widths@[i]) == Some(ws[i]),
    ensures
        is_plan(ws, sep as int, marker as int, budget as int, r.0 as int, r.1),
{
    assert forall|i: int| 0 <= i < widths@.len() implies (#[trigger] widths@[i]) is Some by {
        assert(widths@[i] == Some(ws[i]));
    }
    assert(widths@.map_values(|w: Option<i32>| w->0) =~= ws);
}

/// What is no number is no place on the grid.
pub proof fn law_what_is_no_number_stays_off_the_grid(r: Option<i64>)
    requires
        call_ensures(snap, (None::<i32>,), r),
    ensures
        r is None,
{
}

/// A running head is set where there are names and a point of width; its trail is
/// left out where the folio leaves it no point.
pub proof fn law_a_running_head_is_set_where_it_has_room(
    widths: &[i32],
    marker: i32,
    width: i32,
    folio: Option<i32>,
    r: Option<Head>,
)
    requires
        call_ensures(running_head, (widths, marker, width, folio), r),
    ensures
        r is Some <==> widths@.len() > 0 && width >= 100,
        r is Some && folio is None ==> (r->0).folio == 0 && (r->0).trail@.len() > 0,
        r is Some && folio is Some && width - (r->0).folio - 1_200 < 100 ==> (r->0).trail@.len() == 0,
{
    if r is Some && folio is None {
        let (start, lead) = choose|start: int, lead: bool|
            {
                &&& #[trigger] is_plan(
                    widths@,
                    SEP_W as int,
                    marker as int,
                    trail_room(width as int, folio),
                    start,
                    lead,
                )
                &&& is_trail(widths@, SEP_W as int, marker as int, start, lead, (r->0).trail@)
            };
        law_the_last_name_survives(
            widths@,
            SEP_W as int,
            marker as int,
            trail_room(width as int, folio),
            start,
            lead,
        );
    }
}

} // verus!
