//! The strip at the foot of the window: the counts, the version, the note and
//! the seal, as they are painted and as they are read out.
//!
//! Lengths are in hundredths of a point, and text scales in ten-thousandths.

use crate::a11y::{self, sentence, SCALE_MAX, SCALE_MIN};
use crate::geometry;
use crate::register::{self, line_h};
use crate::text::{self, decimal, trim, Chars};
use crate::theme::{self, sized, R_WINDOW, SPACE_L, SPACE_M, STEP_META};
use vstd::prelude::*;

verus! {

/// The shortest the strip is drawn.
pub const STRIP_H: i32 = 2_600;

/// The air on each side of a mark between two counts.
pub const SEP_AIR: i32 = 1_000;

/// The air in front of the note.
pub const NOTE_AIR: i32 = 800;

/// How far the seal stands in from the right edge.
pub const SEAL_INSET: i32 = 1_600;

/// The radius of the seal.
pub const SEAL_R: i32 = 600;

/// What the strip is called.
pub const LEAD: &'static str = "status";

/// The seal while work is in flight.
pub const BUSY: &'static str = "working";

/// The seal at rest.
pub const IDLE: &'static str = "idle";

/// Everything the strip reports.
#[derive(Clone, Copy, Debug)]
pub struct Status<'a> {
    /// How many sessions there are.
    pub sessions: usize,
    /// How many of them are running.
    pub running: usize,
    /// How many peers are online.
    pub peers_online: usize,
    /// How many preserved copies wait.
    pub conflicts: usize,
    /// Whether work is in flight.
    pub busy: bool,
    /// A note at the right edge.
    pub note: Option<&'a str>,
    /// The version that is running.
    pub version: Option<&'a str>,
}

/// The noun for so many.
pub fn plural<'a>(n: usize, one: &'a str, many: &'a str) -> (r: &'a str)
    ensures
        r@ == (if n == 1 {
            one@
        } else {
            many@
        }),
{
    if n == 1 {
        one
    } else {
        many
    }
}

/// The colour of a count.
#[derive(Clone, Copy, PartialEq, Eq, Debug, Structural)]
pub enum Tone {
    /// Quiet.
    Muted,
    /// The colour of what is settled.
    Good,
    /// The colour of a peer.
    Peer,
    /// The colour of what waits.
    Stale,
}

/// One count, as it is painted.
#[derive(Debug)]
pub struct Cluster {
    /// Its words.
    pub text: String,
    /// Its colour.
    pub tone: Tone,
}

impl Cluster {
    /// The count by its words.
    pub open spec fn shown(&self) -> (Chars, Tone) {
        (self.text@, self.tone)
    }
}

/// `n` things, named for so many.
pub open spec fn things(n: nat, one: Chars, many: Chars) -> Chars {
    text::dec(n) + " "@ + (if n == 1 {
        one
    } else {
        many
    })
}

/// The counts that are painted, in order. No preserved copies paint nothing.
pub open spec fn counts(s: Status<'_>) -> Seq<(Chars, Tone)> {
    let three = seq![
        (things(s.sessions as nat, "session"@, "sessions"@), Tone::Muted),
        (
            text::dec(s.running as nat) + " running"@,
            if s.running > 0 {
                Tone::Good
            } else {
                Tone::Muted
            },
        ),
        (
            things(s.peers_online as nat, "peer"@, "peers"@) + " online"@,
            if s.peers_online > 0 {
                Tone::Peer
            } else {
                Tone::Muted
            },
        ),
    ];
    if s.conflicts > 0 {
        three.push(
            (
                text::dec(s.conflicts as nat) + " preserved "@ + (if s.conflicts == 1 {
                    "copy"@
                } else {
                    "copies"@
                }),
                Tone::Stale,
            ),
        )
    } else {
        three
    }
}

fn things_text(n: usize, one: &str, many: &str) -> (r: String)
    ensures
        r@ == things(n as nat, one@, many@),
{
    let mut r: String = decimal(n as u64);
    r.append(" ");
    r.append(plural(n, one, many));
    r
}

/// The counts as they are painted.
pub fn clusters(s: &Status<'_>) -> (r: Vec<Cluster>)
    ensures
        r@.map_values(|c: Cluster| c.shown()) == counts(*s),
{
    let mut r: Vec<Cluster> = Vec::new();
    r.push(Cluster { text: things_text(s.sessions, "session", "sessions"), tone: Tone::Muted });
    let mut running: String = decimal(s.running as u64);
    running.append(" running");
    r.push(
        Cluster {
            text: running,
            tone: if s.running > 0 {
                Tone::Good
            } else {
                Tone::Muted
            },
        },
    );
    let mut peers: String = things_text(s.peers_online, "peer", "peers");
    peers.append(" online");
    r.push(
        Cluster {
            text: peers,
            tone: if s.peers_online > 0 {
                Tone::Peer
            } else {
                Tone::Muted
            },
        },
    );
    if s.conflicts > 0 {
        let mut kept: String = decimal(s.conflicts as u64);
        kept.append(" preserved ");
        kept.append(plural(s.conflicts, "copy", "copies"));
        r.push(Cluster { text: kept, tone: Tone::Stale });
    }
    proof {
        assert(r@.map_values(|c: Cluster| c.shown()) =~= counts(*s));
    }
    r
}

/// What is worth showing of an optional text: its trimmed form, where that is
/// not empty.
pub open spec fn given(t: Option<&str>) -> Option<Chars> {
    match t {
        Some(v) => if text::trimmed(v@).len() > 0 {
            Some(text::trimmed(v@))
        } else {
            None
        },
        None => None,
    }
}

/// What is worth showing of an optional text.
pub fn worth_showing<'a>(t: Option<&'a str>) -> (r: Option<&'a str>)
    ensures
        match r {
            Some(v) => given(t) == Some(v@),
            None => given(t) is None,
        },
{
    match t {
        Some(v) => {
            let v: &str = trim(v);
            if v.is_empty() {
                None
            } else {
                Some(v)
            }
        },
        None => None,
    }
}

/// What the strip says, part by part: the counts it paints, the seal, the
/// version and the note.
pub open spec fn said(s: Status<'_>) -> Seq<Chars> {
    let marks = counts(s).map_values(|c: (Chars, Tone)| c.0).push(
        if s.busy {
            BUSY@
        } else {
            IDLE@
        },
    );
    let named = match given(s.version) {
        Some(v) => marks.push("version "@ + v),
        None => marks,
    };
    match given(s.note) {
        Some(n) => named.push(n),
        None => named,
    }
}

/// The one sentence the strip announces.
pub fn strip_sentence(s: &Status<'_>) -> (r: String)
    ensures
        r@ == a11y::sentence_of(LEAD@, said(*s)),
{
    let painted: Vec<Cluster> = clusters(s);
    let ghost shown = counts(*s).map_values(|c: (Chars, Tone)| c.0);
    let mut parts: Vec<String> = Vec::new();
    let mut i: usize = 0;
    proof {
        assert(text::texts(parts@) =~= shown.take(0));
    }
    while i < painted.len()
        invariant
            i <= painted@.len(),
            painted@.map_values(|c: Cluster| c.shown()) == counts(*s),
            shown == counts(*s).map_values(|c: (Chars, Tone)| c.0),
            text::texts(parts@) == shown.take(i as int),
        decreases painted@.len() - i,
    {
        let ghost before = text::texts(parts@);
        parts.push(painted[i].text.clone());
        proof {
            assert(counts(*s)[i as int] == painted@[i as int].shown());
            assert(text::texts(parts@) =~= before.push(shown[i as int]));
            assert(before.push(shown[i as int]) =~= shown.take(i + 1));
        }
        i = i + 1;
    }
    proof {
        assert(painted@.len() == counts(*s).len());
        assert(shown.take(i as int) =~= shown);
    }
    if s.busy {
        parts.push(BUSY.to_owned());
    } else {
        parts.push(IDLE.to_owned());
    }
    match worth_showing(s.version) {
        Some(v) => {
            let mut p: String = "version ".to_owned();
            p.append(v);
            parts.push(p);
        },
        None => {},
    }
    match worth_showing(s.note) {
        Some(n) => {
            parts.push(n.to_owned());
        },
        None => {},
    }
    proof {
        assert(a11y::all_said(parts@) =~= said(*s));
    }
    sentence(LEAD, parts.as_slice())
}

/// The strip says every count that it paints, in the order in which it paints
/// them, and whether it works or rests.
pub proof fn law_what_is_painted_is_said(s: Status<'_>, i: int)
    requires
        0 <= i < counts(s).len(),
    ensures
        said(s).len() > counts(s).len(),
        said(s)[i] == counts(s)[i].0,
        said(s)[counts(s).len() as int] == (if s.busy {
            BUSY@
        } else {
            IDLE@
        }),
        3 <= counts(s).len() <= 4,
        counts(s).len() == 4 <==> s.conflicts > 0,
{
}

// ---------------------------------------------------------------------------
// Measures
// ---------------------------------------------------------------------------

/// The height of the rail around one line.
pub open spec fn rail_of(line: int) -> int {
    geometry::larger(line + SPACE_M, STRIP_H as int)
}

/// The height of the rail around one line.
pub fn rail_h(line: i64) -> (r: i64)
    requires
        line + SPACE_M <= i64::MAX,
    ensures
        r == rail_of(line as int),
        r >= line,
{
    if line + (SPACE_M as i64) < STRIP_H as i64 {
        STRIP_H as i64
    } else {
        line + SPACE_M as i64
    }
}

/// The height of the strip at a text scale.
pub fn strip_h(scale: i32) -> (r: i64)
    requires
        SCALE_MIN <= scale <= SCALE_MAX,
    ensures
        r == rail_of(register::line_of(STEP_META as int, scale as int)),
{
    proof {
        assert(0 <= STEP_META * scale <= 1_150 * 22_000) by (nonlinear_arith)
            requires
                STEP_META == 1_150,
                0 <= scale <= 22_000,
        ;
    }
    rail_h(line_h(STEP_META, scale))
}

/// How far the counts and the note stay clear of the right edge: of the seal,
/// and of the air around it.
pub fn content_right() -> (r: i32)
    ensures
        r == SEAL_INSET + SEAL_R + SPACE_L,
{
    SEAL_INSET + SEAL_R + SPACE_L
}

/// The least room for a note: about five characters.
pub fn note_min_w(scale: i32) -> (r: i32)
    requires
        SCALE_MIN <= scale <= SCALE_MAX,
    ensures
        r == theme::sized_of(STEP_META as int, scale as int) * 5,
{
    sized(STEP_META, scale) * 5
}

/// The radius of the strip's lower corners: those of the window.
pub fn corner(maximized: bool) -> (r: u8)
    ensures
        r == (if maximized {
            0
        } else {
            R_WINDOW
        }),
{
    if maximized {
        0
    } else {
        R_WINDOW
    }
}

// ---------------------------------------------------------------------------
// Setting the strip
// ---------------------------------------------------------------------------

/// How far the counts reach once the first `n` are set, and how many of them
/// are drawn. A count that would start at the bound or beyond is not drawn.
pub open spec fn reach(widths: Seq<u32>, left: int, bound: int, n: int) -> (int, int)
    decreases n,
{
    if n <= 0 {
        (left, 0)
    } else {
        let (x, drawn) = reach(widths, left, bound, n - 1);
        if x >= bound {
            (x, drawn)
        } else {
            (
                x + (if drawn > 0 {
                    2 * SEP_AIR
                } else {
                    0
                }) + widths[n - 1],
                drawn + 1,
            )
        }
    }
}

/// Where count `i` starts, if it is drawn.
pub open spec fn count_x(widths: Seq<u32>, left: int, bound: int, i: int) -> Option<int> {
    let (x, drawn) = reach(widths, left, bound, i);
    if x >= bound {
        None
    } else {
        Some(
            x + (if drawn > 0 {
                2 * SEP_AIR
            } else {
                0
            }),
        )
    }
}

/// Where the counts stand, and how far they reach.
#[derive(Debug)]
pub struct Counts {
    /// Where each count starts, if it is drawn.
    pub at: Vec<Option<i64>>,
    /// How far the drawn ones reach.
    pub end: i64,
}

/// Sets the counts from `left` on, with a mark between one and the next, and
/// stops at `bound`.
pub fn set_counts(widths: &[u32], left: i32, bound: i32) -> (r: Counts)
    ensures
        r.at@.len() == widths@.len(),
        forall|i: int|
            #![trigger r.at@[i]]
            0 <= i < widths@.len() ==> match r.at@[i] {
                Some(x) => count_x(widths@, left as int, bound as int, i) == Some(x as int),
                None => count_x(widths@, left as int, bound as int, i) is None,
            },
        r.end == reach(widths@, left as int, bound as int, widths@.len() as int).0,
{
    let mut at: Vec<Option<i64>> = Vec::new();
    let mut x: i64 = left as i64;
    let mut any: bool = false;
    let mut i: usize = 0;
    while i < widths.len()
        invariant
            i <= widths@.len(),
            at@.len() == i,
            x == reach(widths@, left as int, bound as int, i as int).0,
            any == (reach(widths@, left as int, bound as int, i as int).1 > 0),
            reach(widths@, left as int, bound as int, i as int).1 >= 0,
            -0x8000_0000 <= x <= 0x7fff_ffff + 0xffff_ffff + 2_000,
            forall|j: int|
                #![trigger at@[j]]
                0 <= j < i ==> match at@[j] {
                    Some(v) => count_x(widths@, left as int, bound as int, j) == Some(v as int),
                    None => count_x(widths@, left as int, bound as int, j) is None,
                },
        decreases widths@.len() - i,
    {
        if x >= bound as i64 {
            at.push(None);
        } else {
            if any {
                x = x + 2 * SEP_AIR as i64;
            }
            at.push(Some(x));
            x = x + widths[i] as i64;
            any = true;
        }
        i = i + 1;
    }
    Counts { at, end: x }
}

/// What is set behind the counts.
#[derive(Clone, Copy, Debug)]
pub struct Tail {
    /// Where the version starts, if it is drawn.
    pub version: Option<i64>,
    /// Where the note starts, and where it is cut off, if it is drawn.
    pub note: Option<(i64, i64)>,
}

/// Where something of width `w` starts that is set against `bound`, but clear of
/// the counts.
pub open spec fn against(end: int, bound: int, w: int) -> int {
    geometry::larger(bound - w, end + NOTE_AIR)
}

/// Where the version starts, if there is one and room for it.
pub open spec fn version_x(end: int, bound: int, least: int, version: Option<u32>) -> Option<int> {
    match version {
        Some(w) => if bound - end >= least {
            Some(against(end, bound, w as int))
        } else {
            None
        },
        None => None,
    }
}

/// Where the note is cut off: short of the version.
pub open spec fn note_bound(end: int, bound: int, least: int, version: Option<u32>) -> int {
    match version_x(end, bound, least, version) {
        Some(x) => x - NOTE_AIR,
        None => bound,
    }
}

/// Sets what stands behind the counts. The version holds the right edge, and the
/// note takes what is left; whatever has less than the least room is dropped.
pub fn set_tail(end: i64, bound: i32, least: i32, version: Option<u32>, note: Option<u32>) -> (r:
    Tail)
    requires
        -0x1_0000_0000_0000 <= end <= 0x1_0000_0000_0000,
    ensures
        match r.version {
            Some(x) => version_x(end as int, bound as int, least as int, version) == Some(x as int),
            None => version_x(end as int, bound as int, least as int, version) is None,
        },
        ({
            let b = note_bound(end as int, bound as int, least as int, version);
            match note {
                Some(w) => if b - end >= least {
                    &&& r.note is Some
                    &&& (r.note->0).0 == against(end as int, b, w as int)
                    &&& (r.note->0).1 == b
                } else {
                    r.note is None
                },
                None => r.note is None,
            }
        }),
{
    let mut edge: i64 = bound as i64;
    let mut shown: Option<i64> = None;
    match version {
        Some(w) => {
            if edge - end >= least as i64 {
                let a: i64 = edge - w as i64;
                let b: i64 = end + NOTE_AIR as i64;
                let x: i64 = if a < b {
                    b
                } else {
                    a
                };
                shown = Some(x);
                edge = x - NOTE_AIR as i64;
            }
        },
        None => {},
    }
    let noted: Option<(i64, i64)> = match note {
        Some(w) => if edge - end >= least as i64 {
            let a: i64 = edge - w as i64;
            let b: i64 = end + NOTE_AIR as i64;
            Some(
                (
                    if a < b {
                        b
                    } else {
                        a
                    },
                    edge,
                ),
            )
        } else {
            None
        },
        None => None,
    };
    Tail { version: shown, note: noted }
}

/// The note goes before the version does, and is cut off short of it.
pub proof fn law_the_note_yields_to_the_version(
    end: int,
    bound: int,
    least: int,
    version: Option<u32>,
)
    requires
        version is Some,
        note_bound(end, bound, least, version) - end >= least,
    ensures
        version_x(end, bound, least, version) is Some,
        note_bound(end, bound, least, version) + NOTE_AIR <= version_x(
            end,
            bound,
            least,
            version,
        )->0,
        (version_x(end, bound, least, version)->0) >= end + NOTE_AIR,
{
}

/// How the seal is drawn.
#[derive(Clone, Copy, PartialEq, Eq, Debug, Structural)]
pub enum Seal {
    /// Filled and breathing.
    Breathing,
    /// Filled and still.
    Filled,
    /// Only its outline.
    Outline,
}

/// How the seal is drawn: filled while work is in flight, and breathing only
/// where motion is wanted. Nothing else asks for another frame.
pub fn seal(busy: bool, reduced_motion: bool) -> (r: Seal)
    ensures
        r == (if !busy {
            Seal::Outline
        } else if reduced_motion {
            Seal::Filled
        } else {
            Seal::Breathing
        }),
{
    if !busy {
        Seal::Outline
    } else if reduced_motion {
        Seal::Filled
    } else {
        Seal::Breathing
    }
}

// ---------------------------------------------------------------------------
// The whole strip
// ---------------------------------------------------------------------------

/// How far the first count stands in from the left edge.
pub const PAD_L: i32 = 1_400;

/// What the strip is painted into, and how wide its texts come out.
#[derive(Debug)]
pub struct Measured {
    /// The left edge of the strip.
    pub left: i32,
    /// The right edge of the strip.
    pub right: i32,
    /// The height of the strip.
    pub height: i64,
    /// The widths of the counts.
    pub counts: Vec<u32>,
    /// The width of the version.
    pub version: u32,
    /// The width of the note.
    pub note: u32,
}

/// What the strip paints and says.
#[derive(Debug)]
pub struct Strip {
    /// The radius of its lower corners.
    pub corner: u8,
    /// Whether the ornament along its top edge is drawn.
    pub strapwork: bool,
    /// Where the counts stand.
    pub counts: Counts,
    /// What stands behind them.
    pub tail: Tail,
    /// How the seal is drawn.
    pub seal: Seal,
    /// What it announces.
    pub spoken: String,
}

/// Where the counts and the note end: short of the seal.
pub open spec fn right_bound(right: int) -> int {
    right - (SEAL_INSET + SEAL_R + SPACE_L)
}

/// Sets the strip. The ornament is the first thing to go where the strip is lower
/// than its counts need, and the counts never run under the seal.
pub fn status_strip(
    s: &Status<'_>,
    m: &Measured,
    scale: i32,
    maximized: bool,
    reduced_motion: bool,
) -> (r: Strip)
    requires
        SCALE_MIN <= scale <= SCALE_MAX,
        m.left + PAD_L <= i32::MAX,
        m.right - (SEAL_INSET + SEAL_R + SPACE_L) >= i32::MIN,
    ensures
        r.corner == (if maximized {
            0
        } else {
            R_WINDOW
        }),
        r.strapwork == (m.height >= rail_of(register::line_of(STEP_META as int, scale as int))),
        r.seal == (if !s.busy {
            Seal::Outline
        } else if reduced_motion {
            Seal::Filled
        } else {
            Seal::Breathing
        }),
        r.spoken@ == a11y::sentence_of(LEAD@, said(*s)),
        ({
            let left = m.left + PAD_L;
            let bound = right_bound(m.right as int);
            let least = theme::sized_of(STEP_META as int, scale as int) * 5;
            let version = if given(s.version) is Some {
                Some(m.version)
            } else {
                None
            };
            let end = reach(m.counts@, left, bound, m.counts@.len() as int).0;
            let cut = note_bound(end, bound, least, version);
            &&& r.counts.at@.len() == m.counts@.len()
            &&& forall|i: int|
                #![trigger r.counts.at@[i]]
                0 <= i < m.counts@.len() ==> match r.counts.at@[i] {
                    Some(x) => count_x(m.counts@, left, bound, i) == Some(x as int),
                    None => count_x(m.counts@, left, bound, i) is None,
                }
            &&& r.counts.end == end
            &&& match r.tail.version {
                Some(x) => version_x(end, bound, least, version) == Some(x as int),
                None => version_x(end, bound, least, version) is None,
            }
            &&& r.tail.note is Some <==> s.note is Some && cut - end >= least
            &&& r.tail.note is Some ==> (r.tail.note->0).0 == against(end, cut, m.note as int) && (
            r.tail.note->0).1 == cut
        }),
{
    let bound: i32 = m.right - content_right();
    let counts: Counts = set_counts(m.counts.as_slice(), m.left + PAD_L, bound);
    let version: Option<u32> = match worth_showing(s.version) {
        Some(_) => Some(m.version),
        None => None,
    };
    let note: Option<u32> = match s.note {
        Some(_) => Some(m.note),
        None => None,
    };
    proof {
        lemma_reach(m.counts@, m.left + PAD_L, bound as int, m.counts@.len() as int);
    }
    let tail: Tail = set_tail(counts.end, bound, note_min_w(scale), version, note);
    Strip {
        corner: corner(maximized),
        strapwork: m.height >= strip_h(scale),
        counts,
        tail,
        seal: seal(s.busy, reduced_motion),
        spoken: strip_sentence(s),
    }
}

proof fn lemma_reach(widths: Seq<u32>, left: int, bound: int, n: int)
    requires
        0 <= n <= widths.len(),
    ensures
        left <= reach(widths, left, bound, n).0,
        reach(widths, left, bound, n).0 <= left || reach(widths, left, bound, n).0 <= bound
            + 0xffff_ffff + 2_000,
    decreases n,
{
    if n > 0 {
        lemma_reach(widths, left, bound, n - 1);
    }
}

/// A count is drawn only where the ones before it end short of the bound, and
/// never over them.
pub proof fn law_counts_start_short_of_the_bound(
    widths: Seq<u32>,
    left: int,
    bound: int,
    i: int,
)
    requires
        0 <= i < widths.len(),
        count_x(widths, left, bound, i) is Some,
    ensures
        reach(widths, left, bound, i).0 < bound,
        reach(widths, left, bound, i).0 <= count_x(widths, left, bound, i)->0,
        reach(widths, left, bound, i + 1).0 == (count_x(widths, left, bound, i)->0) + widths[i],
{
}

/// The strip counts the sessions, those that run and the peers that are online,
/// in that order, and behind them the preserved copies where there are any. What
/// is nothing is muted.
pub proof fn law_the_strip_counts_what_there_is(s: Status<'_>)
    ensures
        ({
            let c = counts(s);
            &&& c.len() == (if s.conflicts > 0 {
                4int
            } else {
                3
            })
            &&& c[0] == (text::counted(s.sessions as nat, "session"@), Tone::Muted)
            &&& c[1].0 == text::dec(s.running as nat) + " running"@
            &&& c[1].1 == (if s.running > 0 {
                Tone::Good
            } else {
                Tone::Muted
            })
            &&& c[2].0 == text::counted(s.peers_online as nat, "peer"@) + " online"@
            &&& c[2].1 == (if s.peers_online > 0 {
                Tone::Peer
            } else {
                Tone::Muted
            })
            &&& s.conflicts == 1 ==> c[3] == ("1 preserved copy"@, Tone::Stale)
            &&& s.conflicts > 1 ==> c[3] == (
                text::dec(s.conflicts as nat) + " preserved copies"@,
                Tone::Stale,
            )
        }),
{
    lemma_things_are_counted(s.sessions as nat, "session"@, "sessions"@);
    lemma_things_are_counted(s.peers_online as nat, "peer"@, "peers"@);
    assert("session"@ + "s"@ =~= "sessions"@ && "peer"@ + "s"@ =~= "peers"@) by {
        reveal_strlit("session");
        reveal_strlit("sessions");
        reveal_strlit("peer");
        reveal_strlit("peers");
        reveal_strlit("s");
    }
    lemma_preserved_words(s.conflicts as nat);
}

proof fn lemma_things_are_counted(n: nat, one: Chars, many: Chars)
    ensures
        many == one + "s"@ ==> things(n, one, many) == text::counted(n, one),
{
    if many == one + "s"@ {
        assert(things(n, one, many) =~= text::counted(n, one));
    }
}

proof fn lemma_preserved_words(n: nat)
    ensures
        n == 1 ==> text::dec(n) + " preserved "@ + "copy"@ == "1 preserved copy"@,
        text::dec(n) + " preserved "@ + "copies"@ == text::dec(n) + " preserved copies"@,
{
    reveal_strlit(" preserved ");
    reveal_strlit("copy");
    reveal_strlit("copies");
    reveal_strlit("1 preserved copy");
    reveal_strlit(" preserved copies");
    assert(text::dec(1) =~= seq!['1']);
    assert(text::dec(n) + " preserved "@ + "copies"@ =~= text::dec(n) + " preserved copies"@);
    if n == 1 {
        assert(text::dec(n) + " preserved "@ + "copy"@ =~= "1 preserved copy"@);
    }
}

/// Behind its counts the strip says whether it works, then the version, then the
/// note, each where it is there and not blank.
pub proof fn law_the_strip_closes_with_version_and_note(s: Status<'_>)
    ensures
        ({
            let n = counts(s).len() as int;
            let v = s.version is Some && text::trimmed((s.version->0)@).len() > 0;
            let t = s.note is Some && text::trimmed((s.note->0)@).len() > 0;
            &&& said(s).len() == n + 1 + (if v {
                1int
            } else {
                0
            }) + (if t {
                1int
            } else {
                0
            })
            &&& said(s)[n] == (if s.busy {
                "working"@
            } else {
                "idle"@
            })
            &&& v ==> said(s)[n + 1] == "version "@ + text::trimmed((s.version->0)@)
            &&& t ==> said(s).last() == text::trimmed((s.note->0)@)
        }),
{
}

/// The counts stand from the left edge, each ten points on either side of a
/// mark behind the one before it, as long as one ends short of the bound.
pub proof fn law_counts_stand_side_by_side(widths: Seq<u32>, left: int, bound: int, i: int)
    requires
        0 <= i < widths.len(),
        left < bound,
    ensures
        count_x(widths, left, bound, 0) == Some(left),
        i > 0 && count_x(widths, left, bound, i) is Some ==> count_x(widths, left, bound, i - 1) is Some
            && count_x(widths, left, bound, i)->0 == count_x(widths, left, bound, i - 1)->0
            + widths[i - 1] + 2_000,
        i > 0 && count_x(widths, left, bound, i - 1) is Some ==> (count_x(widths, left, bound, i) is
            Some <==> count_x(widths, left, bound, i - 1)->0 + widths[i - 1] < bound),
{
    lemma_reach_counts(widths, left, bound, i);
    if i > 0 {
        lemma_reach_counts(widths, left, bound, i - 1);
    }
}

proof fn lemma_reach_counts(widths: Seq<u32>, left: int, bound: int, n: int)
    requires
        0 <= n <= widths.len(),
        left < bound,
    ensures
        reach(widths, left, bound, n).1 >= 0,
        n > 0 ==> reach(widths, left, bound, n).1 > 0,
    decreases n,
{
    if n > 0 {
        lemma_reach_counts(widths, left, bound, n - 1);
    }
}

/// The version stands against the right bound, never closer than eight points to
/// the counts, where there is room for it.
pub proof fn law_the_version_stands_at_the_right(
    end: int,
    bound: int,
    least: int,
    version: Option<u32>,
)
    ensures
        version_x(end, bound, least, version) is Some <==> version is Some && bound - end >= least,
        version_x(end, bound, least, version) is Some ==> {
            let x = version_x(end, bound, least, version)->0;
            &&& x >= end + 800
            &&& x >= bound - version->0
            &&& x == end + 800 || x == bound - version->0
        },
        version_x(end, bound, least, version) is None ==> note_bound(end, bound, least, version)
            == bound,
{
}

/// The seal is hollow at rest, filled at work, and breathes only where motion is
/// wanted.
pub proof fn law_the_seal_shows_work(busy: bool, reduced: bool, r: Seal)
    requires
        call_ensures(seal, (busy, reduced), r),
    ensures
        r == Seal::Outline <==> !busy,
        r == Seal::Filled <==> busy && reduced,
        r == Seal::Breathing <==> busy && !reduced,
{
}

/// A rail clears its line by eight points and is never lower than 26.
pub proof fn law_a_rail_clears_its_line(line: int)
    ensures
        rail_of(line) >= 2_600,
        rail_of(line) >= line + SPACE_M,
        rail_of(line) == 2_600 || rail_of(line) == line + SPACE_M,
{
}

/// The strip has its round corners exactly while the window does not fill the
/// screen, and gives a note room for five letters at least.
pub proof fn law_the_strip_fits_its_window(maximized: bool, scale: i32, c: u8, least: i32)
    requires
        call_ensures(corner, (maximized,), c),
        call_ensures(note_min_w, (scale,), least),
        SCALE_MIN <= scale <= SCALE_MAX,
    ensures
        maximized ==> c == 0,
        !maximized ==> c == R_WINDOW && c > 0,
        least == 5 * theme::sized_of(1_150, scale as int),
{
}

/// A strip without a version shows none, and one without a note shows none.
pub proof fn law_a_strip_shows_what_it_was_given(
    s: Status<'_>,
    m: Measured,
    scale: i32,
    maximized: bool,
    reduced: bool,
    r: Strip,
)
    requires
        call_ensures(status_strip, (&s, &m, scale, maximized, reduced), r),
        SCALE_MIN <= scale <= SCALE_MAX,
    ensures
        s.version is None || text::trimmed((s.version->0)@).len() == 0 ==> r.tail.version is None,
        s.note is None ==> r.tail.note is None,
        r.seal == Seal::Outline <==> !s.busy,
        r.counts.at@.len() == m.counts@.len(),
        m.counts@.len() > 0 && m.left + PAD_L < right_bound(m.right as int) ==> r.counts.at@[0] is Some
            && r.counts.at@[0]->0 == m.left + PAD_L,
{
    if m.counts@.len() > 0 && m.left + PAD_L < right_bound(m.right as int) {
        law_counts_stand_side_by_side(
            m.counts@,
            m.left + PAD_L,
            right_bound(m.right as int),
            0,
        );
    }
}

} // verus!
