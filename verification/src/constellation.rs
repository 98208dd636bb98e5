//! The peer mesh as a sky of stars: which stars are drawn and in what order,
//! what each one says, where the keyboard cursor lands, and which labels fit.
//!
//! Lengths and positions are in hundredths of a point. `None` stands for a
//! length that is no finite number.

use crate::a11y::{self, sentence, spoken_ms};
use crate::health::{self, grade_lit};
use crate::order::{self, ascending, Entry, Key};
use crate::text::{self, chars, decimal, same, trim, Chars};
use vstd::prelude::*;

verus! {

/// The most stars drawn; the rest are counted.
pub const MAX_STARS: usize = 24;

/// The longest name drawn under a star, in characters.
pub const LABEL_MAX_CHARS: usize = 14;

/// The clearance between two labels.
pub const LABEL_PAD: i32 = 200;

/// The smallest half-extent that can hold a sky.
pub const MIN_SKY_R: i32 = 7_200;

/// The room between the centre's label and the nearest star.
pub const CENTRE_CLEARANCE: i32 = 600;

/// A direct path with a round trip below this many milliseconds is good.
pub const GRADE_GOOD_MAX_RTT_MS: u32 = 80;

/// A round trip of this many milliseconds or more is poor.
pub const GRADE_POOR_MIN_RTT_MS: u32 = 300;

/// What the sky is called.
pub const SKY_LEAD: &'static str = "peer mesh";

/// The note of a sky without peers.
pub const SKY_EMPTY: &'static str = "no peers yet";

/// A path without a hop.
pub const PATH_DIRECT: &'static str = "direct";

/// A path over a hop.
pub const PATH_RELAYED: &'static str = "relayed";

/// A connected peer without a reading.
pub const RTT_UNMEASURED: &'static str = "round-trip unmeasured";

/// A peer that is not connected.
pub const STAR_OFFLINE: &'static str = "offline";

/// A peer with neither a name nor an id.
pub const STAR_UNNAMED: &'static str = "unnamed peer";

/// One peer as the sky needs it.
#[derive(Clone, Copy, Debug)]
pub struct Star<'a> {
    /// The peer's lasting id; it alone decides the star's direction.
    pub id: &'a str,
    /// A short name.
    pub name: &'a str,
    /// The round trip in milliseconds, where it was measured.
    pub rtt_ms: Option<u32>,
    /// True when the path goes over a relay.
    pub relayed: bool,
    /// False for a peer that is known but not connected.
    pub online: bool,
    /// The caller's own grade of the path, where it has one.
    pub grade: Option<&'a str>,
}

// ---------------------------------------------------------------------------
// Order
// ---------------------------------------------------------------------------

/// The class of a star: measured, then unmeasured, then offline.
pub open spec fn class_of(s: Star<'_>) -> nat {
    if !s.online {
        2
    } else if s.rtt_ms is None {
        1
    } else {
        0
    }
}

/// What a star is ordered by: its class, then its id.
pub open spec fn star_key(s: Star<'_>) -> Key {
    Key { rank: class_of(s), name: s.id@, tie: Seq::empty() }
}

/// The keys of a list of stars.
pub open spec fn star_keys(stars: Seq<Star<'_>>) -> Seq<Key> {
    stars.map_values(|s: Star<'_>| star_key(s))
}

/// How many of `n` stars are drawn.
pub open spec fn drawn(n: nat) -> nat {
    if n > MAX_STARS {
        MAX_STARS as nat
    } else {
        n
    }
}

/// `shown` are the places of the drawn stars, in the order of their keys.
pub open spec fn is_star_order(shown: Seq<usize>, stars: Seq<Star<'_>>) -> bool {
    exists|full: Seq<usize>|
        order::is_order(full, star_keys(stars)) && shown == full.take(drawn(stars.len()) as int)
}

/// The class of a star and its id.
pub fn class_key<'s>(s: &Star<'s>) -> (r: (u8, &'s str))
    ensures
        r.0 == class_of(*s),
        r.1@ == s.id@,
{
    let class: u8 = if !s.online {
        2
    } else if s.rtt_ms.is_none() {
        1
    } else {
        0
    };
    (class, s.id)
}

/// The places of the stars in the order in which the sky takes them, as many as
/// it draws, and how many it leaves out.
pub fn order_stars(stars: &[Star<'_>]) -> (r: (Vec<usize>, usize))
    ensures
        is_star_order(r.0@, stars@),
        r.0@.len() == drawn(stars@.len()),
        forall|i: int| 0 <= i < r.0@.len() ==> (#[trigger] r.0@[i]) < stars@.len(),
        r.0@.len() + r.1 == stars@.len(),
{
    let mut es: Vec<Entry> = Vec::new();
    let mut i: usize = 0;
    while i < stars.len()
        invariant
            i <= stars@.len(),
            es.len() == i,
            forall|j: int| 0 <= j < i ==> (#[trigger] es@[j])@ == star_key(stars@[j]),
        decreases stars@.len() - i,
    {
        let (class, id): (u8, &str) = class_key(&stars[i]);
        es.push(Entry { rank: class as u64, name: chars(id), tie: Vec::new() });
        i = i + 1;
    }
    proof {
        assert(order::keys_of(es@) =~= star_keys(stars@));
    }
    let mut shown: Vec<usize> = ascending(&es);
    let ghost full = shown@;
    let n: usize = stars.len();
    let overflow: usize = if n > MAX_STARS {
        shown.truncate(MAX_STARS);
        n - MAX_STARS
    } else {
        0
    };
    proof {
        assert(shown@ =~= full.take(drawn(n as nat) as int));
    }
    (shown, overflow)
}

/// When the cap bites, the stars that matter most keep their place: no star left
/// out comes before one that is drawn, by its class or, within the class, by its
/// id.
pub proof fn law_the_cap_keeps_the_earlier_stars(
    shown: Seq<usize>,
    stars: Seq<Star<'_>>,
    i: int,
    left_out: usize,
)
    requires
        is_star_order(shown, stars),
        0 <= i < shown.len(),
        left_out < stars.len(),
        !shown.contains(left_out),
    ensures
        ({
            let kept = stars[shown[i] as int];
            let out = stars[left_out as int];
            &&& class_of(kept) <= class_of(out)
            &&& class_of(kept) == class_of(out) ==> kept.id@ == out.id@ || order::lex_lt(
                kept.id@,
                out.id@,
            )
        }),
{
    let ks = star_keys(stars);
    let full = choose|full: Seq<usize>|
        order::is_order(full, ks) && shown == full.take(drawn(stars.len()) as int);
    assert(full.contains(left_out));
    let at = full.index_of(left_out);
    if at < shown.len() {
        assert(shown[at] == left_out);
    }
    assert(order::before(ks, full[i] as int, full[at] as int));
}

/// The sky draws every star, once, up to its cap.
pub proof fn law_drawn_stars_are_distinct(shown: Seq<usize>, stars: Seq<Star<'_>>)
    requires
        is_star_order(shown, stars),
    ensures
        shown.no_duplicates(),
        stars.len() <= MAX_STARS ==> forall|i: usize|
            i < stars.len() ==> #[trigger] shown.contains(i),
{
    let full = choose|full: Seq<usize>|
        order::is_order(full, star_keys(stars)) && shown == full.take(drawn(stars.len()) as int);
    order::lemma_order_distinct(full, star_keys(stars));
    if stars.len() <= MAX_STARS {
        assert(shown =~= full);
    }
}

/// The sky holds still when its peers arrive in another order: the same stars
/// take the same places.
pub proof fn law_the_sky_ignores_arrival(
    a: Seq<usize>,
    sa: Seq<Star<'_>>,
    b: Seq<usize>,
    sb: Seq<Star<'_>>,
)
    requires
        is_star_order(a, sa),
        is_star_order(b, sb),
        star_keys(sa).to_multiset() == star_keys(sb).to_multiset(),
        sa.len() <= usize::MAX,
    ensures
        a.len() == b.len(),
        forall|i: int|
            0 <= i < a.len() ==> star_key(sa[(#[trigger] a[i]) as int]) == star_key(
                sb[b[i] as int],
            ),
{
    let ka = star_keys(sa);
    let kb = star_keys(sb);
    let fa = choose|full: Seq<usize>|
        order::is_order(full, ka) && a == full.take(drawn(sa.len()) as int);
    let fb = choose|full: Seq<usize>|
        order::is_order(full, kb) && b == full.take(drawn(sb.len()) as int);
    ka.to_multiset_ensures();
    kb.to_multiset_ensures();
    order::law_order_ignores_arrival(fa, ka, fb, kb);
    assert forall|i: int| 0 <= i < a.len() implies star_key(sa[(#[trigger] a[i]) as int])
        == star_key(sb[b[i] as int]) by {
        assert(order::arranged(fa, ka)[i] == order::arranged(fb, kb)[i]);
        assert(a[i] == fa[i] && b[i] == fb[i]);
        assert(fa[i] < ka.len() && fb[i] < kb.len());
    }
}

// ---------------------------------------------------------------------------
// Grades
// ---------------------------------------------------------------------------

/// The grade that the sky itself gives a star.
pub open spec fn own_grade(online: bool, relayed: bool, rtt_ms: Option<u32>) -> Chars {
    if !online {
        "Offline"@
    } else {
        match rtt_ms {
            Some(ms) => if ms >= GRADE_POOR_MIN_RTT_MS {
                "Poor"@
            } else if !relayed && ms < GRADE_GOOD_MAX_RTT_MS {
                "Good"@
            } else {
                "Fair"@
            },
            None => "Fair"@,
        }
    }
}

/// The grade of a path, from what the sky can see of it.
pub fn grade_of(online: bool, relayed: bool, rtt_ms: Option<u32>) -> (r: &'static str)
    ensures
        r@ == own_grade(online, relayed, rtt_ms),
{
    if !online {
        return "Offline";
    }
    match rtt_ms {
        Some(ms) => if ms >= GRADE_POOR_MIN_RTT_MS {
            "Poor"
        } else if !relayed && ms < GRADE_GOOD_MAX_RTT_MS {
            "Good"
        } else {
            "Fair"
        },
        None => "Fair",
    }
}

/// Whether a grade is one of the house's.
pub open spec fn is_house_grade(grade: Chars) -> bool {
    grade == "Good"@ || grade == "Fair"@ || grade == "Poor"@ || grade == "Offline"@
}

/// A grade of the house's vocabulary, or `None` for any other word.
pub fn house_grade(grade: &str) -> (r: Option<&'static str>)
    ensures
        match r {
            Some(g) => is_house_grade(grade@) && g@ == grade@,
            None => !is_house_grade(grade@),
        },
{
    if same(grade, "Good") {
        Some("Good")
    } else if same(grade, "Fair") {
        Some("Fair")
    } else if same(grade, "Poor") {
        Some("Poor")
    } else if same(grade, "Offline") {
        Some("Offline")
    } else {
        None
    }
}

/// The grade a star is drawn with: the caller's own while the star is lit and
/// the word is one of the house's, and else the sky's.
pub open spec fn drawn_grade(s: Star<'_>) -> Chars {
    match s.grade {
        Some(g) => if s.online && is_house_grade(g@) {
            g@
        } else {
            own_grade(s.online, s.relayed, s.rtt_ms)
        },
        None => own_grade(s.online, s.relayed, s.rtt_ms),
    }
}

/// A star that is not connected is offline, whatever it last reported and
/// whatever the caller grades it.
pub proof fn law_an_unlit_star_is_offline(s: Star<'_>)
    requires
        !s.online,
    ensures
        drawn_grade(s) == "Offline"@,
        orbit_of(s) == Orbit::Rim,
{
}

// ---------------------------------------------------------------------------
// Places
// ---------------------------------------------------------------------------

/// Where a star sits: at the distance of its round trip, or on the rim beyond
/// every measured distance.
#[derive(Clone, Copy, PartialEq, Eq, Debug, Structural)]
pub enum Orbit {
    /// At the distance of a round trip of that many milliseconds.
    Measured(u32),
    /// On the rim.
    Rim,
}

/// A star has a distance only while it is connected and measured.
pub open spec fn orbit_of(s: Star<'_>) -> Orbit {
    match s.rtt_ms {
        Some(ms) => if s.online {
            Orbit::Measured(ms)
        } else {
            Orbit::Rim
        },
        None => Orbit::Rim,
    }
}

/// One drawn star.
#[derive(Clone, Copy, Debug)]
pub struct PlacedGeo {
    /// The star's index in the caller's list.
    pub idx: usize,
    /// Its distance.
    pub orbit: Orbit,
    /// Its direction, in parts of a full turn divided by two to the 53rd.
    pub heading: u64,
    /// Its size.
    pub star_r: i32,
    /// Its grade.
    pub grade: &'static str,
}

/// `g` is the star at its index as the sky draws it.
pub open spec fn is_placed(g: PlacedGeo, stars: Seq<Star<'_>>) -> bool {
    let s = stars[g.idx as int];
    &&& g.idx < stars.len()
    &&& g.orbit == orbit_of(s)
    &&& g.heading == heading_of(s.id@)
    &&& g.grade@ == drawn_grade(s)
    &&& g.star_r == star_size(health::lit_marks(drawn_grade(s)))
}

/// Orders, caps and places the stars.
pub fn place(stars: &[Star<'_>]) -> (r: (Vec<PlacedGeo>, usize))
    ensures
        is_star_order(Seq::new(r.0@.len(), |i: int| r.0@[i].idx), stars@),
        forall|i: int| 0 <= i < r.0@.len() ==> is_placed(#[trigger] r.0@[i], stars@),
        r.0@.len() == drawn(stars@.len()),
        r.0@.len() + r.1 == stars@.len(),
{
    let (shown, overflow): (Vec<usize>, usize) = order_stars(stars);
    let mut out: Vec<PlacedGeo> = Vec::new();
    let mut i: usize = 0;
    while i < shown.len()
        invariant
            i <= shown.len(),
            out.len() == i,
            forall|j: int| 0 <= j < shown@.len() ==> (#[trigger] shown@[j]) < stars@.len(),
            forall|j: int|
                0 <= j < i ==> is_placed(#[trigger] out@[j], stars@) && out@[j].idx == shown@[j],
        decreases shown.len() - i,
    {
        let s: Star<'_> = stars[shown[i]];
        let own: &'static str = grade_of(s.online, s.relayed, s.rtt_ms);
        let grade: &'static str = match s.grade {
            Some(g) => if s.online {
                match house_grade(g) {
                    Some(word) => word,
                    None => own,
                }
            } else {
                own
            },
            None => own,
        };
        let orbit: Orbit = match s.rtt_ms {
            Some(ms) => if s.online {
                Orbit::Measured(ms)
            } else {
                Orbit::Rim
            },
            None => Orbit::Rim,
        };
        out.push(
            PlacedGeo {
                idx: shown[i],
                orbit,
                heading: heading(s.id),
                star_r: star_radius(grade_lit(grade)),
                grade,
            },
        );
        i = i + 1;
    }
    proof {
        assert(Seq::new(out@.len(), |i: int| out@[i].idx) =~= shown@);
    }
    (out, overflow)
}

// ---------------------------------------------------------------------------
// Directions
// ---------------------------------------------------------------------------

/// The FNV-1a hash of a string of bytes.
pub open spec fn fnv(bytes: Seq<u8>) -> u64
    decreases bytes.len(),
{
    if bytes.len() == 0 {
        0xcbf2_9ce4_8422_2325
    } else {
        (fnv(bytes.drop_last()) ^ (bytes.last() as u64)).wrapping_mul(0x0100_0000_01b3)
    }
}

/// The FNV-1a hash of `bytes`.
pub fn fnv1a64(bytes: &[u8]) -> (h: u64)
    ensures
        h == fnv(bytes@),
{
    let mut h: u64 = 0xcbf2_9ce4_8422_2325;
    let mut i: usize = 0;
    while i < bytes.len()
        invariant
            i <= bytes@.len(),
            h == fnv(bytes@.take(i as int)),
        decreases bytes@.len() - i,
    {
        h = (h ^ (bytes[i] as u64)).wrapping_mul(0x0100_0000_01b3);
        proof {
            assert(bytes@.take(i + 1).drop_last() =~= bytes@.take(i as int));
        }
        i = i + 1;
    }
    proof {
        assert(bytes@.take(i as int) =~= bytes@);
    }
    h
}

/// `h` mixed so that near hashes fall far apart: the finish of splitmix64.
pub open spec fn mixed(h: u64) -> u64 {
    let a = (h ^ (h >> 30)).wrapping_mul(0xbf58_476d_1ce4_e5b9);
    let b = (a ^ (a >> 27)).wrapping_mul(0x94d0_49bb_1331_11eb);
    b ^ (b >> 31)
}

/// Mixes a hash so that short, similar ids spread over the whole sky.
pub fn mix64(h: u64) -> (r: u64)
    ensures
        r == mixed(h),
{
    let a: u64 = (h ^ (h >> 30)).wrapping_mul(0xbf58_476d_1ce4_e5b9);
    let b: u64 = (a ^ (a >> 27)).wrapping_mul(0x94d0_49bb_1331_11eb);
    b ^ (b >> 31)
}

/// The direction of an id, from the hash of its UTF-8 bytes.
pub open spec fn heading_of(id: Chars) -> u64 {
    mixed(fnv(vstd::utf8::encode_utf8(id))) >> 11
}

/// The direction of a peer, in parts of a full turn divided by two to the 53rd.
/// It is decided by the id alone.
pub fn heading(id: &str) -> (r: u64)
    ensures
        r == heading_of(id@),
        r < 0x20_0000_0000_0000,
{
    let m: u64 = mix64(fnv1a64(id.as_bytes()));
    proof {
        assert(m >> 11 < 0x20_0000_0000_0000) by (bit_vector);
    }
    m >> 11
}

// ---------------------------------------------------------------------------
// Sizes
// ---------------------------------------------------------------------------

/// The size of a star with that many marks.
pub open spec fn star_size(lit: nat) -> int {
    400 + 160 * (if lit > 3 {
        3
    } else {
        lit as int
    })
}

/// The radius of a star, from the marks its grade strikes.
pub fn star_radius(lit: u8) -> (r: i32)
    ensures
        r == star_size(lit as nat),
        400 <= r <= 880,
{
    let n: i32 = if lit > 3 {
        3
    } else {
        lit as i32
    };
    400 + 160 * n
}

/// How far from a star's centre the pointer still reaches it.
pub open spec fn reach(star_r: int) -> int {
    if star_r + 500 < 900 {
        900
    } else {
        star_r + 500
    }
}

/// How far from a star's centre the pointer still reaches it.
pub fn hit_radius(star_r: i32) -> (r: i64)
    ensures
        r == reach(star_r as int),
{
    let r: i64 = star_r as i64 + 500;
    if r < 900 {
        900
    } else {
        r
    }
}

/// The smallest height for a sky of so many peers.
pub open spec fn floor_height(peers: nat) -> int {
    if peers == 0 {
        15_000
    } else {
        23_000 + 400 * drawn(peers) as int
    }
}

/// The largest height for a sky of so many peers.
pub open spec fn ceiling_height(peers: nat) -> int {
    let h = floor_height(peers) + 2_800 * drawn(peers);
    if h > 48_000 {
        48_000
    } else {
        h
    }
}

/// The height of a sky of so many peers in that width.
pub open spec fn sky_height(width: Option<i32>, peers: nat) -> int {
    match width {
        Some(w) => if w <= 0 {
            floor_height(peers)
        } else {
            let h = w as int * 62 / 100;
            if h < floor_height(peers) {
                floor_height(peers)
            } else if h > ceiling_height(peers) {
                ceiling_height(peers)
            } else {
                h
            }
        },
        None => floor_height(peers),
    }
}

/// The height the sky wants for a width and a number of peers.
pub fn desired_height(width: Option<i32>, peers: usize) -> (r: i32)
    ensures
        r == sky_height(width, peers as nat),
{
    let crowd: i32 = if peers > MAX_STARS {
        24
    } else {
        peers as i32
    };
    let floor: i32 = if peers == 0 {
        15_000
    } else {
        23_000 + 400 * crowd
    };
    let ceiling: i32 = if floor + 2_800 * crowd > 48_000 {
        48_000
    } else {
        floor + 2_800 * crowd
    };
    match width {
        Some(w) => if w <= 0 {
            floor
        } else {
            let h: i32 = (w as i64 * 62 / 100) as i32;
            if h < floor {
                floor
            } else if h > ceiling {
                ceiling
            } else {
                h
            }
        },
        None => floor,
    }
}

/// A sky never outgrows its cap, an empty one stays small however wide the
/// window is, and more peers never make it smaller.
pub proof fn law_sky_height(width: Option<i32>, few: nat, many: nat)
    requires
        few <= many,
    ensures
        15_000 <= sky_height(width, many) <= 48_000,
        sky_height(width, 0) == 15_000,
        sky_height(width, few) <= sky_height(width, many),
{
}

/// The radii of a sky.
#[derive(Clone, Copy, Debug)]
pub struct Band {
    /// The mark at the centre.
    pub centre_r: i64,
    /// The innermost orbit.
    pub r_min: i64,
    /// The outermost measured orbit.
    pub r_meas: i64,
    /// The rim.
    pub r_rim: i64,
}

/// The radii of a sky in that half-extent, with a label of that height hanging
/// by `gap` under the centre.
pub open spec fn sky_band(avail: int, label: int, gap: int) -> Band {
    let c = avail * 16 / 100;
    let centre = if c < 900 {
        900
    } else if c > 1_500 {
        1_500
    } else {
        c
    };
    let room = if label < 0 {
        0
    } else {
        label
    };
    Band {
        centre_r: centre as i64,
        r_min: (centre + gap + room + star_size(3) + CENTRE_CLEARANCE) as i64,
        r_meas: (avail * 86 / 100) as i64,
        r_rim: (avail * 96 / 100) as i64,
    }
}

impl Band {
    /// The orbit at a fraction of the measured band, in ten-thousandths.
    pub open spec fn orbit(self, frac: int) -> int {
        let f = if frac > 10_000 {
            10_000
        } else {
            frac
        };
        self.r_min + f * (self.r_meas - self.r_min) / 10_000
    }

    /// The orbit at a fraction of the measured band, in ten-thousandths.
    pub fn radius_of_frac(&self, frac: u32) -> (r: i64)
        requires
            0 <= self.r_min <= self.r_meas <= 0x1_0000_0000,
        ensures
            r == self.orbit(frac as int),
            self.r_min <= r <= self.r_meas,
    {
        let f: i64 = if frac > 10_000 {
            10_000
        } else {
            frac as i64
        };
        let span: i64 = self.r_meas - self.r_min;
        proof {
            assert(0 <= f * span <= 10_000 * span) by (nonlinear_arith)
                requires
                    0 <= f <= 10_000,
                    0 <= span,
            ;
        }
        self.r_min + f * span / 10_000
    }
}

/// A longer round trip is never drawn closer in, and every measured orbit lies
/// between the innermost and the outermost.
pub proof fn law_farther_is_farther_out(band: Band, near: int, far: int)
    requires
        0 <= near <= far,
        0 <= band.r_min <= band.r_meas,
    ensures
        band.r_min <= band.orbit(near) <= band.orbit(far) <= band.r_meas,
{
    let span = band.r_meas - band.r_min;
    let f = if near > 10_000 {
        10_000
    } else {
        near
    };
    let g = if far > 10_000 {
        10_000
    } else {
        far
    };
    assert(0 <= f * span <= g * span <= 10_000 * span) by (nonlinear_arith)
        requires
            0 <= f <= g <= 10_000,
            0 <= span,
    ;
}

/// The radii of the sky, or `None` where there is no room for one: the extent
/// is too small, or the innermost orbit would not clear the centre's label.
pub fn band_for(avail: Option<i32>, label_h: Option<i32>, gap: i32) -> (r: Option<Band>)
    ensures
        r == (match (avail, label_h) {
            (Some(a), Some(l)) => {
                let band = sky_band(a as int, l as int, gap as int);
                if a < MIN_SKY_R || band.r_min >= band.r_meas {
                    None
                } else {
                    Some(band)
                }
            },
            _ => None,
        }),
{
    match (avail, label_h) {
        (Some(a), Some(l)) => {
            if a < MIN_SKY_R {
                return None;
            }
            let wide: i64 = a as i64;
            let c: i64 = wide * 16 / 100;
            let centre_r: i64 = if c < 900 {
                900
            } else if c > 1_500 {
                1_500
            } else {
                c
            };
            let room: i64 = if l < 0 {
                0
            } else {
                l as i64
            };
            let r_min: i64 = centre_r + gap as i64 + room + star_radius(3) as i64
                + CENTRE_CLEARANCE as i64;
            let r_meas: i64 = wide * 86 / 100;
            if r_min >= r_meas {
                None
            } else {
                Some(Band { centre_r, r_min, r_meas, r_rim: wide * 96 / 100 })
            }
        },
        _ => None,
    }
}

/// The innermost orbit clears the centre and the label under it, for a star of
/// any size; and the orbits stand in order from the centre out.
pub proof fn law_the_innermost_orbit_clears_the_label(a: i32, l: i32, gap: i32, lit: nat)
    requires
        gap >= 0,
        a >= MIN_SKY_R,
        sky_band(a as int, l as int, gap as int).r_min < sky_band(
            a as int,
            l as int,
            gap as int,
        ).r_meas,
    ensures
        ({
            let band = sky_band(a as int, l as int, gap as int);
            &&& band.r_min - star_size(lit) > band.centre_r + l
            &&& band.centre_r < band.r_min < band.r_meas < band.r_rim
        }),
{
}

// ---------------------------------------------------------------------------
// Labels
// ---------------------------------------------------------------------------

/// The name under a star.
pub open spec fn elided(name: Chars) -> Chars {
    if name.len() <= LABEL_MAX_CHARS {
        name
    } else {
        name.take(LABEL_MAX_CHARS - 1) + "…"@
    }
}

/// A name that is too long keeps its head and gains an ellipsis.
pub fn elide(name: &str) -> (r: String)
    ensures
        r@ == elided(name@),
{
    if name.unicode_len() <= LABEL_MAX_CHARS {
        name.to_owned()
    } else {
        let head: &str = name.substring_char(0, LABEL_MAX_CHARS - 1);
        proof {
            assert(head@ =~= name@.take(LABEL_MAX_CHARS - 1));
        }
        let mut r: String = head.to_owned();
        r.append("…");
        r
    }
}

/// A label is never longer than the longest allowed, and eliding it again
/// changes nothing.
pub proof fn law_elided_fits(name: Chars)
    ensures
        elided(name).len() <= LABEL_MAX_CHARS,
        elided(elided(name)) == elided(name),
{
    reveal_strlit("…");
}

/// The line under a star's name: its round trip, a dash for none, and never a
/// round trip for a star that is not connected.
pub open spec fn sub_line(s: Star<'_>) -> Chars {
    if s.online {
        match s.rtt_ms {
            Some(ms) => text::dec(ms as nat) + " ms"@,
            None => "—"@,
        }
    } else {
        STAR_OFFLINE@
    }
}

/// The line under a star's name.
pub fn sub_text(s: &Star<'_>) -> (r: String)
    ensures
        r@ == sub_line(*s),
{
    if s.online {
        match s.rtt_ms {
            Some(ms) => {
                let mut r: String = decimal(ms as u64);
                r.append(" ms");
                r
            },
            None => "—".to_owned(),
        }
    } else {
        STAR_OFFLINE.to_owned()
    }
}

/// The caption for the stars that are left out.
pub fn overflow_caption(overflow: usize) -> (r: String)
    ensures
        r@ == "+ "@ + text::dec(overflow as nat) + " more"@,
{
    let mut r: String = "+ ".to_owned();
    r.append(decimal(overflow as u64).as_str());
    r.append(" more");
    r
}

/// A block of label on the canvas.
#[derive(Clone, Copy, Debug)]
pub struct Block {
    /// The left edge.
    pub left: i32,
    /// The top edge.
    pub top: i32,
    /// The right edge.
    pub right: i32,
    /// The bottom edge.
    pub bottom: i32,
}

/// Whether two blocks come within the clearance of each other.
pub open spec fn collide(a: Block, b: Block) -> bool {
    &&& a.left <= b.right + LABEL_PAD
    &&& b.left <= a.right + LABEL_PAD
    &&& a.top <= b.bottom + LABEL_PAD
    &&& b.top <= a.bottom + LABEL_PAD
}

fn blocks_collide(a: &Block, b: &Block) -> (r: bool)
    ensures
        r == collide(*a, *b),
{
    let pad: i64 = LABEL_PAD as i64;
    a.left as i64 <= b.right as i64 + pad && b.left as i64 <= a.right as i64 + pad && a.top as i64
        <= b.bottom as i64 + pad && b.top as i64 <= a.bottom as i64 + pad
}

/// `block` collides with none of the first `n` blocks that are drawn.
pub open spec fn is_clear(
    kept: Seq<bool>,
    blocks: Seq<Option<Block>>,
    n: int,
    block: Block,
) -> bool {
    forall|j: int| 0 <= j < n && #[trigger] kept[j] ==> !collide(blocks[j]->0, block)
}

/// `kept[i]` says that block `i` is drawn: it has a place on the canvas, and it
/// is one of the first `preaccepted` or collides with no block drawn before it.
pub open spec fn is_kept(
    kept: Seq<bool>,
    blocks: Seq<Option<Block>>,
    preaccepted: int,
    i: int,
) -> bool {
    kept[i] == (blocks[i] is Some && (i < preaccepted || is_clear(kept, blocks, i, blocks[i]->0)))
}

/// Whether the block at `i` collides with none of the drawn ones before it.
fn clear_so_far(kept: &Vec<bool>, blocks: &[Option<Block>], block: &Block) -> (r: bool)
    requires
        kept@.len() <= blocks@.len(),
        forall|k: int| 0 <= k < kept@.len() && #[trigger] kept@[k] ==> blocks@[k] is Some,
    ensures
        r == is_clear(kept@, blocks@, kept@.len() as int, *block),
{
    let mut j: usize = 0;
    while j < kept.len()
        invariant
            j <= kept.len() <= blocks@.len(),
            forall|k: int| 0 <= k < kept@.len() && #[trigger] kept@[k] ==> blocks@[k] is Some,
            is_clear(kept@, blocks@, j as int, *block),
        decreases kept.len() - j,
    {
        if kept[j] {
            match &blocks[j] {
                Some(other) => {
                    if blocks_collide(other, block) {
                        return false;
                    }
                },
                None => {},
            }
        }
        j = j + 1;
    }
    true
}

/// Which labels are drawn, in order of priority. The first `preaccepted` always
/// are, and still stand in the way of the others; `None`, a block without a
/// place on the canvas, never is.
pub fn accept_labels(blocks: &[Option<Block>], preaccepted: usize) -> (kept: Vec<bool>)
    ensures
        kept@.len() == blocks@.len(),
        forall|i: int|
            #![trigger kept@[i]]
            0 <= i < kept@.len() ==> is_kept(kept@, blocks@, preaccepted as int, i),
{
    let mut kept: Vec<bool> = Vec::new();
    let mut i: usize = 0;
    while i < blocks.len()
        invariant
            i <= blocks@.len(),
            kept@.len() == i,
            forall|k: int|
                #![trigger kept@[k]]
                0 <= k < i ==> is_kept(kept@, blocks@, preaccepted as int, k),
        decreases blocks@.len() - i,
    {
        let ghost before = kept@;
        let free: bool = match &blocks[i] {
            None => false,
            Some(block) => i < preaccepted || clear_so_far(&kept, blocks, block),
        };
        kept.push(free);
        proof {
            assert forall|k: int|
                #![trigger kept@[k]]
                0 <= k < i + 1 implies is_kept(kept@, blocks@, preaccepted as int, k) by {
                if k < i {
                    assert(is_kept(before, blocks@, preaccepted as int, k));
                    assert(before[k] == kept@[k]);
                }
                if blocks@[k] is Some {
                    lemma_clear_extends(before, kept@, blocks@, k, blocks@[k]->0);
                }
            }
        }
        i = i + 1;
    }
    kept
}

proof fn lemma_clear_extends(
    a: Seq<bool>,
    b: Seq<bool>,
    blocks: Seq<Option<Block>>,
    n: int,
    block: Block,
)
    requires
        forall|j: int| 0 <= j < n ==> a[j] == b[j],
    ensures
        is_clear(a, blocks, n, block) == is_clear(b, blocks, n, block),
{
    if is_clear(a, blocks, n, block) {
        assert forall|j: int| 0 <= j < n && #[trigger] b[j] implies !collide(
            blocks[j]->0,
            block,
        ) by {
            assert(a[j]);
        }
    }
    if is_clear(b, blocks, n, block) {
        assert forall|j: int| 0 <= j < n && #[trigger] a[j] implies !collide(
            blocks[j]->0,
            block,
        ) by {
            assert(b[j]);
        }
    }
}

/// Of two labels that collide, the later one is never drawn beside the earlier
/// one unless it is among those that always are.
pub proof fn law_drawn_labels_do_not_collide(
    kept: Seq<bool>,
    blocks: Seq<Option<Block>>,
    preaccepted: int,
    i: int,
    j: int,
)
    requires
        0 <= j < i < kept.len(),
        kept.len() == blocks.len(),
        is_kept(kept, blocks, preaccepted, i),
        preaccepted <= i,
        kept[i],
        kept[j],
    ensures
        !collide(blocks[j]->0, blocks[i]->0),
{
}

/// The point lies on the block once the block is grown by `pad` on every side.
pub open spec fn covers(b: Block, pad: int, x: int, y: int) -> bool {
    &&& b.left - pad <= x <= b.right + pad
    &&& b.top - pad <= y <= b.bottom + pad
}

/// Two labels are in each other's way exactly where some point lies on one of
/// them and on the other grown by two points on every side.
pub proof fn law_labels_conflict_where_they_meet(a: Block, b: Block)
    requires
        a.left <= a.right,
        a.top <= a.bottom,
        b.left <= b.right,
        b.top <= b.bottom,
    ensures
        collide(a, b) <==> exists|x: int, y: int| #[trigger]
            covers(a, 200, x, y) && covers(b, 0, x, y),
        collide(a, b) == collide(b, a),
{
    if collide(a, b) {
        let x = if a.left - 200 < b.left {
            b.left as int
        } else {
            a.left - 200
        };
        let y = if a.top - 200 < b.top {
            b.top as int
        } else {
            a.top - 200
        };
        assert(covers(a, 200, x, y) && covers(b, 0, x, y));
    }
}

/// A label gives way only to one drawn before it that comes within two points
/// of it: one that stands clear of every label drawn before it, to one side or
/// above or below, is drawn, and so is every one of the first `preaccepted`.
pub proof fn law_a_clear_label_is_drawn(
    kept: Seq<bool>,
    blocks: Seq<Option<Block>>,
    preaccepted: int,
    i: int,
)
    requires
        0 <= i < kept.len(),
        kept.len() == blocks.len(),
        is_kept(kept, blocks, preaccepted, i),
        blocks[i] is Some,
        i < preaccepted || forall|j: int|
            0 <= j < i && #[trigger] kept[j] ==> {
                ||| blocks[j]->0.bottom + 200 < blocks[i]->0.top
                ||| blocks[i]->0.bottom + 200 < blocks[j]->0.top
                ||| blocks[j]->0.right + 200 < blocks[i]->0.left
                ||| blocks[i]->0.right + 200 < blocks[j]->0.left
            },
    ensures
        kept[i],
{
}

/// A label that is not drawn has no place on the canvas, or one drawn before it
/// shares a point with it once grown by two points.
pub proof fn law_a_dropped_label_is_in_the_way(
    kept: Seq<bool>,
    blocks: Seq<Option<Block>>,
    preaccepted: int,
    i: int,
)
    requires
        0 <= i < kept.len(),
        kept.len() == blocks.len(),
        is_kept(kept, blocks, preaccepted, i),
        !kept[i],
        blocks[i] is Some,
        forall|j: int|
            0 <= j <= i && (#[trigger] blocks[j]) is Some ==> blocks[j]->0.left <= blocks[j]->0.right
                && blocks[j]->0.top <= blocks[j]->0.bottom,
        forall|j: int| 0 <= j < i && #[trigger] kept[j] ==> blocks[j] is Some,
    ensures
        i >= preaccepted,
        exists|j: int, x: int, y: int|
            0 <= j < i && kept[j] && #[trigger] covers(blocks[j]->0, 200, x, y) && covers(
                blocks[i]->0,
                0,
                x,
                y,
            ),
{
    let j = choose|j: int| 0 <= j < i && #[trigger] kept[j] && collide(blocks[j]->0, blocks[i]->0);
    assert(blocks[j] is Some);
    law_labels_conflict_where_they_meet(blocks[j]->0, blocks[i]->0);
    let (x, y) = choose|x: int, y: int| #[trigger]
        covers(blocks[j]->0, 200, x, y) && covers(blocks[i]->0, 0, x, y);
    assert(0 <= j < i && kept[j] && covers(blocks[j]->0, 200, x, y));
}

/// No two drawn labels share a point once one of them is grown by two points,
/// the first `preaccepted` aside.
pub proof fn law_drawn_labels_share_no_point(
    kept: Seq<bool>,
    blocks: Seq<Option<Block>>,
    preaccepted: int,
    i: int,
    j: int,
    x: int,
    y: int,
)
    requires
        0 <= j < i < kept.len(),
        kept.len() == blocks.len(),
        is_kept(kept, blocks, preaccepted, i),
        preaccepted <= i,
        kept[i],
        kept[j],
    ensures
        blocks[i] is Some,
        !(covers(blocks[j]->0, 200, x, y) && covers(blocks[i]->0, 0, x, y)),
{
    assert(!collide(blocks[j]->0, blocks[i]->0));
}

// ---------------------------------------------------------------------------
// The pointer
// ---------------------------------------------------------------------------

/// A star as the pointer meets it.
#[derive(Clone, Copy, Debug)]
pub struct Target {
    /// How far right of the centre it is drawn.
    pub dx: i32,
    /// How far below the centre it is drawn.
    pub dy: i32,
    /// Its radius.
    pub star_r: i32,
    /// False while it is still hidden.
    pub shown: bool,
}

/// The square of the distance between a target and a point.
pub open spec fn distance2(t: Target, px: int, py: int) -> int {
    (px - t.dx) * (px - t.dx) + (py - t.dy) * (py - t.dy)
}

/// Whether the point is within reach of the target.
pub open spec fn in_reach(t: Target, px: int, py: int) -> bool {
    t.shown && distance2(t, px, py) <= reach(t.star_r as int) * reach(t.star_r as int)
}

/// The nearest target within reach of the point; of two equally near ones the
/// first.
pub open spec fn is_hit(r: Option<usize>, ts: Seq<Target>, px: int, py: int) -> bool {
    match r {
        Some(s) => {
            &&& s < ts.len()
            &&& in_reach(ts[s as int], px, py)
            &&& forall|k: int|
                0 <= k < ts.len() && in_reach(#[trigger] ts[k], px, py) ==> {
                    ||| distance2(ts[s as int], px, py) < distance2(ts[k], px, py)
                    ||| distance2(ts[s as int], px, py) == distance2(ts[k], px, py) && s <= k
                }
        },
        None => forall|k: int| 0 <= k < ts.len() ==> !in_reach(#[trigger] ts[k], px, py),
    }
}

fn square(n: i64) -> (r: i128)
    requires
        -0x2_0000_0000 <= n <= 0x2_0000_0000,
    ensures
        r == n * n,
        0 <= r <= 0x4_0000_0000_0000_0000,
{
    proof {
        assert(0 <= n * n <= 0x4_0000_0000_0000_0000) by (nonlinear_arith)
            requires
                -0x2_0000_0000 <= n <= 0x2_0000_0000,
        ;
    }
    n as i128 * n as i128
}

/// The star under the pointer.
pub fn hit_at(ts: &[Target], px: i32, py: i32) -> (r: Option<usize>)
    ensures
        is_hit(r, ts@, px as int, py as int),
{
    let mut best: Option<usize> = None;
    let mut best_d: i128 = 0;
    let mut i: usize = 0;
    while i < ts.len()
        invariant
            i <= ts@.len(),
            is_hit(best, ts@.take(i as int), px as int, py as int),
            best is Some ==> best_d == distance2(ts@[best->0 as int], px as int, py as int),
        decreases ts@.len() - i,
    {
        let t: Target = ts[i];
        let d: i128 = square(px as i64 - t.dx as i64) + square(py as i64 - t.dy as i64);
        let near: bool = t.shown && d <= square(hit_radius(t.star_r));
        let better: bool = match best {
            Some(_) => d < best_d,
            None => true,
        };
        proof {
            assert(ts@.take(i + 1) =~= ts@.take(i as int).push(t));
            assert(d == distance2(t, px as int, py as int));
            assert(near == in_reach(t, px as int, py as int));
            let prev = ts@.take(i as int);
            let next = ts@.take(i + 1);
            assert(forall|k: int| 0 <= k < i ==> next[k] == prev[k]);
            assert(next[i as int] == t);
        }
        if near && better {
            best = Some(i);
            best_d = d;
        }
        i = i + 1;
    }
    proof {
        assert(ts@.take(i as int) =~= ts@);
    }
    best
}

// ---------------------------------------------------------------------------
// The keyboard
// ---------------------------------------------------------------------------

/// Where the cursor lands: `None` is the figure as a whole. A place from a sky
/// that has since shrunk is brought to its end first. Neither end wraps.
pub open spec fn cursor_after(
    held: Option<usize>,
    slots: usize,
    fwd: bool,
    back: bool,
    first: bool,
    last: bool,
) -> Option<usize> {
    if slots == 0 {
        None
    } else {
        let end = (slots - 1) as usize;
        let at = match held {
            Some(s) => Some(
                if s > end {
                    end
                } else {
                    s
                },
            ),
            None => None,
        };
        if first {
            Some(0usize)
        } else if last {
            Some(end)
        } else if fwd {
            match at {
                Some(s) => Some(
                    if s >= end {
                        end
                    } else {
                        (s + 1) as usize
                    },
                ),
                None => Some(0usize),
            }
        } else if back {
            match at {
                Some(s) => if s == 0 {
                    None
                } else {
                    Some((s - 1) as usize)
                },
                None => None,
            }
        } else {
            at
        }
    }
}

/// Where the cursor lands after the keys of one frame.
pub fn step_cursor(
    held: Option<usize>,
    slots: usize,
    fwd: bool,
    back: bool,
    first: bool,
    last: bool,
) -> (r: Option<usize>)
    ensures
        r == cursor_after(held, slots, fwd, back, first, last),
{
    if slots == 0 {
        return None;
    }
    let end: usize = slots - 1;
    let at: Option<usize> = match held {
        Some(s) => Some(
            if s > end {
                end
            } else {
                s
            },
        ),
        None => None,
    };
    if first {
        return Some(0);
    }
    if last {
        return Some(end);
    }
    if fwd {
        return match at {
            Some(s) => Some(
                if s >= end {
                    end
                } else {
                    s + 1
                },
            ),
            None => Some(0),
        };
    }
    if back {
        return match at {
            Some(s) => if s == 0 {
                None
            } else {
                Some(s - 1)
            },
            None => None,
        };
    }
    at
}

/// The cursor of the sky after one frame: it does not outlive the focus that
/// made it.
pub fn star_cursor(
    focused: bool,
    held: Option<usize>,
    slots: usize,
    fwd: bool,
    back: bool,
    first: bool,
    last: bool,
) -> (r: Option<usize>)
    ensures
        r == (if focused {
            cursor_after(held, slots, fwd, back, first, last)
        } else {
            None
        }),
{
    if slots == 0 || !focused {
        None
    } else {
        step_cursor(held, slots, fwd, back, first, last)
    }
}

/// The cursor is always on a star that exists, or on the figure as a whole.
pub proof fn law_the_cursor_stays_in_the_sky(
    held: Option<usize>,
    slots: usize,
    fwd: bool,
    back: bool,
    first: bool,
    last: bool,
)
    ensures
        cursor_after(held, slots, fwd, back, first, last) is Some ==> cursor_after(
            held,
            slots,
            fwd,
            back,
            first,
            last,
        )->0 < slots,
{
}

/// A step forward and a step back return to where the cursor was, except at the
/// far end, where the step forward stays.
pub proof fn law_cursor_steps_come_back(held: Option<usize>, slots: usize)
    requires
        slots > 0,
        held is Some ==> held->0 < slots - 1,
    ensures
        cursor_after(
            cursor_after(held, slots, true, false, false, false),
            slots,
            false,
            true,
            false,
            false,
        ) == held,
{
}

// ---------------------------------------------------------------------------
// What the sky says
// ---------------------------------------------------------------------------

/// What a star is called: its name, or else its id, or else a word.
pub open spec fn star_name(s: Star<'_>) -> Chars {
    if text::trimmed(s.name@).len() > 0 {
        text::trimmed(s.name@)
    } else if text::trimmed(s.id@).len() > 0 {
        text::trimmed(s.id@)
    } else {
        STAR_UNNAMED@
    }
}

/// One star in words: who it is, by what path, and how far. A star that is not
/// connected has its name and "offline" and nothing else.
pub open spec fn star_text(s: Star<'_>) -> Chars {
    if !s.online {
        star_name(s) + " "@ + STAR_OFFLINE@
    } else {
        star_name(s) + " "@ + (if s.relayed {
            PATH_RELAYED@
        } else {
            PATH_DIRECT@
        }) + " "@ + match s.rtt_ms {
            Some(ms) => a11y::spoken_ms_text(ms as nat),
            None => RTT_UNMEASURED@,
        }
    }
}

/// One star in words.
pub fn star_phrase(star: &Star<'_>) -> (r: String)
    ensures
        r@ == star_text(*star),
{
    let name: &str = trim(star.name);
    let id: &str = trim(star.id);
    let mut r: String = if !name.is_empty() {
        name.to_owned()
    } else if !id.is_empty() {
        id.to_owned()
    } else {
        STAR_UNNAMED.to_owned()
    };
    r.append(" ");
    if !star.online {
        r.append(STAR_OFFLINE);
        return r;
    }
    if star.relayed {
        r.append(PATH_RELAYED);
    } else {
        r.append(PATH_DIRECT);
    }
    r.append(" ");
    match star.rtt_ms {
        Some(ms) => r.append(spoken_ms(ms as u64).as_str()),
        None => r.append(RTT_UNMEASURED),
    }
    r
}

/// What is said of an offline star does not depend on its round trip, its path
/// or its grade.
pub proof fn law_an_offline_star_tells_no_distance(a: Star<'_>, b: Star<'_>)
    requires
        !a.online,
        !b.online,
        a.id@ == b.id@,
        a.name@ == b.name@,
    ensures
        star_text(a) == star_text(b),
        sub_line(a) == sub_line(b),
{
}

/// The phrases of the drawn stars, and behind them how many are left out.
pub open spec fn sky_parts(stars: Seq<Star<'_>>, shown: Seq<usize>) -> Seq<Chars> {
    let phrases = Seq::new(shown.len(), |i: int| star_text(stars[shown[i] as int]));
    if stars.len() > MAX_STARS {
        phrases.push(text::dec((stars.len() - MAX_STARS) as nat) + " more not drawn"@)
    } else {
        phrases
    }
}

/// The lead of the sky's sentence.
pub open spec fn sky_lead(n: nat) -> Chars {
    SKY_LEAD@ + ", "@ + text::dec(n) + (if n == 1 {
        " peer"@
    } else {
        " peers"@
    })
}

/// `said` is the sky in one sentence: how many peers it holds, then every star
/// it draws, in the order in which it draws them.
pub open spec fn is_sky_sentence(said: Chars, stars: Seq<Star<'_>>) -> bool {
    if stars.len() == 0 {
        said == a11y::sentence_of(SKY_LEAD@, seq![SKY_EMPTY@])
    } else {
        exists|shown: Seq<usize>|
            is_star_order(shown, stars) && said == a11y::sentence_of(
                sky_lead(stars.len()),
                sky_parts(stars, shown),
            )
    }
}

/// The whole sky in one sentence.
pub fn sky_sentence(stars: &[Star<'_>]) -> (r: String)
    ensures
        is_sky_sentence(r@, stars@),
{
    let mut parts: Vec<String> = Vec::new();
    if stars.len() == 0 {
        parts.push(SKY_EMPTY.to_owned());
        proof {
            assert(a11y::all_said(parts@) =~= seq![SKY_EMPTY@]);
        }
        return sentence(SKY_LEAD, parts.as_slice());
    }
    let (shown, overflow): (Vec<usize>, usize) = order_stars(stars);
    let mut i: usize = 0;
    while i < shown.len()
        invariant
            i <= shown.len(),
            parts.len() == i,
            forall|j: int| 0 <= j < shown@.len() ==> (#[trigger] shown@[j]) < stars@.len(),
            forall|j: int|
                0 <= j < i ==> (#[trigger] parts@[j])@ == star_text(stars@[shown@[j] as int]),
        decreases shown.len() - i,
    {
        parts.push(star_phrase(&stars[shown[i]]));
        i = i + 1;
    }
    if overflow > 0 {
        let mut more: String = decimal(overflow as u64);
        more.append(" more not drawn");
        parts.push(more);
    }
    let n: usize = stars.len();
    let mut lead: String = SKY_LEAD.to_owned();
    lead.append(", ");
    lead.append(decimal(n as u64).as_str());
    if n == 1 {
        lead.append(" peer");
    } else {
        lead.append(" peers");
    }
    proof {
        assert(a11y::all_said(parts@) =~= sky_parts(stars@, shown@));
    }
    sentence(lead.as_str(), parts.as_slice())
}

/// What the figure announces: the star under the cursor, or else the whole sky.
/// `shown` are the stars that are drawn; none are where there is no room.
pub fn announced(stars: &[Star<'_>], shown: &[PlacedGeo], cursor: Option<usize>) -> (r: String)
    requires
        forall|i: int| 0 <= i < shown@.len() ==> (#[trigger] shown@[i]).idx < stars@.len(),
    ensures
        match cursor {
            Some(slot) => if slot < shown@.len() {
                r@ == star_text(stars@[shown@[slot as int].idx as int])
            } else {
                is_sky_sentence(r@, stars@)
            },
            None => is_sky_sentence(r@, stars@),
        },
{
    match cursor {
        Some(slot) => {
            if slot < shown.len() {
                return star_phrase(&stars[shown[slot].idx]);
            }
        },
        None => {},
    }
    sky_sentence(stars)
}

/// The star that the figure reports as pointed at: the one under the pointer,
/// or else the one under the cursor.
pub fn pointed_at(
    shown: &[PlacedGeo],
    hovered: Option<usize>,
    cursor: Option<usize>,
) -> (r: Option<usize>)
    ensures
        ({
            let slot = if hovered is Some {
                hovered
            } else {
                cursor
            };
            r == match slot {
                Some(s) => if s < shown@.len() {
                    Some(shown@[s as int].idx)
                } else {
                    None
                },
                None => None,
            }
        }),
{
    let slot: Option<usize> = match hovered {
        Some(s) => Some(s),
        None => cursor,
    };
    match slot {
        Some(s) => if s < shown.len() {
            Some(shown[s].idx)
        } else {
            None
        },
        None => None,
    }
}

/// How the thread to a star is drawn.
#[derive(Clone, Copy, PartialEq, Eq, Debug, Structural)]
pub enum Thread {
    /// A woven band: a direct path.
    Taut,
    /// A dotted line with a knot: a path over a relay.
    Broken,
    /// None: the star is not connected.
    Absent,
}

/// How the thread to a star is drawn.
pub fn thread_of(s: &Star<'_>) -> (r: Thread)
    ensures
        r == (if !s.online {
            Thread::Absent
        } else if s.relayed {
            Thread::Broken
        } else {
            Thread::Taut
        }),
{
    if !s.online {
        Thread::Absent
    } else if s.relayed {
        Thread::Broken
    } else {
        Thread::Taut
    }
}

// ---------------------------------------------------------------------------
// Setting the labels
// ---------------------------------------------------------------------------

/// The farthest a length on the canvas may lie from its origin: far beyond any
/// screen.
pub const CANVAS_FAR: i32 = 100_000_000;

/// The size of a piece of label.
#[derive(Clone, Copy, PartialEq, Eq, Debug, Structural)]
pub struct Extent {
    /// Its width.
    pub w: i32,
    /// Its height.
    pub h: i32,
}

/// Where the label of a star stands.
#[derive(Clone, Copy, Debug)]
pub struct LabelAt {
    /// The block it takes.
    pub block: Block,
    /// The left edge of the name.
    pub name_x: i64,
    /// The left edge of the line under the name.
    pub sub_x: i64,
    /// The top edge of the line under the name.
    pub sub_y: i64,
}

/// The width of a label of two lines.
pub open spec fn label_w(name: Extent, sub: Extent) -> int {
    if name.w < sub.w {
        sub.w as int
    } else {
        name.w as int
    }
}

/// The height of a label of two lines.
pub open spec fn label_h_of(name: Extent, sub: Extent) -> int {
    name.h + 100 + sub.h
}

/// The top edge of a label: under its star, or above it where it would run off
/// the foot of the canvas.
pub open spec fn label_top(sky: Block, y: int, star_r: int, h: int) -> int {
    if y + star_r + 400 + h > sky.bottom - 200 {
        y - star_r - 400 - h
    } else {
        y + star_r + 400
    }
}

/// The middle of a label: that of its star, held inside the canvas.
pub open spec fn label_mid(sky: Block, x: int, half: int) -> int {
    if sky.right - sky.left > 2 * half {
        if x < sky.left + half {
            sky.left + half
        } else if x > sky.right - half {
            sky.right - half
        } else {
            x
        }
    } else {
        x
    }
}

/// Whether every edge of the canvas, and a place on it, lies within reach.
pub open spec fn on_canvas(sky: Block, x: int, y: int) -> bool {
    &&& -CANVAS_FAR <= sky.left <= CANVAS_FAR
    &&& -CANVAS_FAR <= sky.top <= CANVAS_FAR
    &&& -CANVAS_FAR <= sky.right <= CANVAS_FAR
    &&& -CANVAS_FAR <= sky.bottom <= CANVAS_FAR
    &&& -CANVAS_FAR <= x <= CANVAS_FAR
    &&& -CANVAS_FAR <= y <= CANVAS_FAR
}

/// Where the label of a star at that place stands: none where it is as wide as
/// the canvas.
pub fn label_at(sky: &Block, x: i32, y: i32, star_r: i32, name: Extent, sub: Extent) -> (r: Option<
    LabelAt,
>)
    requires
        on_canvas(*sky, x as int, y as int),
        0 <= star_r <= CANVAS_FAR,
        0 <= name.w <= CANVAS_FAR && 0 <= name.h <= CANVAS_FAR,
        0 <= sub.w <= CANVAS_FAR && 0 <= sub.h <= CANVAS_FAR,
    ensures
        r is None <==> label_w(name, sub) + 400 >= sky.right - sky.left,
        r is Some ==> {
            let w = label_w(name, sub);
            let mid = label_mid(*sky, x as int, w / 2 + 200);
            let top = label_top(*sky, y as int, star_r as int, label_h_of(name, sub));
            let at = r->0;
            &&& at.block.left == mid - w / 2
            &&& at.block.right == mid - w / 2 + w
            &&& at.block.top == top
            &&& at.block.bottom == top + label_h_of(name, sub)
            &&& at.name_x == mid - name.w as int / 2
            &&& at.sub_x == mid - sub.w as int / 2
            &&& at.sub_y == top + name.h + 100
        },
{
    let w: i32 = if name.w < sub.w {
        sub.w
    } else {
        name.w
    };
    let h: i32 = name.h + 100 + sub.h;
    if w + 400 >= sky.right - sky.left {
        return None;
    }
    let under: i32 = y + star_r + 400;
    let top: i32 = if under + h > sky.bottom - 200 {
        y - star_r - 400 - h
    } else {
        under
    };
    let half: i32 = w / 2 + 200;
    let mid: i32 = if sky.right - sky.left > 2 * half {
        if x < sky.left + half {
            sky.left + half
        } else if x > sky.right - half {
            sky.right - half
        } else {
            x
        }
    } else {
        x
    };
    let left: i32 = mid - w / 2;
    Some(
        LabelAt {
            block: Block { left, top, right: left + w, bottom: top + h },
            name_x: mid as i64 - (name.w / 2) as i64,
            sub_x: mid as i64 - (sub.w / 2) as i64,
            sub_y: top as i64 + name.h as i64 + 100,
        },
    )
}

/// A label stays between the sides of the canvas.
pub proof fn law_a_label_stays_between_the_sides(sky: Block, x: int, name: Extent, sub: Extent)
    requires
        label_w(name, sub) + 400 < sky.right - sky.left,
        name.w >= 0,
    ensures
        ({
            let w = label_w(name, sub);
            let left = label_mid(sky, x, w / 2 + 200) - w / 2;
            sky.left <= left && left + w <= sky.right
        }),
{
}

/// The blocks of a sky in order of priority: the centre's own label and the
/// count of what is not drawn, then the stars, and last the captions of the
/// rings.
pub open spec fn priority(
    you: Block,
    more: Option<Block>,
    labels: Seq<Block>,
    rings: Seq<Block>,
) -> Seq<Option<Block>> {
    let first = match more {
        Some(b) => seq![Some(you), Some(b)],
        None => seq![Some(you)],
    };
    first + labels.map_values(|b: Block| Some(b)) + rings.map_values(|b: Block| Some(b))
}

/// How many of them are always drawn.
pub open spec fn always(more: Option<Block>) -> int {
    if more is Some {
        2
    } else {
        1
    }
}

/// Which labels and captions of a sky are drawn: all the blocks in order of
/// priority, with the first one or two always drawn.
pub fn sky_labels(you: Block, more: Option<Block>, labels: &[Block], rings: &[Block]) -> (kept: Vec<
    bool,
>)
    requires
        labels@.len() + rings@.len() + 2 <= usize::MAX,
    ensures
        ({
            let blocks = priority(you, more, labels@, rings@);
            &&& kept@.len() == blocks.len()
            &&& forall|i: int|
                #![trigger kept@[i]]
                0 <= i < kept@.len() ==> is_kept(kept@, blocks, always(more), i)
        }),
{
    let mut blocks: Vec<Option<Block>> = Vec::new();
    blocks.push(Some(you));
    let mut pre: usize = 1;
    match more {
        Some(b) => {
            blocks.push(Some(b));
            pre = 2;
        },
        None => {},
    }
    let ghost first = blocks@;
    let mut i: usize = 0;
    while i < labels.len()
        invariant
            i <= labels@.len(),
            blocks@ =~= first + labels@.take(i as int).map_values(|b: Block| Some(b)),
        decreases labels@.len() - i,
    {
        blocks.push(Some(labels[i]));
        i = i + 1;
    }
    proof {
        assert(labels@.take(i as int) =~= labels@);
    }
    let ghost second = blocks@;
    let mut j: usize = 0;
    while j < rings.len()
        invariant
            j <= rings@.len(),
            blocks@ =~= second + rings@.take(j as int).map_values(|b: Block| Some(b)),
        decreases rings@.len() - j,
    {
        blocks.push(Some(rings[j]));
        j = j + 1;
    }
    proof {
        assert(rings@.take(j as int) =~= rings@);
        assert(blocks@ =~= priority(you, more, labels@, rings@));
    }
    accept_labels(blocks.as_slice(), pre)
}

/// A star that may carry a label: where it is drawn, how far it is revealed in
/// ten-thousandths, and the sizes of its two lines.
#[derive(Clone, Copy, Debug)]
pub struct Named {
    /// From the left of the canvas.
    pub x: i32,
    /// From the top of the canvas.
    pub y: i32,
    /// Its radius.
    pub star_r: i32,
    /// How far it is revealed.
    pub local: u32,
    /// The size of its name.
    pub name: Extent,
    /// The size of the line under it.
    pub sub: Extent,
}

/// How far a star is revealed before its label is set.
pub const LABEL_FROM: u32 = 1_500;

/// Whether everything about a star lies within reach.
pub open spec fn can_be_named(canvas: Block, n: Named) -> bool {
    &&& on_canvas(canvas, n.x as int, n.y as int)
    &&& 0 <= n.star_r <= CANVAS_FAR
    &&& 0 <= n.name.w <= CANVAS_FAR && 0 <= n.name.h <= CANVAS_FAR
    &&& 0 <= n.sub.w <= CANVAS_FAR && 0 <= n.sub.h <= CANVAS_FAR
}

/// Whether a label is set for a star at all: it is revealed far enough, and its
/// label is narrower than the canvas.
pub open spec fn labelled(canvas: Block, n: Named) -> bool {
    n.local > LABEL_FROM && label_w(n.name, n.sub) + 400 < canvas.right - canvas.left
}

/// The block that the label of a star takes.
pub open spec fn label_block(canvas: Block, n: Named) -> Block {
    let w = label_w(n.name, n.sub);
    let left = label_mid(canvas, n.x as int, w / 2 + 200) - w / 2;
    let top = label_top(canvas, n.y as int, n.star_r as int, label_h_of(n.name, n.sub));
    Block {
        left: left as i32,
        top: top as i32,
        right: (left + w) as i32,
        bottom: (top + label_h_of(n.name, n.sub)) as i32,
    }
}

/// The blocks of the labels that are set, in the order of their stars.
pub open spec fn laid(canvas: Block, named: Seq<Named>) -> Seq<Block>
    decreases named.len(),
{
    if named.len() == 0 {
        Seq::empty()
    } else if labelled(canvas, named.last()) {
        laid(canvas, named.drop_last()).push(label_block(canvas, named.last()))
    } else {
        laid(canvas, named.drop_last())
    }
}

/// Whether those are the choices made over the blocks of a sky.
pub open spec fn is_choice(
    kept: Seq<bool>,
    you: Block,
    more: Option<Block>,
    labels: Seq<Block>,
    rings: Seq<Block>,
) -> bool {
    let blocks = priority(you, more, labels, rings);
    &&& kept.len() == blocks.len()
    &&& forall|i: int|
        #![trigger kept[i]]
        0 <= i < kept.len() ==> is_kept(kept, blocks, always(more), i)
}

/// Whether that is the label of a star.
pub open spec fn is_label(at: LabelAt, canvas: Block, n: Named) -> bool {
    let w = label_w(n.name, n.sub);
    let mid = label_mid(canvas, n.x as int, w / 2 + 200);
    &&& at.block == label_block(canvas, n)
    &&& at.name_x == mid - n.name.w as int / 2
    &&& at.sub_x == mid - n.sub.w as int / 2
    &&& at.sub_y == at.block.top + n.name.h + 100
}

/// The labels of a sky that are drawn.
#[derive(Debug)]
pub struct SkyLabels {
    /// That of each star.
    pub stars: Vec<Option<LabelAt>>,
    /// Whether each ring keeps its caption.
    pub rings: Vec<bool>,
}

/// Sets the labels of a sky: every star that is revealed far enough lays one
/// out, and those that collide with an earlier block are dropped whole. The
/// captions of the rings yield to everything.
pub fn set_labels(
    canvas: &Block,
    you: Block,
    more: Option<Block>,
    named: &[Named],
    rings: &[Block],
) -> (r: SkyLabels)
    requires
        forall|i: int| 0 <= i < named@.len() ==> can_be_named(*canvas, #[trigger] named@[i]),
        named@.len() + rings@.len() + 2 <= usize::MAX,
    ensures
        r.stars@.len() == named@.len(),
        r.rings@.len() == rings@.len(),
        exists|kept: Seq<bool>|
            {
                &&& #[trigger] is_choice(kept, you, more, laid(*canvas, named@), rings@)
                &&& forall|i: int|
                    #![trigger r.stars@[i]]
                    0 <= i < named@.len() ==> {
                        let at = always(more) + laid(*canvas, named@.take(i)).len();
                        match r.stars@[i] {
                            Some(l) => {
                                &&& labelled(*canvas, named@[i])
                                &&& kept[at as int]
                                &&& is_label(l, *canvas, named@[i])
                            },
                            None => !labelled(*canvas, named@[i]) || !kept[at as int],
                        }
                    }
                &&& forall|j: int|
                    #![trigger r.rings@[j]]
                    0 <= j < rings@.len() ==> r.rings@[j] == kept[always(more) + laid(
                        *canvas,
                        named@,
                    ).len() + j]
            },
{
    let mut blocks: Vec<Block> = Vec::new();
    let mut set: Vec<Option<LabelAt>> = Vec::new();
    let mut i: usize = 0;
    while i < named.len()
        invariant
            i <= named@.len(),
            set@.len() == i,
            blocks@.len() <= i,
            blocks@ == laid(*canvas, named@.take(i as int)),
            forall|k: int|
                0 <= k < named@.len() ==> can_be_named(*canvas, #[trigger] named@[k]),
            forall|k: int|
                #![trigger set@[k]]
                0 <= k < i ==> match set@[k] {
                    Some(l) => labelled(*canvas, named@[k]) && is_label(l, *canvas, named@[k]),
                    None => !labelled(*canvas, named@[k]),
                },
        decreases named@.len() - i,
    {
        let n: Named = named[i];
        proof {
            assert(can_be_named(*canvas, named@[i as int]));
            assert(named@.take(i + 1).drop_last() =~= named@.take(i as int));
            assert(named@.take(i + 1).last() == n);
        }
        let at: Option<LabelAt> = if n.local > LABEL_FROM {
            label_at(canvas, n.x, n.y, n.star_r, n.name, n.sub)
        } else {
            None
        };
        match at {
            Some(l) => {
                proof {
                    assert(l.block == label_block(*canvas, n));
                }
                blocks.push(l.block);
            },
            None => {},
        }
        set.push(at);
        i = i + 1;
    }
    proof {
        assert(named@.take(i as int) =~= named@);
    }
    let kept: Vec<bool> = sky_labels(you, more, blocks.as_slice(), rings);
    let pre: usize = match more {
        Some(_) => 2,
        None => 1,
    };
    let ghost labels = laid(*canvas, named@);
    proof {
        assert(labels.len() == blocks@.len());
        assert(kept@.len() == pre + labels.len() + rings@.len());
    }
    let mut stars: Vec<Option<LabelAt>> = Vec::new();
    let mut slot: usize = pre;
    let mut k: usize = 0;
    while k < named.len()
        invariant
            k <= named@.len(),
            set@.len() == named@.len(),
            stars@.len() == k,
            pre == always(more),
            labels == laid(*canvas, named@),
            kept@.len() == pre + labels.len() + rings@.len(),
            kept@.len() <= usize::MAX,
            slot == pre + laid(*canvas, named@.take(k as int)).len(),
            forall|j: int|
                #![trigger set@[j]]
                0 <= j < named@.len() ==> match set@[j] {
                    Some(l) => labelled(*canvas, named@[j]) && is_label(l, *canvas, named@[j]),
                    None => !labelled(*canvas, named@[j]),
                },
            forall|j: int|
                #![trigger stars@[j]]
                0 <= j < k ==> {
                    let at = pre + laid(*canvas, named@.take(j)).len();
                    match stars@[j] {
                        Some(l) => {
                            &&& labelled(*canvas, named@[j])
                            &&& kept@[at as int]
                            &&& is_label(l, *canvas, named@[j])
                        },
                        None => !labelled(*canvas, named@[j]) || !kept@[at as int],
                    }
                },
        decreases named@.len() - k,
    {
        proof {
            assert(named@.take(k + 1).drop_last() =~= named@.take(k as int));
            assert(named@.take(k + 1).last() == named@[k as int]);
            lemma_laid_grows(*canvas, named@, k + 1);
        }
        match set[k] {
            Some(l) => {
                if kept[slot] {
                    stars.push(Some(l));
                } else {
                    stars.push(None);
                }
                slot = slot + 1;
            },
            None => {
                stars.push(None);
            },
        }
        k = k + 1;
    }
    proof {
        assert(named@.take(k as int) =~= named@);
    }
    let mut captions: Vec<bool> = Vec::new();
    let mut c: usize = 0;
    while c < rings.len()
        invariant
            c <= rings@.len(),
            captions@.len() == c,
            slot == pre + labels.len(),
            kept@.len() == pre + labels.len() + rings@.len(),
            kept@.len() <= usize::MAX,
            forall|j: int|
                #![trigger captions@[j]]
                0 <= j < c ==> captions@[j] == kept@[pre + labels.len() + j],
        decreases rings@.len() - c,
    {
        captions.push(kept[slot + c]);
        c = c + 1;
    }
    proof {
        assert(is_choice(kept@, you, more, labels, rings@));
    }
    SkyLabels { stars, rings: captions }
}

proof fn lemma_laid_grows(canvas: Block, named: Seq<Named>, n: int)
    requires
        0 <= n <= named.len(),
    ensures
        laid(canvas, named.take(n)).len() <= laid(canvas, named).len(),
    decreases named.len(),
{
    if n < named.len() {
        assert(named.drop_last().take(n) =~= named.take(n));
        lemma_laid_grows(canvas, named.drop_last(), n);
    } else {
        assert(named.take(n) =~= named);
    }
}

/// The choice over the blocks of a sky is one: no two differ anywhere.
pub proof fn law_the_labels_are_chosen_one_way(
    a: Seq<bool>,
    b: Seq<bool>,
    you: Block,
    more: Option<Block>,
    labels: Seq<Block>,
    rings: Seq<Block>,
)
    requires
        is_choice(a, you, more, labels, rings),
        is_choice(b, you, more, labels, rings),
    ensures
        a == b,
{
    lemma_choices_agree(a, b, priority(you, more, labels, rings), always(more), a.len() as int);
    assert(a =~= b);
}

proof fn lemma_choices_agree(
    a: Seq<bool>,
    b: Seq<bool>,
    blocks: Seq<Option<Block>>,
    pre: int,
    n: int,
)
    requires
        a.len() == blocks.len(),
        b.len() == blocks.len(),
        0 <= n <= a.len(),
        forall|i: int| #![trigger a[i]] 0 <= i < a.len() ==> is_kept(a, blocks, pre, i),
        forall|i: int| #![trigger b[i]] 0 <= i < b.len() ==> is_kept(b, blocks, pre, i),
    ensures
        forall|i: int| 0 <= i < n ==> a[i] == b[i],
    decreases n,
{
    if n > 0 {
        lemma_choices_agree(a, b, blocks, pre, n - 1);
        assert(is_kept(a, blocks, pre, n - 1));
        assert(is_kept(b, blocks, pre, n - 1));
    }
}

// ---------------------------------------------------------------------------
// One frame of the sky
// ---------------------------------------------------------------------------

/// The keys that walk the sky, as they were pressed in one frame.
#[derive(Clone, Copy, PartialEq, Eq, Debug, Structural)]
pub struct Walk {
    /// On to the next star.
    pub fwd: bool,
    /// Back to the one before.
    pub back: bool,
    /// To the first star.
    pub first: bool,
    /// To the last star.
    pub last: bool,
}

/// What one frame of the sky draws and says.
#[derive(Debug)]
pub struct Sky {
    /// Its radii; none where there is only room for the centre.
    pub band: Option<Band>,
    /// The stars it draws.
    pub placed: Vec<PlacedGeo>,
    /// How many stars it leaves out.
    pub overflow: usize,
    /// The star under the keyboard's cursor.
    pub cursor: Option<usize>,
    /// What it announces.
    pub spoken: String,
}

/// Whether there is room for a sky.
pub open spec fn has_room(avail: Option<i32>, label_h: Option<i32>, gap: int) -> bool {
    match (avail, label_h) {
        (Some(a), Some(l)) => {
            let band = sky_band(a as int, l as int, gap);
            a >= MIN_SKY_R && band.r_min < band.r_meas
        },
        _ => false,
    }
}

/// One frame of the sky: the stars are placed where there is room for them, the
/// cursor walks those that are drawn, and the figure says the star under the
/// cursor or the whole sky. A sky that is too small to draw still says what it
/// holds.
pub fn sky(
    stars: &[Star<'_>],
    avail: Option<i32>,
    label_h: Option<i32>,
    gap: i32,
    focused: bool,
    held: Option<usize>,
    walk: Walk,
) -> (r: Sky)
    ensures
        r.band is Some <==> has_room(avail, label_h, gap as int),
        r.band is Some ==> r.band == Some(
            sky_band((avail->0) as int, (label_h->0) as int, gap as int),
        ),
        r.band is None ==> r.placed@.len() == 0 && r.overflow == 0,
        r.band is Some ==> {
            &&& is_star_order(Seq::new(r.placed@.len(), |i: int| r.placed@[i].idx), stars@)
            &&& r.placed@.len() == drawn(stars@.len())
            &&& r.placed@.len() + r.overflow == stars@.len()
        },
        forall|i: int| 0 <= i < r.placed@.len() ==> is_placed(#[trigger] r.placed@[i], stars@),
        r.cursor == (if focused {
            cursor_after(
                held,
                r.placed@.len() as usize,
                walk.fwd,
                walk.back,
                walk.first,
                walk.last,
            )
        } else {
            None
        }),
        match r.cursor {
            Some(slot) => slot < r.placed@.len() && r.spoken@ == star_text(
                stars@[r.placed@[slot as int].idx as int],
            ),
            None => is_sky_sentence(r.spoken@, stars@),
        },
{
    let band: Option<Band> = band_for(avail, label_h, gap);
    let (placed, overflow): (Vec<PlacedGeo>, usize) = match band {
        Some(_) => place(stars),
        None => (Vec::new(), 0),
    };
    let cursor: Option<usize> = star_cursor(
        focused,
        held,
        placed.len(),
        walk.fwd,
        walk.back,
        walk.first,
        walk.last,
    );
    let spoken: String = announced(stars, placed.as_slice(), cursor);
    Sky { band, placed, overflow, cursor, spoken }
}

// ---------------------------------------------------------------------------
// The drawing on
// ---------------------------------------------------------------------------

/// How far the outermost star lags behind the innermost one, in ten-thousandths.
pub const STAGGER: i64 = 3_500;

/// The pace of the drawing, in ten-thousandths: fast at first.
pub open spec fn eased(t: int) -> int {
    10_000 - (10_000 - t) * (10_000 - t) / 10_000
}

/// The pace of the drawing at a time, both in ten-thousandths.
pub fn ease_out(t: u32) -> (r: u32)
    requires
        t <= 10_000,
    ensures
        r == eased(t as int),
        r <= 10_000,
{
    let left: u32 = 10_000 - t;
    proof {
        assert(0 <= left * left <= 10_000 * 10_000) by (nonlinear_arith)
            requires
                0 <= left <= 10_000,
        ;
    }
    10_000 - left * left / 10_000
}

/// How far a star is drawn when the sky is drawn that far: the inner stars come
/// first. All values are in ten-thousandths.
pub open spec fn star_ease(ease: int, frac: int) -> int {
    let f = if frac > 10_000 {
        10_000
    } else {
        frac
    };
    let v = (ease * (10_000 + STAGGER) - STAGGER * f) / 10_000;
    if v < 0 {
        0
    } else if v > 10_000 {
        10_000
    } else {
        v
    }
}

/// How far a star is drawn when the sky is drawn that far.
pub fn local_t(ease: u32, frac: u32) -> (r: u32)
    ensures
        r == star_ease(ease as int, frac as int),
        r <= 10_000,
{
    let f: i64 = if frac > 10_000 {
        10_000
    } else {
        frac as i64
    };
    let x: i64 = ease as i64 * 13_500 - 3_500 * f;
    if x < 0 {
        return 0;
    }
    let v: i64 = x / 10_000;
    if v > 10_000 {
        10_000
    } else {
        v as u32
    }
}

/// Every star is drawn by the end, none at the start, and a star is never drawn
/// further than one that is closer in.
pub proof fn law_inner_stars_come_first(ease: int, near: int, far: int)
    requires
        0 <= ease <= 10_000,
        0 <= near <= far,
    ensures
        star_ease(ease, far) <= star_ease(ease, near),
        star_ease(10_000, far) == 10_000,
        star_ease(0, near) == 0,
{
}

// ---------------------------------------------------------------------------
// What the sky promises
// ---------------------------------------------------------------------------

/// The sky draws its stars by class, and within a class by id: those that are
/// connected and measured first, then those connected without a reading, then
/// those that are not connected. It draws all of them up to twenty-four.
pub proof fn law_the_sky_draws_the_measured_first(
    shown: Seq<usize>,
    stars: Seq<Star<'_>>,
    i: int,
    j: int,
)
    requires
        is_star_order(shown, stars),
        0 <= i < j < shown.len(),
    ensures
        shown.len() == (if stars.len() < 24 {
            stars.len() as int
        } else {
            24
        }),
        ({
            let a = stars[shown[i] as int];
            let b = stars[shown[j] as int];
            &&& b.online ==> a.online
            &&& b.online && b.rtt_ms is Some ==> a.rtt_ms is Some
            &&& a.online == b.online && (a.online ==> (a.rtt_ms is Some) == (b.rtt_ms is Some))
                ==> a.id@ == b.id@ || order::lex_lt(a.id@, b.id@)
        }),
{
    let ks = star_keys(stars);
    let full = choose|full: Seq<usize>|
        order::is_order(full, ks) && shown == full.take(drawn(stars.len()) as int);
    order::law_rows_stand_by_number_name_and_second(full, ks, i, j);
    assert(full[i] < ks.len() && full[j] < ks.len());
    assert(shown[i] == full[i] && shown[j] == full[j]);
}

/// A link is good where it is direct and answers within 80 milliseconds, poor
/// where it takes 300 or more, offline where it is not connected, and fair
/// otherwise.
pub proof fn law_a_link_is_graded_by_its_path(
    online: bool,
    relayed: bool,
    rtt_ms: Option<u32>,
    r: &'static str,
)
    requires
        call_ensures(grade_of, (online, relayed, rtt_ms), r),
    ensures
        !online ==> r@ == "Offline"@,
        online && rtt_ms is Some && rtt_ms->0 >= 300 ==> r@ == "Poor"@,
        online && rtt_ms is Some && rtt_ms->0 < 80 && !relayed ==> r@ == "Good"@,
        online && rtt_ms is Some && rtt_ms->0 < 300 && (relayed || rtt_ms->0 >= 80) ==> r@
            == "Fair"@,
        online && rtt_ms is None ==> r@ == "Fair"@,
{
}

/// A star is drawn with the grade it was given where it is connected and the
/// grade is one of the house's four; at the distance of its round trip where it
/// is connected and has one; and in the direction of its id.
pub proof fn law_a_star_is_drawn_as_it_is(g: PlacedGeo, stars: Seq<Star<'_>>)
    requires
        is_placed(g, stars),
    ensures
        ({
            let s = stars[g.idx as int];
            &&& s.online && s.grade is Some && ((s.grade->0)@ == "Good"@ || (s.grade->0)@ == "Fair"@
                || (s.grade->0)@ == "Poor"@ || (s.grade->0)@ == "Offline"@) ==> g.grade@ == (
            s.grade->0)@
            &&& s.grade is None ==> g.grade@ == own_grade(s.online, s.relayed, s.rtt_ms)
            &&& !s.online ==> g.grade@ == "Offline"@ && g.orbit == Orbit::Rim
            &&& s.online && s.rtt_ms is Some ==> g.orbit == Orbit::Measured(s.rtt_ms->0)
            &&& s.rtt_ms is None ==> g.orbit == Orbit::Rim
            &&& g.grade@ == "Good"@ ==> g.star_r == 880
            &&& g.grade@ == "Fair"@ ==> g.star_r == 720
            &&& g.grade@ == "Poor"@ ==> g.star_r == 560
            &&& g.grade@ == "Offline"@ ==> g.star_r == 400
        }),
{
    reveal_strlit("Good");
    reveal_strlit("Fair");
    reveal_strlit("Poor");
    reveal_strlit("Offline");
    assert("Good"@[0] == 'G' && "Fair"@[0] == 'F' && "Poor"@[0] == 'P' && "Offline"@[0] == 'O');
}

/// Two stars of one id lie in one direction, whatever else is known of them.
pub proof fn law_an_id_keeps_its_direction(
    a: PlacedGeo,
    sa: Seq<Star<'_>>,
    b: PlacedGeo,
    sb: Seq<Star<'_>>,
)
    requires
        is_placed(a, sa),
        is_placed(b, sb),
        sa[a.idx as int].id@ == sb[b.idx as int].id@,
    ensures
        a.heading == b.heading,
{
}

/// The hash takes every byte, in order, the FNV-1a way.
pub proof fn law_the_hash_takes_every_byte(bytes: Seq<u8>, b: u8)
    ensures
        fnv(Seq::empty()) == 0xcbf2_9ce4_8422_2325,
        fnv(bytes.push(b)) == (fnv(bytes) ^ (b as u64)).wrapping_mul(0x0100_0000_01b3),
{
    assert(bytes.push(b).drop_last() =~= bytes);
}

/// A star is reached within five points of its rim, and always within nine of its
/// centre.
pub proof fn law_a_star_is_within_reach(star_r: i32, r: i64)
    requires
        call_ensures(hit_radius, (star_r,), r),
    ensures
        r >= 900,
        r >= star_r + 500,
        r == 900 || r == star_r + 500,
{
}

/// The pointer meets the nearest shown star whose reach it is in, and none where
/// it is in no star's.
pub proof fn law_the_pointer_meets_the_nearest_star(
    r: Option<usize>,
    ts: Seq<Target>,
    px: int,
    py: int,
    k: int,
)
    requires
        is_hit(r, ts, px, py),
        0 <= k < ts.len(),
        ts[k].shown,
        ts[k].star_r <= 400,
        (px - ts[k].dx) * (px - ts[k].dx) + (py - ts[k].dy) * (py - ts[k].dy) <= 900 * 900,
    ensures
        r is Some && r->0 < ts.len(),
        ({
            let t = ts[r->0 as int];
            &&& t.shown
            &&& (px - t.dx) * (px - t.dx) + (py - t.dy) * (py - t.dy) <= (px - ts[k].dx) * (px
                - ts[k].dx) + (py - ts[k].dy) * (py - ts[k].dy)
        }),
{
    assert(in_reach(ts[k], px, py));
}

/// The pointer meets no star that is hidden or farther off than its reach.
pub proof fn law_the_pointer_meets_no_star_beyond_reach(
    s: usize,
    ts: Seq<Target>,
    px: int,
    py: int,
)
    requires
        is_hit(Some(s), ts, px, py),
    ensures
        s < ts.len(),
        ts[s as int].shown,
        ({
            let t = ts[s as int];
            let reach = if t.star_r < 400 {
                900
            } else {
                t.star_r + 500
            };
            (px - t.dx) * (px - t.dx) + (py - t.dy) * (py - t.dy) <= reach * reach
        }),
{
}

/// A sky is 62 hundredths as high as it is wide, within what its peers ask for:
/// 230 points and four for each, up to 32 for each and never beyond 480.
pub proof fn law_a_sky_is_high_enough_for_its_peers(width: i32, peers: usize, r: i32)
    requires
        call_ensures(desired_height, (Some(width), peers), r),
        width > 0,
    ensures
        peers == 0 ==> r == 15_000,
        1 <= peers <= 24 ==> {
            let least = 23_000 + 400 * peers;
            let most = if least + 2_800 * peers > 48_000 {
                48_000
            } else {
                least + 2_800 * peers
            };
            let h = width * 62 / 100;
            &&& least <= r <= most
            &&& least <= h <= most ==> r == h
            &&& h < least ==> r == least
            &&& h > most ==> r == most
        },
        peers > 24 ==> 32_600 <= r <= 48_000,
{
}

/// The band of orbits starts at its innermost and ends at its outermost; the
/// outermost is 86 hundredths of the extent and the rim 96.
pub proof fn law_the_orbits_span_the_band(a: i32, l: i32, gap: i32, r: Option<Band>)
    requires
        call_ensures(band_for, (Some(a), Some(l), gap), r),
        r is Some,
    ensures
        ({
            let b = r->0;
            &&& a >= 7_200
            &&& b.r_meas == a * 86 / 100
            &&& b.r_rim == a * 96 / 100
            &&& 900 <= b.centre_r <= 1_500
            &&& b.r_min < b.r_meas
            &&& l >= 0 ==> b.r_min == b.centre_r + gap + l + 880 + 600
            &&& b.orbit(0) == b.r_min
            &&& b.orbit(10_000) == b.r_meas
        }),
{
    let b = r->0;
    let span = b.r_meas - b.r_min;
    assert(0 * span == 0 && 10_000 * span / 10_000 == span);
}

/// A name of up to fourteen characters is shown whole; a longer one by its first
/// thirteen and an ellipsis.
pub proof fn law_a_long_name_keeps_its_head(name: &str, r: String)
    requires
        call_ensures(elide, (name,), r),
    ensures
        name@.len() <= 14 ==> r@ == name@,
        name@.len() > 14 ==> r@.len() == 14 && r@.take(13) == name@.take(13) && r@[13] == '…',
{
    reveal_strlit("…");
    if name@.len() > 14 {
        assert(r@.take(13) =~= name@.take(13));
    }
}

/// Under its name a connected star has its round trip, or a dash where there is
/// none; any other has that it is offline.
pub proof fn law_a_star_is_captioned_by_its_round_trip(s: Star<'_>)
    ensures
        !s.online ==> sub_line(s) == "offline"@,
        s.online && s.rtt_ms is None ==> sub_line(s) == "—"@,
        s.online && s.rtt_ms is Some ==> sub_line(s) == text::dec(s.rtt_ms->0 as nat) + " ms"@,
{
}

/// A star is called by its name, or by its id where the name is blank, or by a
/// word where both are.
pub proof fn law_a_star_is_called_by_its_name(s: Star<'_>)
    ensures
        text::trimmed(s.name@).len() > 0 ==> star_name(s) == text::trimmed(s.name@),
        text::trimmed(s.name@).len() == 0 && text::trimmed(s.id@).len() > 0 ==> star_name(s)
            == text::trimmed(s.id@),
        text::trimmed(s.name@).len() == 0 && text::trimmed(s.id@).len() == 0 ==> star_name(s)
            == "unnamed peer"@,
{
}

/// A connected star is told by its name, its path and its round trip; any other
/// by its name and that it is offline.
pub proof fn law_a_star_is_told_by_its_path(s: Star<'_>)
    ensures
        !s.online ==> star_text(s) == star_name(s) + " "@ + "offline"@,
        s.online && s.rtt_ms is Some ==> star_text(s) == star_name(s) + " "@ + (if s.relayed {
            "relayed"@
        } else {
            "direct"@
        }) + " "@ + a11y::spoken_ms_text(s.rtt_ms->0 as nat),
        s.online && s.rtt_ms is None ==> star_text(s) == star_name(s) + " "@ + (if s.relayed {
            "relayed"@
        } else {
            "direct"@
        }) + " "@ + "round-trip unmeasured"@,
{
}

/// The sky tells each star that it draws, in the order in which it draws them,
/// and behind them how many it does not draw.
pub proof fn law_the_sky_tells_every_star_it_draws(
    stars: Seq<Star<'_>>,
    shown: Seq<usize>,
    i: int,
)
    requires
        0 <= i < shown.len(),
    ensures
        sky_parts(stars, shown)[i] == star_text(stars[shown[i] as int]),
        stars.len() <= 24 ==> sky_parts(stars, shown).len() == shown.len(),
        stars.len() > 24 ==> sky_parts(stars, shown) == sky_parts(stars, shown).take(
            shown.len() as int,
        ).push(text::dec((stars.len() - 24) as nat) + " more not drawn"@),
        sky_lead(stars.len()) == "peer mesh, "@ + text::counted(stars.len(), "peer"@),
{
    let n = stars.len();
    reveal_strlit("peer mesh");
    reveal_strlit(", ");
    reveal_strlit("peer mesh, ");
    reveal_strlit("peer");
    reveal_strlit(" peer");
    reveal_strlit(" peers");
    reveal_strlit(" ");
    reveal_strlit("s");
    assert("peer mesh"@ + ", "@ =~= "peer mesh, "@);
    assert(" peer"@ =~= " "@ + "peer"@);
    assert(" peers"@ =~= " "@ + "peer"@ + "s"@);
    assert(sky_lead(n) =~= "peer mesh, "@ + text::counted(n, "peer"@));
    if n > 24 {
        assert(sky_parts(stars, shown) =~= sky_parts(stars, shown).take(shown.len() as int).push(
            text::dec((stars.len() - 24) as nat) + " more not drawn"@,
        ));
    }
}

/// The cursor goes one star on, one back, or to either end, and off the first
/// star back to the figure as a whole.
pub proof fn law_the_cursor_goes_one_star_at_a_time(s: usize, slots: usize)
    requires
        s < slots,
    ensures
        cursor_after(Some(s), slots, true, false, false, false) == Some(
            if s + 1 < slots {
                (s + 1) as usize
            } else {
                s
            },
        ),
        cursor_after(Some(s), slots, false, true, false, false) == (if s > 0 {
            Some((s - 1) as usize)
        } else {
            None
        }),
        cursor_after(None, slots, true, false, false, false) == Some(0usize),
        cursor_after(None, slots, false, true, false, false) is None,
        forall|held: Option<usize>, f: bool, b: bool, l: bool| #[trigger]
            cursor_after(held, slots, f, b, true, l) == Some(0usize),
        forall|held: Option<usize>, f: bool, b: bool| #[trigger]
            cursor_after(held, slots, f, b, false, true) == Some((slots - 1) as usize),
        cursor_after(Some(s), slots, false, false, false, false) == Some(s),
{
}

/// A thread leads to every connected star, broken where its path is relayed, and
/// to no other.
pub proof fn law_a_thread_shows_its_path(s: Star<'_>, r: Thread)
    requires
        call_ensures(thread_of, (&s,), r),
    ensures
        r == Thread::Absent <==> !s.online,
        r == Thread::Broken <==> s.online && s.relayed,
        r == Thread::Taut <==> s.online && !s.relayed,
{
}

/// What the pointer is over is pointed at before what the cursor is on.
pub proof fn law_the_pointer_goes_before_the_cursor(
    shown: &[PlacedGeo],
    hovered: Option<usize>,
    cursor: Option<usize>,
    r: Option<usize>,
)
    requires
        call_ensures(pointed_at, (shown, hovered, cursor), r),
    ensures
        hovered is Some && hovered->0 < shown@.len() ==> r == Some(
            shown@[hovered->0 as int].idx,
        ),
        hovered is None && cursor is Some && cursor->0 < shown@.len() ==> r == Some(
            shown@[cursor->0 as int].idx,
        ),
        hovered is None && cursor is None ==> r is None,
{
}

/// A label hangs four points under its star, or stands as far above it where it
/// would come within two points of the sky's foot.
pub proof fn law_a_label_hangs_under_its_star(sky: Block, y: int, star_r: int, h: int)
    ensures
        ({
            let top = label_top(sky, y, star_r, h);
            &&& y + star_r + 400 + h <= sky.bottom - 200 ==> top == y + star_r + 400
            &&& y + star_r + 400 + h > sky.bottom - 200 ==> top + h == y - star_r - 400
        }),
{
}

/// A label stands over the middle of its star, moved no further than it takes to
/// stay between the sides.
pub proof fn law_a_label_is_centred_where_it_can_be(sky: Block, x: int, half: int)
    requires
        half >= 0,
        sky.right - sky.left > 2 * half,
    ensures
        ({
            let mid = label_mid(sky, x, half);
            &&& sky.left + half <= mid <= sky.right - half
            &&& sky.left + half <= x <= sky.right - half ==> mid == x
            &&& x < sky.left + half ==> mid == sky.left + half
            &&& x > sky.right - half ==> mid == sky.right - half
        }),
{
}

/// Labels are chosen in this order: the centre's own, the count of what is left
/// out, the stars' in the order of the stars, and the rings'.
pub proof fn law_labels_have_an_order_of_priority(
    you: Block,
    more: Option<Block>,
    labels: Seq<Block>,
    rings: Seq<Block>,
    i: int,
)
    ensures
        ({
            let p = priority(you, more, labels, rings);
            let from = if more is Some {
                2int
            } else {
                1
            };
            &&& p.len() == from + labels.len() + rings.len()
            &&& always(more) == from
            &&& p[0] == Some(you)
            &&& more is Some ==> p[1] == more
            &&& 0 <= i < labels.len() ==> p[from + i] == Some(labels[i])
            &&& 0 <= i < rings.len() ==> p[from + labels.len() + i] == Some(rings[i])
        }),
{
}

/// A star asks for a label once it is drawn far enough, where the label is
/// narrower than the sky.
pub proof fn law_a_drawn_star_asks_for_its_label(canvas: Block, before: Seq<Named>, n: Named)
    ensures
        ({
            let w = if n.name.w < n.sub.w {
                n.sub.w
            } else {
                n.name.w
            };
            let asks = n.local > 1_500 && w + 400 < canvas.right - canvas.left;
            &&& asks ==> laid(canvas, before.push(n)) == laid(canvas, before).push(
                label_block(canvas, n),
            )
            &&& !asks ==> laid(canvas, before.push(n)) == laid(canvas, before)
        }),
{
    assert(before.push(n).drop_last() =~= before);
}

/// The drawing eases out: it starts at nothing, ends at the whole, never goes
/// back and is never behind an even one.
pub proof fn law_the_drawing_eases_out(a: int, b: int)
    requires
        0 <= a <= b <= 10_000,
    ensures
        eased(0) == 0,
        eased(10_000) == 10_000,
        eased(a) <= eased(b),
        a <= eased(a),
{
    let x = 10_000 - a;
    let y = 10_000 - b;
    assert(y * y <= x * x) by (nonlinear_arith)
        requires
            0 <= y <= x,
    ;
    assert(x * x <= 10_000 * x) by (nonlinear_arith)
        requires
            0 <= x <= 10_000,
    ;
}

/// What is left out of a sky is counted in its caption.
pub proof fn law_the_caption_counts_what_is_left_out(n: usize, r: String)
    requires
        call_ensures(overflow_caption, (n,), r),
    ensures
        r@ == "+ "@ + text::dec(n as nat) + " more"@,
{
}

/// The label of a star stands in the list of labels behind those of the stars
/// before it.
proof fn lemma_laid_at(canvas: Block, named: Seq<Named>, i: int)
    requires
        0 <= i < named.len(),
        labelled(canvas, named[i]),
    ensures
        laid(canvas, named.take(i)).len() < laid(canvas, named).len(),
        laid(canvas, named)[laid(canvas, named.take(i)).len() as int] == label_block(
            canvas,
            named[i],
        ),
    decreases named.len(),
{
    let init = named.drop_last();
    if i == named.len() - 1 {
        assert(named.take(i) =~= init);
    } else {
        assert(init.take(i) =~= named.take(i));
        assert(init[i] == named[i]);
        lemma_laid_at(canvas, init, i);
    }
}

proof fn lemma_laid_in_order(canvas: Block, named: Seq<Named>, i: int, j: int)
    requires
        0 <= i < j <= named.len(),
        labelled(canvas, named[i]),
    ensures
        laid(canvas, named.take(i)).len() < laid(canvas, named.take(j)).len(),
{
    let upto = named.take(j);
    assert(upto[i] == named[i]);
    assert(upto.take(i) =~= named.take(i));
    lemma_laid_at(canvas, upto, i);
}

/// The labels of a finished sky keep clear of the centre's own and of each other:
/// no point of one lies within two points of another.
pub proof fn law_no_two_labels_of_a_sky_overlap(
    canvas: Block,
    you: Block,
    more: Option<Block>,
    named: &[Named],
    rings: &[Block],
    r: SkyLabels,
    i: int,
    j: int,
    x: int,
    y: int,
)
    requires
        call_ensures(set_labels, (&canvas, you, more, named, rings), r),
        0 <= i < j < named@.len(),
        r.stars@[j] is Some,
    ensures
        !(covers(you, 200, x, y) && covers((r.stars@[j]->0).block, 0, x, y)),
        more is Some ==> !(covers(more->0, 200, x, y) && covers((r.stars@[j]->0).block, 0, x, y)),
        r.stars@[i] is Some ==> !(covers((r.stars@[i]->0).block, 200, x, y) && covers(
            (r.stars@[j]->0).block,
            0,
            x,
            y,
        )),
{
    let labels = laid(canvas, named@);
    let kept = choose|kept: Seq<bool>|
        {
            &&& #[trigger] is_choice(kept, you, more, labels, rings@)
            &&& forall|i: int|
                #![trigger r.stars@[i]]
                0 <= i < named@.len() ==> {
                    let at = always(more) + laid(canvas, named@.take(i)).len();
                    match r.stars@[i] {
                        Some(l) => {
                            &&& labelled(canvas, named@[i])
                            &&& kept[at as int]
                            &&& is_label(l, canvas, named@[i])
                        },
                        None => !labelled(canvas, named@[i]) || !kept[at as int],
                    }
                }
            &&& forall|j: int|
                #![trigger r.rings@[j]]
                0 <= j < rings@.len() ==> r.rings@[j] == kept[always(more) + labels.len() + j]
        };
    let blocks = priority(you, more, labels, rings@);
    let from = always(more);
    let b = from + laid(canvas, named@.take(j)).len();
    lemma_laid_at(canvas, named@, j);
    law_labels_have_an_order_of_priority(
        you,
        more,
        labels,
        rings@,
        laid(canvas, named@.take(j)).len() as int,
    );
    assert(blocks[b as int] == Some((r.stars@[j]->0).block));
    assert(is_kept(kept, blocks, from, b as int));
    assert(is_kept(kept, blocks, from, 0) && kept[0]);
    law_drawn_labels_share_no_point(kept, blocks, from, b as int, 0, x, y);
    if more is Some {
        assert(is_kept(kept, blocks, from, 1) && kept[1]);
        law_drawn_labels_share_no_point(kept, blocks, from, b as int, 1, x, y);
    }
    if r.stars@[i] is Some {
        let a = from + laid(canvas, named@.take(i)).len();
        lemma_laid_at(canvas, named@, i);
        lemma_laid_in_order(canvas, named@, i, j);
        law_labels_have_an_order_of_priority(
            you,
            more,
            labels,
            rings@,
            laid(canvas, named@.take(i)).len() as int,
        );
        assert(blocks[a as int] == Some((r.stars@[i]->0).block));
        law_drawn_labels_share_no_point(kept, blocks, from, b as int, a as int, x, y);
    }
}

/// A label is as wide as the wider of its two lines and as high as both with a
/// point between; its lines are centred in it, the name over the caption.
pub proof fn law_a_label_holds_its_two_lines(
    sky: Block,
    x: i32,
    y: i32,
    star_r: i32,
    name: Extent,
    sub: Extent,
    r: Option<LabelAt>,
)
    requires
        call_ensures(label_at, (&sky, x, y, star_r, name, sub), r),
        r is Some,
        name.w >= 0,
        sub.w >= 0,
    ensures
        ({
            let at = r->0;
            let b = at.block;
            &&& b.right - b.left >= name.w && b.right - b.left >= sub.w
            &&& b.right - b.left == name.w || b.right - b.left == sub.w
            &&& b.bottom - b.top == name.h + 100 + sub.h
            &&& b.left <= at.name_x && at.name_x + name.w <= b.right + 1
            &&& b.left <= at.sub_x && at.sub_x + sub.w <= b.right + 1
            &&& at.sub_y == b.top + name.h + 100
        }),
{
}

/// A sky of no peers says so; any other says how many it holds before it tells
/// its stars.
pub proof fn law_the_sky_says_how_many_it_holds(stars: &[Star<'_>], r: String)
    requires
        call_ensures(sky_sentence, (stars,), r),
    ensures
        stars@.len() == 0 ==> r@ == "peer mesh: no peers yet"@,
        stars@.len() > 0 ==> exists|shown: Seq<usize>|
            is_star_order(shown, stars@) && r@ == a11y::sentence_of(
                "peer mesh, "@ + text::counted(stars@.len(), "peer"@),
                sky_parts(stars@, shown),
            ),
{
    if stars@.len() == 0 {
        lemma_empty_sky_words();
    } else {
        let shown = choose|shown: Seq<usize>|
            is_star_order(shown, stars@) && r@ == a11y::sentence_of(
                sky_lead(stars@.len()),
                sky_parts(stars@, shown),
            );
        lemma_star_order_is_filled(shown, stars@);
        law_the_sky_tells_every_star_it_draws(stars@, shown, 0);
    }
}

proof fn lemma_star_order_is_filled(shown: Seq<usize>, stars: Seq<Star<'_>>)
    requires
        is_star_order(shown, stars),
        stars.len() > 0,
    ensures
        shown.len() > 0,
{
    let full = choose|full: Seq<usize>|
        order::is_order(full, star_keys(stars)) && shown == full.take(drawn(stars.len()) as int);
    assert(full.len() == stars.len());
}

proof fn lemma_empty_sky_words()
    ensures
        a11y::sentence_of(SKY_LEAD@, seq![SKY_EMPTY@]) == "peer mesh: no peers yet"@,
{
    reveal_strlit("peer mesh");
    reveal_strlit("no peers yet");
    reveal_strlit(": ");
    reveal_strlit("peer mesh: no peers yet");
    let lead = SKY_LEAD@;
    let part = SKY_EMPTY@;
    text::lemma_trim_padded(lead, 0);
    text::lemma_trim_padded(part, 0);
    assert(lead.skip(0) =~= lead);
    assert(part.skip(0) =~= part);
    a11y::law_every_part_is_said_in_order(seq![part], Seq::empty());
    a11y::law_a_sentence_leads_and_tells(lead, seq![part]);
    assert(lead + ": "@ + part =~= "peer mesh: no peers yet"@);
}

/// A sky is drawn exactly where its extent is 72 points or more and the innermost
/// orbit lies within the outermost; one that is not drawn places no star and
/// still says what it holds.
pub proof fn law_a_sky_without_room_still_speaks(
    stars: &[Star<'_>],
    avail: Option<i32>,
    label_h: Option<i32>,
    gap: i32,
    focused: bool,
    held: Option<usize>,
    walk: Walk,
    r: Sky,
)
    requires
        call_ensures(sky, (stars, avail, label_h, gap, focused, held, walk), r),
    ensures
        avail is None || label_h is None || avail->0 < 7_200 ==> r.band is None,
        r.band is None ==> r.placed@.len() == 0 && r.cursor is None,
        r.band is Some && stars@.len() <= 24 ==> r.placed@.len() == stars@.len() && r.overflow == 0,
        r.band is Some && stars@.len() > 24 ==> r.placed@.len() == 24 && r.overflow == stars@.len()
            - 24,
        !focused ==> r.cursor is None,
{
}

/// The label that a star is given is the one laid out for it: under the star or
/// above it, centred on it or moved no further than to the side, its caption a
/// point below its name.
pub proof fn law_a_given_label_is_the_one_laid_out(at: LabelAt, canvas: Block, n: Named)
    requires
        is_label(at, canvas, n),
        can_be_named(canvas, n),
        labelled(canvas, n),
    ensures
        ({
            let w = if n.name.w < n.sub.w {
                n.sub.w
            } else {
                n.name.w
            };
            let h = n.name.h + 100 + n.sub.h;
            let mid = label_mid(canvas, n.x as int, w as int / 2 + 200);
            let b = at.block;
            &&& b.left == mid - w as int / 2 && b.right == b.left + w
            &&& b.top == label_top(canvas, n.y as int, n.star_r as int, h)
            &&& b.bottom == b.top + h
            &&& at.name_x == mid - n.name.w as int / 2
            &&& at.sub_x == mid - n.sub.w as int / 2
            &&& at.sub_y == b.top + n.name.h + 100
        }),
{
}

/// A direction is the upper 53 bits of the mixed hash of an id.
pub proof fn law_a_direction_is_53_bits_of_the_hash(id: &str, r: u64)
    requires
        call_ensures(heading, (id,), r),
    ensures
        r == mixed(fnv(vstd::utf8::encode_utf8(id@))) / 2_048,
        r < 0x20_0000_0000_0000,
{
    let m = mixed(fnv(vstd::utf8::encode_utf8(id@)));
    assert(m >> 11 == m / 2_048) by (bit_vector);
}

/// A sky has room exactly where its extent is 72 points or more and a star on the
/// innermost orbit clears the centre's label before the outermost is reached.
pub proof fn law_a_sky_has_room_where_its_orbits_do(a: i32, l: i32, gap: i32, r: Option<Band>)
    requires
        call_ensures(band_for, (Some(a), Some(l), gap), r),
    ensures
        r is Some <==> has_room(Some(a), Some(l), gap as int),
        r is Some <==> a >= 7_200 && sky_band(a as int, l as int, gap as int).r_min < sky_band(
            a as int,
            l as int,
            gap as int,
        ).r_meas,
{
}

/// The cursor lives only while the sky is focused; the star under it is what is
/// said.
pub proof fn law_the_star_under_the_cursor_is_said(
    stars: &[Star<'_>],
    shown: &[PlacedGeo],
    slot: usize,
    r: String,
    gone: Option<usize>,
)
    requires
        call_ensures(announced, (stars, shown, Some(slot)), r),
        slot < shown@.len(),
        call_ensures(
            star_cursor,
            (false, Some(slot), shown@.len() as usize, true, false, false, false),
            gone,
        ),
    ensures
        r@ == star_text(stars@[shown@[slot as int].idx as int]),
        gone is None,
{
}

} // verus!
