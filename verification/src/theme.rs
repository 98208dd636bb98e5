//! The choices of appearance that a reader can make, and the measures that the
//! window is set in.
//!
//! Lengths are in hundredths of a point, and text scales in ten-thousandths.

use crate::a11y::{self, clamp_scale, SCALE_DEFAULT, SCALE_MAX, SCALE_MIN};
use crate::geometry::FAR;
use crate::text::Chars;
use vstd::prelude::*;

verus! {

/// The radius of the window's corners, in points.
pub const R_WINDOW: u8 = 12;

/// The width of a hairline rule.
pub const RULE_W: i32 = 100;

/// The width of an accent rule.
pub const RULE_ACCENT_W: i32 = 200;

/// The least space.
pub const SPACE_XS: i32 = 200;

/// A small space.
pub const SPACE_S: i32 = 400;

/// A medium space.
pub const SPACE_M: i32 = 800;

/// A large space.
pub const SPACE_L: i32 = 1_200;

/// A larger space.
pub const SPACE_XL: i32 = 1_600;

/// The largest space.
pub const SPACE_XXL: i32 = 2_400;

/// The size of a caption.
pub const STEP_CAPTION: i32 = 1_050;

/// The size of secondary type.
pub const STEP_META: i32 = 1_150;

/// The size of tabular type.
pub const STEP_DATA: i32 = 1_200;

/// The size of a label.
pub const STEP_LABEL: i32 = 1_250;

/// The size of running text.
pub const STEP_BODY: i32 = 1_350;

/// The size of a title.
pub const STEP_TITLE: i32 = 1_600;

/// The size of a displayed figure.
pub const STEP_DISPLAY: i32 = 2_200;

/// The palettes.
#[derive(Clone, Copy, PartialEq, Eq, Debug, Structural)]
pub enum Mode {
    /// Light ink on a dark ground.
    Night,
    /// Dark ink on warm stock.
    Paper,
    /// The strongest contrast.
    Contrast,
}

impl Mode {
    /// The palettes in the order in which they are offered.
    pub open spec fn offered() -> Seq<Mode> {
        seq![Mode::Night, Mode::Paper, Mode::Contrast]
    }

    /// The palettes in the order in which they are offered.
    pub fn all() -> (r: Vec<Mode>)
        ensures
            r@ == Mode::offered(),
    {
        let mut r: Vec<Mode> = Vec::new();
        r.push(Mode::Night);
        r.push(Mode::Paper);
        r.push(Mode::Contrast);
        proof {
            assert(r@ =~= Mode::offered());
        }
        r
    }

    /// The palette's name.
    pub open spec fn name(self) -> Chars {
        match self {
            Mode::Night => "Night"@,
            Mode::Paper => "Paper"@,
            Mode::Contrast => "Contrast"@,
        }
    }

    /// The palette's name.
    pub fn label(self) -> (r: &'static str)
        ensures
            r@ == self.name(),
    {
        match self {
            Mode::Night => "Night",
            Mode::Paper => "Paper",
            Mode::Contrast => "Contrast",
        }
    }
}

/// How many entries a register fits on one screen.
#[derive(Clone, Copy, PartialEq, Eq, Debug, Structural)]
pub enum Density {
    /// The lowest row.
    Compact,
    /// The ordinary row.
    Regular,
    /// The highest row.
    Roomy,
}

impl Density {
    /// The densities in the order in which they are offered.
    pub open spec fn offered() -> Seq<Density> {
        seq![Density::Compact, Density::Regular, Density::Roomy]
    }

    /// The densities in the order in which they are offered.
    pub fn all() -> (r: Vec<Density>)
        ensures
            r@ == Density::offered(),
    {
        let mut r: Vec<Density> = Vec::new();
        r.push(Density::Compact);
        r.push(Density::Regular);
        r.push(Density::Roomy);
        proof {
            assert(r@ =~= Density::offered());
        }
        r
    }

    /// The density's name.
    pub open spec fn name(self) -> Chars {
        match self {
            Density::Compact => "Compact"@,
            Density::Regular => "Regular"@,
            Density::Roomy => "Roomy"@,
        }
    }

    /// The density's name.
    pub fn label(self) -> (r: &'static str)
        ensures
            r@ == self.name(),
    {
        match self {
            Density::Compact => "Compact",
            Density::Regular => "Regular",
            Density::Roomy => "Roomy",
        }
    }

    /// The height of a one-line row at the ordinary text size.
    pub open spec fn base(self) -> int {
        match self {
            Density::Compact => 2_400,
            Density::Regular => 2_800,
            Density::Roomy => 3_400,
        }
    }

    /// The height of a one-line row at a text scale. It stops following the text
    /// below the ordinary size.
    pub open spec fn row(self, scale: int) -> int {
        self.base() * (if scale < SCALE_DEFAULT {
            SCALE_DEFAULT as int
        } else {
            scale
        }) / 10_000
    }

    /// The height of a one-line row at a text scale.
    pub fn row_h(self, scale: i32) -> (r: i32)
        requires
            SCALE_MIN <= scale <= SCALE_MAX,
        ensures
            r == self.row(scale as int),
            r > 0,
    {
        let k: i32 = if scale < SCALE_DEFAULT {
            SCALE_DEFAULT
        } else {
            scale
        };
        let base: i32 = match self {
            Density::Compact => 2_400,
            Density::Regular => 2_800,
            Density::Roomy => 3_400,
        };
        proof {
            assert(2_400 * 10_000 <= base * k <= 3_400 * 22_000) by (nonlinear_arith)
                requires
                    2_400 <= base <= 3_400,
                    10_000 <= k <= 22_000,
            ;
        }
        base * k / 10_000
    }
}

// ---------------------------------------------------------------------------
// Custody
// ---------------------------------------------------------------------------

/// Who holds an entry, or what is wrong with it.
#[derive(Clone, Copy, PartialEq, Eq, Debug, Structural)]
pub enum Custody {
    /// Nobody holds it.
    Free,
    /// This machine holds it.
    Mine,
    /// Another machine holds it.
    Peer,
    /// It is out of date.
    Stale,
    /// It cannot be had.
    Blocked,
    /// It was set aside.
    Quarantined,
    /// It is settled.
    Good,
}

impl Custody {
    /// Whether an entry is held, and so carries the seal.
    pub open spec fn is_sealed(self) -> bool {
        self == Custody::Mine || self == Custody::Peer
    }

    /// Whether an entry is held, and so carries the seal.
    pub fn sealed(self) -> (r: bool)
        ensures
            r == self.is_sealed(),
    {
        match self {
            Custody::Mine | Custody::Peer => true,
            _ => false,
        }
    }

    /// Whether an entry needs attention, and so tints its row.
    pub open spec fn is_alarming(self) -> bool {
        self == Custody::Stale || self == Custody::Blocked || self == Custody::Quarantined
    }

    /// Whether an entry needs attention, and so tints its row.
    pub fn alarming(self) -> (r: bool)
        ensures
            r == self.is_alarming(),
    {
        match self {
            Custody::Stale | Custody::Blocked | Custody::Quarantined => true,
            _ => false,
        }
    }
}

// ---------------------------------------------------------------------------
// Type at a scale
// ---------------------------------------------------------------------------

/// The size of type at a text scale.
pub open spec fn sized_of(step: int, scale: int) -> int {
    step * scale / 10_000
}

/// The size of type at a text scale.
pub fn sized(step: i32, scale: i32) -> (r: i32)
    requires
        0 <= step <= 100_000,
        SCALE_MIN <= scale <= SCALE_MAX,
    ensures
        r == sized_of(step as int, scale as int),
        0 <= r <= 220_000,
{
    proof {
        assert(0 <= step * scale <= 100_000 * 22_000) by (nonlinear_arith)
            requires
                0 <= step <= 100_000,
                7_000 <= scale <= 22_000,
        ;
    }
    (step as i64 * scale as i64 / 10_000) as i32
}

/// A coordinate brought to the middle of its pixel, so that a hairline there is
/// one crisp line.
pub open spec fn pixel(v: int) -> int {
    v / 100 * 100 + 50
}

/// A coordinate brought to the middle of its pixel.
pub fn snap(v: i64) -> (r: i64)
    requires
        -8 * FAR <= v <= 8 * FAR,
    ensures
        r == pixel(v as int),
{
    let q: i64 = v / 100;
    if v < 0 && q * 100 != v {
        (q - 1) * 100 + 50
    } else {
        q * 100 + 50
    }
}

/// A text scale as it is stored: the nearest whole number of twentieths.
pub open spec fn twentieths(scale: int) -> int {
    (a11y::clamped(scale) + 250) / 500
}

/// A text scale as it is stored.
pub fn stored_scale(scale: Option<i32>) -> (r: u8)
    ensures
        r == twentieths(a11y::asked(scale)),
        14 <= r <= 44,
{
    let s: i32 = clamp_scale(scale);
    ((s + 250) / 500) as u8
}

/// The text scale that was stored.
pub fn restored_scale(stored: u8) -> (r: i32)
    ensures
        r == stored * 500,
{
    stored as i32 * 500
}

/// Every notch of the text scale comes back from storage as it was.
pub proof fn law_every_notch_survives_storage(scale: int)
    requires
        SCALE_MIN <= scale <= SCALE_MAX,
        scale % a11y::SCALE_STEP as int == 0,
    ensures
        twentieths(scale) * 500 == scale,
{
}

/// A size of type is its step times the scale.
pub proof fn law_type_scales_with_its_step(step: i32, scale: i32, r: i32)
    requires
        call_ensures(sized, (step, scale), r),
        0 <= step <= 100_000,
        7_000 <= scale <= 22_000,
    ensures
        10_000 * r <= step * scale < 10_000 * (r + 1),
        scale == 10_000 ==> r == step,
{
    assert(step * scale == step as int * scale as int);
    if scale == 10_000 {
        assert(step * scale == step * 10_000) by (nonlinear_arith)
            requires
                scale == 10_000,
        ;
    }
}

/// A row is as high as its density asks, grows with the text and never shrinks
/// below it; and the denser setting is the lower.
pub proof fn law_rows_grow_with_the_text(scale: int)
    requires
        7_000 <= scale <= 22_000,
    ensures
        Density::Compact.row(10_000) == 2_400,
        Density::Regular.row(10_000) == 2_800,
        Density::Roomy.row(10_000) == 3_400,
        scale <= 10_000 ==> Density::Regular.row(scale) == Density::Regular.row(10_000),
        scale == 20_000 ==> Density::Regular.row(scale) == 2 * Density::Regular.row(10_000),
        Density::Compact.row(scale) < Density::Regular.row(scale) < Density::Roomy.row(scale),
{
}

/// A line is set on the middle of its pixel.
pub proof fn law_a_line_is_set_on_the_middle_of_its_pixel(v: i64, r: i64)
    requires
        call_ensures(snap, (v,), r),
        -8 * FAR <= v <= 8 * FAR,
    ensures
        r % 100 == 50,
        r - 50 <= v < r + 50,
{
}

/// What a device holds is sealed, and what needs attention is alarming; nothing
/// is both.
pub proof fn law_custody_seals_or_alarms(c: Custody, sealed: bool, alarming: bool)
    requires
        call_ensures(Custody::sealed, (c,), sealed),
        call_ensures(Custody::alarming, (c,), alarming),
    ensures
        sealed <==> c == Custody::Mine || c == Custody::Peer,
        alarming <==> c == Custody::Stale || c == Custody::Blocked || c == Custody::Quarantined,
        !(sealed && alarming),
{
}

/// A scale is stored as the nearest five percent and comes back as that.
pub proof fn law_a_stored_scale_is_the_nearest_notch(scale: i32, stored: u8, back: i32)
    requires
        call_ensures(stored_scale, (Some(scale),), stored),
        call_ensures(restored_scale, (stored,), back),
        7_000 <= scale <= 22_000,
    ensures
        -250 <= back - scale <= 250,
        back % 500 == 0,
{
}

} // verus!
