//! The parts that pages are made of: the kind chip, the measure, the plate and
//! the empty page.
//!
//! Lengths are in hundredths of a point. A length that is no number comes in as
//! `None`.

use crate::geometry::{self, max_of, min_of, Frame, Point, FAR};
use crate::grouping::{self, separator};
use crate::text::{self, Chars};
use crate::theme::{RULE_ACCENT_W, RULE_W, SPACE_L, SPACE_M, SPACE_XS};
use vstd::prelude::*;

verus! {

// ---------------------------------------------------------------------------
// The kind chip
// ---------------------------------------------------------------------------

/// What the chip shows for a file without a usable extension.
pub const NO_EXT: &'static str = "·";

/// The upper-case form of a text, as `str::to_uppercase` of std gives it.
pub uninterp spec fn uppercase(s: Chars) -> Chars;

/// `str::to_uppercase` of std. Its result is a function of the text alone;
/// nothing more is claimed of it.
#[verifier::external_body]
fn to_upper(s: &str) -> (r: String)
    ensures
        r@ == uppercase(s@),
{
    s.to_uppercase()
}

/// Where the last segment of the first `n` characters of a path begins.
pub open spec fn segment_start(path: Chars, n: int) -> int
    decreases n,
{
    if n <= 0 {
        0
    } else if grouping::is_separator(path[n - 1]) {
        n
    } else {
        segment_start(path, n - 1)
    }
}

/// The last segment of a path.
pub open spec fn last_segment(path: Chars) -> Chars {
    path.skip(segment_start(path, path.len() as int))
}

/// The last dot among the first `n` characters of `s`.
pub open spec fn last_dot(s: Chars, n: int) -> Option<int>
    decreases n,
{
    if n <= 0 {
        None
    } else if s[n - 1] == '.' {
        Some(n - 1)
    } else {
        last_dot(s, n - 1)
    }
}

/// The extension that fits the chip: one to five characters behind the last dot
/// of the last segment. A segment whose last dot stands first has none, for there
/// the extension is the whole name.
pub open spec fn short_ext(path: Chars) -> Option<Chars> {
    let name = last_segment(path);
    match last_dot(name, name.len() as int) {
        Some(at) => if at > 0 && 1 <= name.len() - at - 1 <= 5 {
            Some(name.skip(at + 1))
        } else {
            None
        },
        None => None,
    }
}

proof fn lemma_segment_start(path: Chars, n: int)
    requires
        0 <= n <= path.len(),
    ensures
        0 <= segment_start(path, n) <= n,
        segment_start(path, n) > 0 ==> grouping::is_separator(path[segment_start(path, n) - 1]),
        forall|i: int| segment_start(path, n) <= i < n ==> !grouping::is_separator(path[i]),
    decreases n,
{
    if n > 0 && !grouping::is_separator(path[n - 1]) {
        lemma_segment_start(path, n - 1);
    }
}

/// The last segment of a path.
fn file_name(path: &str) -> (r: &str)
    ensures
        r@ == last_segment(path@),
{
    let cs: Vec<char> = text::chars(path);
    let len: usize = cs.len();
    let mut n: usize = len;
    while n > 0 && !separator(cs[n - 1])
        invariant
            n <= len,
            len == cs.len(),
            cs@ == path@,
            segment_start(path@, len as int) == segment_start(path@, n as int),
        decreases n,
    {
        n = n - 1;
    }
    let r: &str = path.substring_char(n, len);
    proof {
        assert(r@ =~= path@.skip(n as int));
    }
    r
}

/// The extension that a chip shows, before it is put in upper case; `None`
/// where the chip shows the dot.
pub fn usable_ext(path: &str) -> (r: Option<&str>)
    ensures
        match r {
            Some(e) => short_ext(path@) == Some(e@),
            None => short_ext(path@) is None,
        },
{
    let name: &str = file_name(path);
    let cs: Vec<char> = text::chars(name);
    let len: usize = cs.len();
    let mut n: usize = len;
    while n > 0
        invariant
            n <= len,
            len == cs.len(),
            cs@ == name@,
            name@ == last_segment(path@),
            last_dot(name@, len as int) == last_dot(name@, n as int),
        decreases n,
    {
        if cs[n - 1] == '.' {
            let count: usize = len - n;
            if n > 1 && 1 <= count && count <= 5 {
                let e: &str = name.substring_char(n, len);
                proof {
                    assert(e@ =~= name@.skip(n as int));
                }
                return Some(e);
            }
            return None;
        }
        n = n - 1;
    }
    None
}

/// The text of the kind chip: the extension in upper case, or a dot where there
/// is nothing usable to show.
pub fn chip_ext(path: &str) -> (r: String)
    ensures
        r@ == (match short_ext(path@) {
            Some(e) => uppercase(e),
            None => NO_EXT@,
        }),
{
    match usable_ext(path) {
        Some(e) => to_upper(e),
        None => NO_EXT.to_owned(),
    }
}

/// An extension on the chip has neither a dot nor a separator in it, and the path
/// ends with it.
pub proof fn law_the_extension_holds_no_dot(path: Chars)
    requires
        short_ext(path) is Some,
    ensures
        !(short_ext(path)->0).contains('.'),
        forall|i: int|
            0 <= i < (short_ext(path)->0).len() ==> !grouping::is_separator(
                #[trigger] (short_ext(path)->0)[i],
            ),
        1 <= (short_ext(path)->0).len() <= 5,
        (short_ext(path)->0).is_suffix_of(path),
{
    let start = segment_start(path, path.len() as int);
    let name = last_segment(path);
    lemma_segment_start(path, path.len() as int);
    lemma_no_dot_behind(name, name.len() as int);
    let at = last_dot(name, name.len() as int)->0;
    let e = name.skip(at + 1);
    assert forall|i: int| 0 <= i < e.len() implies e[i] != '.' && !grouping::is_separator(
        #[trigger] e[i],
    ) by {
        assert(e[i] == name[at + 1 + i]);
        assert(name[at + 1 + i] == path[start + at + 1 + i]);
    }
    assert(e =~= path.skip(start + at + 1));
}

/// A name that begins with its only dot, and a name without any, show no
/// extension, whatever folder they stand in.
pub proof fn law_a_dotfile_has_no_extension(folder: Chars, name: Chars)
    requires
        folder.len() > 0 ==> grouping::is_separator(folder.last()),
        forall|i: int| 0 <= i < name.len() ==> !grouping::is_separator(#[trigger] name[i]),
        forall|i: int| 0 < i < name.len() ==> name[i] != '.',
    ensures
        short_ext(folder + name) is None,
{
    let path = folder + name;
    let start = segment_start(path, path.len() as int);
    lemma_segment_start(path, path.len() as int);
    if start < folder.len() {
        assert(grouping::is_separator(path[folder.len() - 1]));
    }
    if start > folder.len() {
        assert(path[start - 1] == name[start - 1 - folder.len()]);
    }
    assert(last_segment(path) =~= name);
    if last_dot(name, name.len() as int) is Some {
        lemma_no_dot_behind(name, name.len() as int);
    }
}

proof fn lemma_no_dot_behind(s: Chars, n: int)
    requires
        0 <= n <= s.len(),
        last_dot(s, n) is Some,
    ensures
        0 <= last_dot(s, n)->0 < n,
        s[last_dot(s, n)->0] == '.',
        forall|i: int| last_dot(s, n)->0 < i < n ==> s[i] != '.',
    decreases n,
{
    if s[n - 1] != '.' {
        lemma_no_dot_behind(s, n - 1);
    }
}

// ---------------------------------------------------------------------------
// The measure
// ---------------------------------------------------------------------------

/// How much of a measure is filled, in ten-thousandths: held between none and
/// all, and none for what is no number.
pub fn measure_frac(frac: Option<i32>) -> (r: u32)
    ensures
        r == (match frac {
            Some(f) => if f <= 0 {
                0
            } else if f >= 10_000 {
                10_000
            } else {
                f as int
            },
            None => 0,
        }),
{
    match frac {
        Some(f) => if f <= 0 {
            0
        } else if f >= 10_000 {
            10_000
        } else {
            f as u32
        },
        None => 0,
    }
}

// ---------------------------------------------------------------------------
// The plate
// ---------------------------------------------------------------------------

/// How a control is being touched.
#[derive(Clone, Copy, PartialEq, Eq, Debug, Structural)]
pub enum Touch {
    /// It cannot be used.
    Disabled,
    /// It is held down.
    Pressed,
    /// The pointer is over it.
    Hovered,
    /// It is at rest.
    Rest,
}

/// How a control is being touched: a press counts before a hover, and neither
/// counts where the control cannot be used.
pub open spec fn touched(enabled: bool, down: bool, hovered: bool) -> Touch {
    if !enabled {
        Touch::Disabled
    } else if down {
        Touch::Pressed
    } else if hovered {
        Touch::Hovered
    } else {
        Touch::Rest
    }
}

/// How a control is being touched.
pub fn touch(enabled: bool, down: bool, hovered: bool) -> (r: Touch)
    ensures
        r == touched(enabled, down, hovered),
{
    if !enabled {
        Touch::Disabled
    } else if down {
        Touch::Pressed
    } else if hovered {
        Touch::Hovered
    } else {
        Touch::Rest
    }
}

/// How the primary plate is drawn.
#[derive(Clone, Copy, PartialEq, Eq, Debug, Structural)]
pub struct PlateLook {
    /// How it is touched, which decides its fill and its edge.
    pub touch: Touch,
    /// Whether the label drops, as under a press.
    pub struck: bool,
    /// Whether the focus ring is drawn.
    pub ringed: bool,
    /// Whether the pointer turns into a hand.
    pub hand: bool,
}

/// How the plate is drawn. A plate that cannot be used shows neither the ring
/// nor the hand.
pub fn plate_look(enabled: bool, down: bool, hovered: bool, focused: bool) -> (r: PlateLook)
    ensures
        r.touch == touched(enabled, down, hovered),
        r.struck == (enabled && down),
        r.ringed == (enabled && focused),
        r.hand == (enabled && hovered),
{
    PlateLook {
        touch: touch(enabled, down, hovered),
        struck: enabled && down,
        ringed: enabled && focused,
        hand: enabled && hovered,
    }
}

/// The contrast that text needs against its ground, in hundredths.
pub const AA_TEXT: u32 = 450;

/// The fill of a plate under the pointer.
#[derive(Clone, Copy, PartialEq, Eq, Debug, Structural)]
pub enum Lift {
    /// The brighter tone.
    Bright,
    /// The resting tone, deepened.
    Deepened,
}

/// The fill of a plate under the pointer: the brighter tone, as long as the
/// label keeps its contrast against it, and else a deeper one.
pub fn lift(contrast: u32) -> (r: Lift)
    ensures
        r == (if contrast >= AA_TEXT {
            Lift::Bright
        } else {
            Lift::Deepened
        }),
{
    if contrast >= AA_TEXT {
        Lift::Bright
    } else {
        Lift::Deepened
    }
}

/// How far the corners of a plate may be cut: half of its shorter side.
pub open spec fn cut_limit(rect: Frame) -> int {
    geometry::larger(
        geometry::lesser(rect.right - rect.left, rect.bottom - rect.top) / 2,
        0,
    )
}

/// How far the corners of a plate are cut: no less than nothing, no more than
/// the plate allows, and not at all for what is no number.
pub open spec fn cut_of(rect: Frame, cut: Option<i64>) -> int {
    match cut {
        Some(c) => if c < 0 {
            0
        } else {
            geometry::lesser(c as int, cut_limit(rect))
        },
        None => 0,
    }
}

/// The outline of a plate: its rectangle with the top right and the bottom left
/// corner cut.
pub fn plate_points(rect: Frame, cut: Option<i64>) -> (r: Vec<Point>)
    requires
        rect.near(),
    ensures
        ({
            let c = cut_of(rect, cut);
            &&& r@.len() == 6
            &&& r@[0] == (Point { x: rect.left, y: rect.top })
            &&& r@[1].x == rect.right - c && r@[1].y == rect.top
            &&& r@[2].x == rect.right && r@[2].y == rect.top + c
            &&& r@[3] == (Point { x: rect.right, y: rect.bottom })
            &&& r@[4].x == rect.left + c && r@[4].y == rect.bottom
            &&& r@[5].x == rect.left && r@[5].y == rect.bottom - c
        }),
        rect.positive() ==> forall|i: int| 0 <= i < 6 ==> rect.holds(#[trigger] r@[i]),
{
    let w: i64 = rect.right - rect.left;
    let h: i64 = rect.bottom - rect.top;
    let side: i64 = min_of(w, h);
    let limit: i64 = if side < 0 {
        0
    } else {
        side / 2
    };
    let c: i64 = match cut {
        Some(v) => if v < 0 {
            0
        } else {
            min_of(v, limit)
        },
        None => 0,
    };
    let mut r: Vec<Point> = Vec::new();
    r.push(Point { x: rect.left, y: rect.top });
    r.push(Point { x: rect.right - c, y: rect.top });
    r.push(Point { x: rect.right, y: rect.top + c });
    r.push(Point { x: rect.right, y: rect.bottom });
    r.push(Point { x: rect.left + c, y: rect.bottom });
    r.push(Point { x: rect.left, y: rect.bottom - c });
    r
}

/// How far a plate's corners are cut: a medium space, but no more than about a
/// third of its height and a quarter of its width.
pub fn plate_cut(width: i64, height: i64) -> (r: i64)
    requires
        -FAR <= width <= FAR,
        -FAR <= height <= FAR,
    ensures
        r == geometry::lesser(
            geometry::lesser(SPACE_M as int, geometry::larger(height as int, 0) * 35 / 100),
            geometry::larger(width as int, 0) / 4,
        ),
{
    let h: i64 = max_of(height, 0);
    let w: i64 = max_of(width, 0);
    min_of(min_of(SPACE_M as i64, h * 35 / 100), w / 4)
}

/// How far the corner of a card is cut: a large space, but no more than the card
/// itself.
pub fn notch(width: i64, height: i64) -> (r: i64)
    ensures
        r == geometry::lesser(
            geometry::lesser(SPACE_L as int, geometry::larger(width as int, 0)),
            geometry::larger(height as int, 0),
        ),
{
    min_of(min_of(SPACE_L as i64, max_of(width, 0)), max_of(height, 0))
}

// ---------------------------------------------------------------------------
// Heights
// ---------------------------------------------------------------------------

/// The height of a ledger figure: the figure, its rule and its name, with air
/// around the rule.
pub fn figure_box(value_h: i64, label_h: i64) -> (r: i64)
    requires
        -FAR <= value_h <= FAR,
        -FAR <= label_h <= FAR,
    ensures
        r == value_h + SPACE_XS + RULE_ACCENT_W + SPACE_XS + label_h,
        r > value_h + label_h,
{
    value_h + SPACE_XS as i64 + RULE_ACCENT_W as i64 + SPACE_XS as i64 + label_h
}

/// The height of a chip: no less than the line its type is set in, and no less
/// than what the type came out at, with a little air.
pub fn chip_box(line_h: i64, galley_h: Option<i64>) -> (r: i64)
    requires
        galley_h is Some ==> (galley_h->0) <= FAR,
    ensures
        r == geometry::larger(
            line_h as int,
            SPACE_XS + match galley_h {
                Some(h) => geometry::larger(h as int, 0),
                None => 0,
            },
        ),
        r >= line_h,
        galley_h is Some ==> r >= (galley_h->0),
{
    let h: i64 = match galley_h {
        Some(h) => max_of(h, 0),
        None => 0,
    };
    max_of(line_h, h + SPACE_XS as i64)
}

/// The height of a plate: its type with padding above and below, and no less
/// than the line it is set in.
pub fn plate_box(nominal: i64, line_h: i64) -> (r: i64)
    requires
        -FAR <= nominal <= FAR,
    ensures
        r == geometry::larger(nominal + 2 * SPACE_M, line_h as int),
        r >= line_h,
{
    max_of(nominal + 2 * SPACE_M as i64, line_h)
}

/// The height of the two lines of an empty page, with the air between them.
pub fn empty_block_h(title_h: i64, hint_h: i64) -> (r: i64)
    requires
        -FAR <= title_h <= FAR,
        -FAR <= hint_h <= FAR,
    ensures
        r == title_h + SPACE_M + hint_h,
        r > title_h + hint_h,
{
    title_h + SPACE_M as i64 + hint_h
}

/// The height of an empty page: four rows, or its two lines with padding above
/// and below.
pub fn empty_state_h(block: i64, row: i64, pad: i64) -> (r: i64)
    requires
        -FAR <= block <= FAR,
        -FAR <= row <= FAR,
        -FAR <= pad <= FAR,
    ensures
        r == geometry::larger(4 * row, block + 2 * pad),
{
    max_of(4 * row, block + 2 * pad)
}

/// The measured part of a measure.
#[derive(Clone, Copy, PartialEq, Eq, Debug, Structural)]
pub struct Band {
    /// Its width.
    pub w: i64,
    /// Its height.
    pub h: i64,
}

/// The measured part of a measure of that size, if any of it is drawn: never
/// narrower than the rule that stops it. A measure that is too small to be ruled
/// draws none.
pub fn measured(width: i64, height: i64, frac: Option<i32>) -> (r: Option<Band>)
    requires
        width <= FAR,
        height <= FAR,
    ensures
        r is Some <==> width >= 400 && height >= 300 && frac is Some && (frac->0) > 0,
        r is Some ==> {
            let f = geometry::lesser((frac->0) as int, 10_000);
            &&& (r->0).w == geometry::larger(width * f / 10_000, RULE_ACCENT_W as int)
            &&& (r->0).h == geometry::larger(height - RULE_W, 100)
        },
{
    if width < 400 || height < 300 {
        return None;
    }
    let f: u32 = measure_frac(frac);
    if f == 0 {
        return None;
    }
    proof {
        assert(0 <= width * f <= 1_000_000_000_000 * 10_000) by (nonlinear_arith)
            requires
                0 <= width <= 1_000_000_000_000,
                0 <= f <= 10_000,
        ;
    }
    Some(
        Band {
            w: max_of(width * f as i64 / 10_000, RULE_ACCENT_W as i64),
            h: max_of(height - RULE_W as i64, 100),
        },
    )
}

/// The outline of a block with its top right corner cut back by its notch.
pub fn notched_points(rect: Frame) -> (r: Vec<Point>)
    requires
        rect.near(),
    ensures
        ({
            let n = geometry::lesser(
                geometry::lesser(SPACE_L as int, geometry::larger(rect.right - rect.left, 0)),
                geometry::larger(rect.bottom - rect.top, 0),
            );
            &&& r@.len() == 5
            &&& r@[0] == (Point { x: rect.left, y: rect.top })
            &&& r@[1].x == rect.right - n && r@[1].y == rect.top
            &&& r@[2].x == rect.right && r@[2].y == rect.top + n
            &&& r@[3] == (Point { x: rect.right, y: rect.bottom })
            &&& r@[4] == (Point { x: rect.left, y: rect.bottom })
        }),
        rect.positive() ==> forall|i: int| 0 <= i < 5 ==> rect.holds(#[trigger] r@[i]),
{
    let n: i64 = notch(rect.right - rect.left, rect.bottom - rect.top);
    let mut r: Vec<Point> = Vec::new();
    r.push(Point { x: rect.left, y: rect.top });
    r.push(Point { x: rect.right - n, y: rect.top });
    r.push(Point { x: rect.right, y: rect.top + n });
    r.push(Point { x: rect.right, y: rect.bottom });
    r.push(Point { x: rect.left, y: rect.bottom });
    r
}

/// The extension of a file is what stands behind the last dot of its name, where
/// that is one to five characters and something stands in front of the dot.
pub proof fn law_the_extension_stands_behind_the_last_dot(folder: Chars, stem: Chars, ext: Chars)
    requires
        folder.len() > 0 ==> folder.last() == '/' || folder.last() == '\\',
        stem.len() > 0,
        forall|i: int| 0 <= i < stem.len() ==> (#[trigger] stem[i]) != '/' && stem[i] != '\\',
        forall|i: int|
            0 <= i < ext.len() ==> (#[trigger] ext[i]) != '/' && ext[i] != '\\' && ext[i] != '.',
    ensures
        1 <= ext.len() <= 5 ==> short_ext(folder + stem + seq!['.'] + ext) == Some(ext),
        ext.len() == 0 || ext.len() > 5 ==> short_ext(folder + stem + seq!['.'] + ext) is None,
{
    let name = stem + seq!['.'] + ext;
    let path = folder + stem + seq!['.'] + ext;
    assert(path =~= folder + name);
    assert forall|i: int| 0 <= i < name.len() implies !grouping::is_separator(#[trigger] name[i]) by {
        if i < stem.len() {
            assert(name[i] == stem[i]);
        } else if i > stem.len() {
            assert(name[i] == ext[i - stem.len() - 1]);
        }
    }
    lemma_segment_cut(folder, name, path.len() as int);
    assert(path.skip(folder.len() as int) =~= name);
    lemma_dot_cut(name, stem.len() as int, name.len() as int);
    assert(name.skip(stem.len() as int + 1) =~= ext);
}

proof fn lemma_segment_cut(folder: Chars, name: Chars, n: int)
    requires
        folder.len() > 0 ==> grouping::is_separator(folder.last()),
        forall|i: int| 0 <= i < name.len() ==> !grouping::is_separator(#[trigger] name[i]),
        folder.len() <= n <= folder.len() + name.len(),
    ensures
        segment_start(folder + name, n) == folder.len(),
    decreases n,
{
    let path = folder + name;
    if n > folder.len() {
        assert(path[n - 1] == name[n - 1 - folder.len()]);
        lemma_segment_cut(folder, name, n - 1);
    } else if n > 0 {
        assert(path[n - 1] == folder.last());
    }
}

proof fn lemma_dot_cut(name: Chars, at: int, n: int)
    requires
        0 <= at < n <= name.len(),
        name[at] == '.',
        forall|i: int| at < i < name.len() ==> name[i] != '.',
    ensures
        last_dot(name, n) == Some(at),
    decreases n,
{
    if n - 1 > at {
        lemma_dot_cut(name, at, n - 1);
    }
}

/// A chip shows the extension in capitals, or that there is none.
pub proof fn law_a_chip_shows_the_extension(path: &str, r: String)
    requires
        call_ensures(chip_ext, (path,), r),
    ensures
        short_ext(path@) is Some ==> r@ == uppercase(short_ext(path@)->0),
        short_ext(path@) is None ==> r@ == NO_EXT@,
{
}

/// A control that is off answers to nothing; one that is on is pressed before it
/// is hovered, and at rest only when it is neither.
pub proof fn law_a_control_answers_only_while_it_is_on(
    enabled: bool,
    down: bool,
    hovered: bool,
    focused: bool,
    t: Touch,
    look: PlateLook,
)
    requires
        call_ensures(touch, (enabled, down, hovered), t),
        call_ensures(plate_look, (enabled, down, hovered, focused), look),
    ensures
        t == Touch::Disabled <==> !enabled,
        t == Touch::Pressed <==> enabled && down,
        t == Touch::Hovered <==> enabled && !down && hovered,
        t == Touch::Rest <==> enabled && !down && !hovered,
        look.touch == t,
        look.struck <==> enabled && down,
        look.ringed <==> enabled && focused,
        look.hand <==> enabled && hovered,
{
}

/// A fraction is held between nothing and the whole.
pub proof fn law_a_measure_is_held_in_its_range(frac: Option<i32>, r: u32)
    requires
        call_ensures(measure_frac, (frac,), r),
    ensures
        r <= 10_000,
        frac is Some && 0 <= frac->0 <= 10_000 ==> r == frac->0,
        frac is Some && frac->0 < 0 ==> r == 0,
        frac is Some && frac->0 > 10_000 ==> r == 10_000,
        frac is None ==> r == 0,
{
}

/// A band grows with its fraction, never beyond its own width but for the rule
/// that it shows at least.
pub proof fn law_a_band_grows_with_its_fraction(
    width: i64,
    height: i64,
    less: i32,
    more: i32,
    a: Option<Band>,
    b: Option<Band>,
)
    requires
        call_ensures(measured, (width, height, Some(less)), a),
        call_ensures(measured, (width, height, Some(more)), b),
        0 < less <= more,
        width >= 400,
        height >= 300,
        width <= FAR,
        height <= FAR,
    ensures
        a is Some && b is Some,
        (a->0).w <= (b->0).w,
        more >= 10_000 ==> (b->0).w == geometry::larger(width as int, RULE_ACCENT_W as int),
{
    let f = geometry::lesser(less as int, 10_000);
    let g = geometry::lesser(more as int, 10_000);
    if more >= 10_000 {
        assert(width * g == width * 10_000) by (nonlinear_arith)
            requires
                g == 10_000,
        ;
    }
    assert(width * f <= width * g) by (nonlinear_arith)
        requires
            f <= g,
            width >= 0,
    ;
}

/// A plate has its two cut corners, never cut further than half its lesser side.
pub proof fn law_a_cut_never_passes_the_middle(rect: Frame, cut: i64)
    requires
        rect.left < rect.right,
        rect.top < rect.bottom,
    ensures
        0 <= cut_of(rect, Some(cut)),
        2 * cut_of(rect, Some(cut)) <= rect.right - rect.left,
        2 * cut_of(rect, Some(cut)) <= rect.bottom - rect.top,
        0 <= cut && 2 * cut <= rect.right - rect.left && 2 * cut <= rect.bottom - rect.top ==> cut_of(
            rect,
            Some(cut),
        ) == cut,
        cut < 0 ==> cut_of(rect, Some(cut)) == 0,
        cut_of(rect, None) == 0,
{
}

/// Text is brightened where that keeps a contrast of 4.5, and deepened else.
pub proof fn law_contrast_decides_the_lift(contrast: u32, r: Lift)
    requires
        call_ensures(lift, (contrast,), r),
    ensures
        r == Lift::Bright <==> contrast >= 450,
        r == Lift::Deepened <==> contrast < 450,
{
}

/// A plate clears its type by eight points on either side, and is never lower than
/// its line.
pub proof fn law_a_plate_clears_its_type(nominal: i64, line_h: i64, r: i64)
    requires
        call_ensures(plate_box, (nominal, line_h), r),
        -FAR <= nominal <= FAR,
    ensures
        r >= nominal + 1_600,
        r >= line_h,
        r == nominal + 1_600 || r == line_h,
{
}

/// A corner is cut by eight points, or less where the plate is small: by no more
/// than 35 hundredths of its height and a quarter of its width.
pub proof fn law_a_small_plate_is_cut_less(width: i64, height: i64, r: i64)
    requires
        call_ensures(plate_cut, (width, height), r),
        0 <= width <= FAR,
        0 <= height <= FAR,
    ensures
        r <= 800 && 100 * r <= 35 * height && 4 * r <= width,
        35 * height >= 80_000 && width >= 3_200 ==> r == 800,
{
}

/// A notch is twelve points, or as much as the card has.
pub proof fn law_a_notch_fits_its_card(width: i64, height: i64, r: i64)
    requires
        call_ensures(notch, (width, height), r),
    ensures
        0 <= r <= 1_200,
        width >= 1_200 && height >= 1_200 ==> r == 1_200,
        0 <= width < 1_200 && width <= height ==> r == width,
        0 <= height < 1_200 && height <= width ==> r == height,
{
}

/// An empty page is four rows high, or as high as its words and their padding.
pub proof fn law_an_empty_page_holds_its_words(block: i64, row: i64, pad: i64, r: i64)
    requires
        call_ensures(empty_state_h, (block, row, pad), r),
        -FAR <= block <= FAR,
        -FAR <= row <= FAR,
        -FAR <= pad <= FAR,
    ensures
        r >= 4 * row && r >= block + 2 * pad,
        r == 4 * row || r == block + 2 * pad,
{
}

} // verus!
