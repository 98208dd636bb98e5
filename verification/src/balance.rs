//! The conflict scales: two copies are weighed, and the reader must decide which
//! bytes live.
//!
//! Lengths are in hundredths of a point.

use crate::a11y::{self, clause, spoken_size, SCALE_MAX, SCALE_MIN};
use crate::geometry::{self, max_of, min_of, Point, FAR};
use crate::register::{self, line_h};
use crate::text::{self, join, Chars};
use crate::theme::{SPACE_L, SPACE_M, SPACE_S, STEP_META};
use vstd::prelude::*;

verus! {

/// What the figure is called.
pub const LEAD: &'static str = "scales weighing two copies";

/// The verdict when neither pan sinks.
pub const LEVEL: &'static str = "both sides weigh the same";

/// One pan of the scales: what it holds and how it reads.
#[derive(Clone, Copy, Debug)]
pub struct Side<'a> {
    /// A short label.
    pub title: &'a str,
    /// The bytes this side holds.
    pub size: u64,
    /// The same, already written out.
    pub size_text: &'a str,
    /// When this side came to be, already written out.
    pub when: &'a str,
    /// One short clause of context.
    pub note: &'a str,
}

/// Which pan sinks.
#[derive(Clone, Copy, PartialEq, Eq, Debug, Structural)]
pub enum Verdict {
    /// The left one.
    Left,
    /// The right one.
    Right,
    /// Neither.
    Level,
}

/// Which pan sinks: the heavier one.
pub open spec fn verdict_of(left: nat, right: nat) -> Verdict {
    if left > right {
        Verdict::Left
    } else if left < right {
        Verdict::Right
    } else {
        Verdict::Level
    }
}

/// Which pan sinks.
pub fn verdict(left: u64, right: u64) -> (r: Verdict)
    ensures
        r == verdict_of(left as nat, right as nat),
{
    if left > right {
        Verdict::Left
    } else if left < right {
        Verdict::Right
    } else {
        Verdict::Level
    }
}

/// Swapping the pans swaps the verdict.
pub proof fn law_the_verdict_is_fair(left: nat, right: nat)
    ensures
        verdict_of(left, right) == Verdict::Left <==> verdict_of(right, left) == Verdict::Right,
        verdict_of(left, right) == Verdict::Level <==> left == right,
{
}

/// Which way the beam leans: a side counts for no less than one byte.
pub open spec fn leaning(left: nat, right: nat) -> Verdict {
    verdict_of(geometry::larger(left as int, 1) as nat, geometry::larger(right as int, 1) as nat)
}

/// Which way the beam leans. It is coarser than what is said, since nothing
/// against one byte is drawn level.
pub fn lean(left: u64, right: u64) -> (r: Verdict)
    ensures
        r == leaning(left as nat, right as nat),
{
    verdict(
        if left < 1 {
            1
        } else {
            left
        },
        if right < 1 {
            1
        } else {
            right
        },
    )
}

/// The beam never leans against the spoken verdict.
pub proof fn law_the_beam_never_contradicts_the_verdict(left: nat, right: nat)
    ensures
        leaning(left, right) == verdict_of(left, right) || leaning(left, right) == Verdict::Level,
        left == right ==> leaning(left, right) == Verdict::Level,
{
}

/// One pan in words.
pub open spec fn side_text(s: Side<'_>) -> Chars {
    a11y::clause_of(seq![s.title@, a11y::spoken_size_text(s.size_text@), s.when@, s.note@])
}

/// One pan in words: what it is, what it weighs, when it came to be, and its
/// context. What is missing drops out.
pub fn side_phrase(side: &Side<'_>) -> (r: String)
    ensures
        r@ == side_text(*side),
{
    let mut parts: Vec<String> = Vec::new();
    parts.push(side.title.to_owned());
    parts.push(spoken_size(side.size_text));
    parts.push(side.when.to_owned());
    parts.push(side.note.to_owned());
    proof {
        assert(a11y::all_said(parts@) =~= seq![
            side.title@,
            a11y::spoken_size_text(side.size_text@),
            side.when@,
            side.note@,
        ]);
    }
    clause(parts.as_slice())
}

/// The verdict in words.
pub open spec fn verdict_text(left: Side<'_>, right: Side<'_>) -> Chars {
    match verdict_of(left.size as nat, right.size as nat) {
        Verdict::Left => left.title@ + " is heavier"@,
        Verdict::Right => right.title@ + " is heavier"@,
        Verdict::Level => LEVEL@,
    }
}

/// Those of the parts that are not empty.
pub open spec fn filled(parts: Seq<Chars>) -> Seq<Chars> {
    parts.filter(|p: Chars| p.len() > 0)
}

/// The scales in words.
pub open spec fn scales_text(left: Side<'_>, right: Side<'_>) -> Chars {
    LEAD@ + ": "@ + text::joined(
        filled(seq![side_text(left), side_text(right), verdict_text(left, right)]),
        "; "@,
    )
}

/// The sentence the scales announce: both pans, then which one sank.
pub fn scales_sentence(left: &Side<'_>, right: &Side<'_>) -> (r: String)
    ensures
        r@ == scales_text(*left, *right),
{
    let said: String = match verdict(left.size, right.size) {
        Verdict::Left => {
            let mut s: String = left.title.to_owned();
            s.append(" is heavier");
            s
        },
        Verdict::Right => {
            let mut s: String = right.title.to_owned();
            s.append(" is heavier");
            s
        },
        Verdict::Level => LEVEL.to_owned(),
    };
    let first: String = side_phrase(left);
    let second: String = side_phrase(right);
    let ghost all = seq![side_text(*left), side_text(*right), verdict_text(*left, *right)];
    let mut parts: Vec<String> = Vec::new();
    if !first.as_str().is_empty() {
        parts.push(first);
    }
    if !second.as_str().is_empty() {
        parts.push(second);
    }
    if !said.as_str().is_empty() {
        parts.push(said);
    }
    proof {
        reveal_with_fuel(Seq::<_>::filter, 4);
        let p = |c: Chars| c.len() > 0;
        let two = all.drop_last();
        let one = two.drop_last();
        assert(one.drop_last() =~= Seq::<Chars>::empty());
        assert(all.last() == verdict_text(*left, *right));
        assert(two.last() == side_text(*right));
        assert(one.last() == side_text(*left));
        assert(text::texts(parts@) =~= filled(all));
    }
    let mut r: String = LEAD.to_owned();
    r.append(": ");
    r.append(join(&parts, "; ").as_str());
    r
}

// ---------------------------------------------------------------------------
// The figure
// ---------------------------------------------------------------------------

/// How far below the top the beam pivots.
pub const PIVOT_Y: i32 = 4_600;

/// How far an end of the beam may dip.
pub const MAX_DIP: i32 = 900;

/// How long the hanger of a pan is.
pub const HANGER: i32 = 1_600;

/// How deep a pan is.
pub const PAN_BOWL: i32 = 900;

/// Half of the width of a pan.
pub const PAN_HALF: i32 = 2_200;

/// How high the stand is.
pub const STAND_H: i32 = 3_200;

/// How far the end of the beam is held back from the edge of the figure.
pub const BEAM_INSET: i32 = 7_000;

/// The narrowest figure.
pub const MIN_W: i32 = 28_000;

/// The shortest half of a beam.
pub const BEAM_MIN: i64 = 6_000;

/// The longest half of a beam.
pub const BEAM_MAX: i64 = 20_000;

/// The height of a card: its title, its line and its note, with air around them.
pub fn card_h(title_h: i64, meta_h: i64, note_h: i64) -> (r: i64)
    requires
        -FAR <= title_h <= FAR,
        -FAR <= meta_h <= FAR,
        -FAR <= note_h <= FAR,
    ensures
        r == SPACE_M + title_h + SPACE_S + meta_h + SPACE_S + note_h + SPACE_M,
        r > title_h + meta_h + note_h,
{
    SPACE_M as i64 + title_h + SPACE_S as i64 + meta_h + SPACE_S as i64 + note_h + SPACE_M as i64
}

/// How far down the apparatus draws, with a caption of that height under the
/// pan that sinks lowest.
pub open spec fn lowest_ink(caption_h: int) -> int {
    geometry::larger(
        PIVOT_Y + MAX_DIP + HANGER + PAN_BOWL + SPACE_S + caption_h,
        PIVOT_Y + STAND_H,
    )
}

/// The height of everything above the cards.
pub fn apparatus_h(caption_h: i64) -> (r: i64)
    requires
        -FAR <= caption_h <= FAR,
    ensures
        r == lowest_ink(caption_h as int) + SPACE_M,
{
    let caption: i64 = PIVOT_Y as i64 + MAX_DIP as i64 + HANGER as i64 + PAN_BOWL as i64
        + SPACE_S as i64 + caption_h;
    max_of(caption, PIVOT_Y as i64 + STAND_H as i64) + SPACE_M as i64
}

/// How far the end of the beam is held back: by its margin, or by what the pan
/// and the weight under it need.
pub open spec fn inset_of(caption_w: int) -> int {
    geometry::larger(
        BEAM_INSET as int,
        geometry::larger(PAN_HALF as int, caption_w / 2) + SPACE_M,
    )
}

/// How far the end of the beam is held back from the edge of the figure.
pub fn beam_inset(caption_w: i64) -> (r: i64)
    requires
        -FAR <= caption_w <= FAR,
    ensures
        r == inset_of(caption_w as int),
{
    let half: i64 = if caption_w < 0 {
        0
    } else {
        caption_w / 2
    };
    max_of(BEAM_INSET as i64, max_of(PAN_HALF as i64, half) + SPACE_M as i64)
}

/// Half of the length of the beam in a figure of that width.
pub fn beam_half(width: i64, caption_w: i64) -> (r: i64)
    requires
        0 <= width <= FAR,
        -FAR <= caption_w <= FAR,
    ensures
        r == geometry::larger(
            geometry::lesser(width / 2 - inset_of(caption_w as int), BEAM_MAX as int),
            BEAM_MIN as int,
        ),
{
    max_of(min_of(width / 2 - beam_inset(caption_w), BEAM_MAX), BEAM_MIN)
}

/// The cards start below everything that the apparatus draws, however large the
/// caption is.
pub proof fn law_the_cards_start_below_the_apparatus(caption_h: int)
    ensures
        lowest_ink(caption_h) + SPACE_M > PIVOT_Y + MAX_DIP + HANGER + PAN_BOWL + SPACE_S
            + caption_h,
        lowest_ink(caption_h) + SPACE_M > PIVOT_Y + STAND_H,
{
}

/// The weight under a pan stays inside the figure.
pub proof fn law_the_beam_yields_to_its_caption(caption_w: int)
    requires
        caption_w >= 0,
    ensures
        inset_of(caption_w) >= caption_w / 2,
        inset_of(caption_w) >= PAN_HALF,
        inset_of(caption_w) >= BEAM_INSET,
        caption_w / 2 + SPACE_M <= BEAM_INSET ==> inset_of(caption_w) == BEAM_INSET,
{
}

// ---------------------------------------------------------------------------
// The whole figure
// ---------------------------------------------------------------------------

/// The measures of one side's lines, once they are laid out.
#[derive(Clone, Copy, Debug)]
pub struct CardLines {
    /// The height of its title.
    pub title_h: u32,
    /// The width of its size.
    pub size_w: u32,
    /// The height of its size.
    pub size_h: u32,
    /// The height of its time.
    pub when_h: u32,
    /// The height of its wrapped note.
    pub note_h: u32,
    /// The width of the weight under its pan.
    pub weight_w: u32,
}

impl CardLines {
    /// The height of the line with the size and the time.
    pub open spec fn meta_h(self) -> int {
        geometry::larger(self.size_h as int, self.when_h as int)
    }

    /// The height of the card around the lines.
    pub open spec fn height(self) -> int {
        SPACE_M + self.title_h + SPACE_S + self.meta_h() + SPACE_S + self.note_h + SPACE_M
    }
}

/// The widths of the figure, before anything is laid out in it.
#[derive(Clone, Copy, PartialEq, Eq, Debug, Structural)]
pub struct FigureBox {
    /// The whole.
    pub w: i64,
    /// Each of its two cards.
    pub card_w: i64,
    /// The note on a card.
    pub wrap: i64,
}

/// The width of the figure where that much is free.
pub open spec fn figure_w(avail: int) -> int {
    geometry::larger(avail, MIN_W as int)
}

/// The width of each of the two cards of a figure.
pub open spec fn card_of(w: int) -> int {
    (w - 3 * SPACE_L) / 2
}

/// The widths of the figure where that much is free: two cards with a large space
/// between and beside them.
pub fn figure_box(avail: i64) -> (r: FigureBox)
    requires
        avail <= FAR,
    ensures
        r.w == figure_w(avail as int),
        r.card_w == card_of(r.w as int),
        r.wrap == geometry::larger(r.card_w - 2 * SPACE_L, SPACE_L as int),
{
    let w: i64 = max_of(avail, MIN_W as i64);
    let card_w: i64 = (w - 3 * SPACE_L as i64) / 2;
    FigureBox { w, card_w, wrap: max_of(card_w - 2 * SPACE_L as i64, SPACE_L as i64) }
}

/// The figure, ready to be drawn.
#[derive(Clone, Copy, PartialEq, Eq, Debug, Structural)]
pub struct Figure {
    /// How high the part above the cards is.
    pub apparatus: i64,
    /// How high the whole is.
    pub height: i64,
    /// Half the length of the beam.
    pub half: i64,
    /// Where the left card starts.
    pub left_x: i64,
    /// Where the right card starts.
    pub right_x: i64,
}

/// Sets the figure: the apparatus with the weight under the sinking pan, and
/// below it the two cards, both as high as the taller one needs.
pub fn scales(avail: i64, left: &CardLines, right: &CardLines, scale: i32) -> (r: Figure)
    requires
        avail <= FAR,
        SCALE_MIN <= scale <= SCALE_MAX,
    ensures
        ({
            let w = figure_w(avail as int);
            let caption = geometry::larger(left.weight_w as int, right.weight_w as int);
            &&& r.apparatus == lowest_ink(register::line_of(STEP_META as int, scale as int))
                + SPACE_M
            &&& r.height == r.apparatus + geometry::larger(left.height(), right.height())
            &&& r.half == geometry::larger(
                geometry::lesser(w / 2 - inset_of(caption), BEAM_MAX as int),
                BEAM_MIN as int,
            )
            &&& r.left_x == SPACE_L
            &&& r.right_x == w - SPACE_L - card_of(w)
        }),
{
    let b: FigureBox = figure_box(avail);
    proof {
        assert(0 <= STEP_META * scale <= 1_150 * 22_000) by (nonlinear_arith)
            requires
                STEP_META == 1_150,
                0 <= scale <= 22_000,
        ;
    }
    let apparatus: i64 = apparatus_h(line_h(STEP_META, scale));
    let l: i64 = card_h(
        left.title_h as i64,
        max_of(left.size_h as i64, left.when_h as i64),
        left.note_h as i64,
    );
    let r: i64 = card_h(
        right.title_h as i64,
        max_of(right.size_h as i64, right.when_h as i64),
        right.note_h as i64,
    );
    let caption: i64 = max_of(left.weight_w as i64, right.weight_w as i64);
    Figure {
        apparatus,
        height: apparatus + max_of(l, r),
        half: beam_half(b.w, caption),
        left_x: SPACE_L as i64,
        right_x: b.w - SPACE_L as i64 - b.card_w,
    }
}

/// The two cards stand a large space apart, and each is wider than nothing.
pub proof fn law_the_cards_stand_apart(avail: int)
    ensures
        ({
            let w = figure_w(avail);
            &&& card_of(w) > 0
            &&& SPACE_L + card_of(w) + SPACE_L <= w - SPACE_L - card_of(w)
        }),
{
}

/// Where the lines of a card stand.
#[derive(Clone, Copy, Debug)]
pub struct CardWalk {
    /// Where they start, from the left.
    pub x: i64,
    /// The top of the title.
    pub title_y: i64,
    /// The top of the size and the time.
    pub meta_y: i64,
    /// The diamond between them, where both are there.
    pub diamond: Option<Point>,
    /// Where the time starts.
    pub when_x: i64,
    /// The top of the note.
    pub note_y: i64,
}

/// Walks down a card from its upper left corner. A size that is missing leaves its
/// room to the time, and there is a diamond only between two of them.
pub fn side_card(
    left: i64,
    top: i64,
    lines: &CardLines,
    has_size: bool,
    has_when: bool,
) -> (r: CardWalk)
    requires
        -FAR <= left <= FAR,
        -FAR <= top <= FAR,
    ensures
        r.x == left + SPACE_L,
        r.title_y == top + SPACE_M,
        r.meta_y == r.title_y + lines.title_h + SPACE_S,
        r.note_y == r.meta_y + lines.meta_h() + SPACE_S,
        r.diamond is Some <==> has_size && has_when,
        r.diamond is Some ==> (r.diamond->0).x == r.x + lines.size_w + SPACE_M && (r.diamond->0).y
            == r.meta_y + lines.meta_h() / 2,
        r.when_x == r.x + (if !has_size {
            0
        } else if has_when {
            lines.size_w + 2 * SPACE_M
        } else {
            lines.size_w + SPACE_M
        }),
        r.note_y + lines.note_h + SPACE_M == top + lines.height(),
{
    let meta_h: i64 = max_of(lines.size_h as i64, lines.when_h as i64);
    let x: i64 = left + SPACE_L as i64;
    let title_y: i64 = top + SPACE_M as i64;
    let meta_y: i64 = title_y + lines.title_h as i64 + SPACE_S as i64;
    let behind: i64 = x + lines.size_w as i64 + SPACE_M as i64;
    let diamond: Option<Point> = if has_size && has_when {
        Some(Point { x: behind, y: meta_y + meta_h / 2 })
    } else {
        None
    };
    let when_x: i64 = if !has_size {
        x
    } else if has_when {
        behind + SPACE_M as i64
    } else {
        behind
    };
    CardWalk { x, title_y, meta_y, diamond, when_x, note_y: meta_y + meta_h + SPACE_S as i64 }
}

/// The larger size is the heavier side.
pub proof fn law_the_heavier_side_is_named(left: u64, right: u64, v: Verdict, beam: Verdict)
    requires
        call_ensures(verdict, (left, right), v),
        call_ensures(lean, (left, right), beam),
    ensures
        v == Verdict::Left <==> left > right,
        v == Verdict::Right <==> left < right,
        v == Verdict::Level <==> left == right,
        beam == Verdict::Left <==> left > right && left > 1,
        beam == Verdict::Right <==> right > left && right > 1,
{
}

/// The scales speak of both sides, left first, and close with the heavier one's
/// title, or with both weighing the same.
pub proof fn law_the_scales_tell_both_sides(left: Side<'_>, right: Side<'_>)
    requires
        side_text(left).len() > 0,
        side_text(right).len() > 0,
    ensures
        ({
            let closing = if left.size > right.size {
                left.title@ + " is heavier"@
            } else if left.size < right.size {
                right.title@ + " is heavier"@
            } else {
                "both sides weigh the same"@
            };
            scales_text(left, right) == "scales weighing two copies: "@ + (side_text(left) + "; "@
                + (side_text(right) + "; "@ + closing))
        }),
{
    lemma_verdict_says_something(left, right);
    lemma_scales_of(side_text(left), side_text(right), verdict_text(left, right));
}

proof fn lemma_verdict_says_something(left: Side<'_>, right: Side<'_>)
    ensures
        verdict_text(left, right).len() > 0,
{
    reveal_strlit(" is heavier");
    reveal_strlit("both sides weigh the same");
}

proof fn lemma_scales_of(a: Chars, b: Chars, c: Chars)
    requires
        a.len() > 0,
        b.len() > 0,
        c.len() > 0,
    ensures
        LEAD@ + ": "@ == "scales weighing two copies: "@,
        text::joined(filled(seq![a, b, c]), "; "@) == a + "; "@ + (b + "; "@ + c),
{
    lemma_all_filled(seq![a, b, c]);
    lemma_three_joined(a, b, c, "; "@);
    lemma_lead_and_colon();
}

proof fn lemma_lead_and_colon()
    ensures
        LEAD@ + ": "@ == "scales weighing two copies: "@,
{
    reveal_strlit("scales weighing two copies");
    reveal_strlit("scales weighing two copies: ");
    reveal_strlit(": ");
}

proof fn lemma_three_joined(a: Chars, b: Chars, c: Chars, sep: Chars)
    ensures
        text::joined(seq![a, b, c], sep) == a + sep + (b + sep + c),
{
    let bc = seq![b, c];
    text::law_joins_put_one_separator_between(seq![a], bc, sep);
    text::law_joins_put_one_separator_between(seq![b], seq![c], sep);
    text::law_joins_put_one_separator_between(seq![c], seq![a], sep);
    assert(seq![a] + bc =~= seq![a, b, c]);
    assert(seq![b] + seq![c] =~= bc);
}

proof fn lemma_all_filled(parts: Seq<Chars>)
    requires
        forall|i: int| 0 <= i < parts.len() ==> (#[trigger] parts[i]).len() > 0,
    ensures
        filled(parts) == parts,
    decreases parts.len(),
{
    reveal(Seq::filter);
    if parts.len() > 0 {
        lemma_all_filled(parts.drop_last());
        assert(parts =~= parts.drop_last().push(parts.last()));
    }
}

/// A side is told by its title, its size spelled out, its time and its note, in
/// that order, what is blank left out.
pub proof fn law_a_side_is_told_in_order(s: Side<'_>)
    ensures
        text::trimmed(s.title@).len() > 0 && text::trimmed(
            a11y::spoken_size_text(s.size_text@),
        ).len() > 0 && text::trimmed(s.when@).len() > 0 && text::trimmed(s.note@).len() > 0
            ==> side_text(s) == text::trimmed(s.title@) + ", "@ + text::trimmed(
            a11y::spoken_size_text(s.size_text@),
        ) + ", "@ + text::trimmed(s.when@) + ", "@ + text::trimmed(s.note@),
{
    let t = seq![s.title@];
    let z = seq![a11y::spoken_size_text(s.size_text@)];
    let w = seq![s.when@];
    let n = seq![s.note@];
    a11y::law_every_part_is_said_in_order(t, z);
    a11y::law_every_part_is_said_in_order(z, t);
    a11y::law_every_part_is_said_in_order(t + z, w);
    a11y::law_every_part_is_said_in_order(w, t);
    a11y::law_every_part_is_said_in_order(t + z + w, n);
    a11y::law_every_part_is_said_in_order(n, t);
    assert(t + z + w + n =~= seq![
        s.title@,
        a11y::spoken_size_text(s.size_text@),
        s.when@,
        s.note@,
    ]);
}

/// A side with nothing to say is left out, and the verdict still told.
pub proof fn law_a_silent_side_is_left_out(left: Side<'_>, right: Side<'_>)
    requires
        side_text(left).len() == 0,
        side_text(right).len() == 0,
    ensures
        scales_text(left, right) == "scales weighing two copies: "@ + verdict_text(left, right),
{
    lemma_verdict_says_something(left, right);
    lemma_lead_and_colon();
    let v = verdict_text(left, right);
    reveal(Seq::filter);
    let s0 = Seq::<Chars>::empty();
    let s1 = s0.push(side_text(left));
    let s2 = s1.push(side_text(right));
    let s3 = s2.push(v);
    assert(seq![side_text(left), side_text(right), v] =~= s3);
    assert(s3.drop_last() =~= s2 && s2.drop_last() =~= s1 && s1.drop_last() =~= s0);
    assert(filled(s0) =~= s0);
    assert(filled(s1) =~= s0);
    assert(filled(s2) =~= s0);
    assert(filled(s3) =~= seq![v]);
}

/// The two cards share the width of the figure, with an equal space beside and
/// between them.
pub proof fn law_the_cards_share_the_width(avail: i64, r: FigureBox)
    requires
        call_ensures(figure_box, (avail,), r),
        avail <= FAR,
    ensures
        r.w >= avail && r.w >= 28_000 && (r.w == avail || r.w == 28_000),
        0 <= r.w - 2 * r.card_w - 3 * 1_200 <= 1,
{
}

/// A beam reaches half the width less its inset, but never less than 60 points nor
/// more than 200.
pub proof fn law_a_beam_keeps_its_reach(width: i64, caption_w: i64, r: i64)
    requires
        call_ensures(beam_half, (width, caption_w), r),
        0 <= width <= FAR,
        -FAR <= caption_w <= FAR,
    ensures
        6_000 <= r <= 20_000,
        6_000 <= width / 2 - inset_of(caption_w as int) <= 20_000 ==> r == width / 2 - inset_of(
            caption_w as int,
        ),
{
}

} // verus!
