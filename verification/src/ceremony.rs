//! The invite ticket. Lengths are in hundredths of a point.

use crate::a11y::{self, sentence};
use crate::geometry::{self, max_of, mid_of, min_of, Frame, Point, FAR};
use crate::text::{self, trim, Chars};
use vstd::prelude::*;

verus! {

/// What the ticket is called.
pub const TICKET_LEAD: &'static str = "invite ticket";

/// The stub in words.
pub const TICKET_QR: &'static str = "QR code on the stub";

/// A card without a ticket.
pub const TICKET_NONE: &'static str = "invite ticket, none yet";

/// The ticket in words.
pub open spec fn ticket_text(ticket: Chars, has_qr: bool) -> Chars {
    let t = text::trimmed(ticket);
    if t.len() == 0 {
        TICKET_NONE@
    } else {
        a11y::sentence_of(
            TICKET_LEAD@,
            if has_qr {
                seq![t, TICKET_QR@]
            } else {
                seq![t]
            },
        )
    }
}

/// The sentence the ticket announces: the ticket itself, then the stub.
pub fn ticket_sentence(ticket: &str, has_qr: bool) -> (r: String)
    ensures
        r@ == ticket_text(ticket@, has_qr),
{
    let t: &str = trim(ticket);
    if t.is_empty() {
        return TICKET_NONE.to_owned();
    }
    let mut parts: Vec<String> = Vec::new();
    parts.push(t.to_owned());
    if has_qr {
        parts.push(TICKET_QR.to_owned());
    }
    proof {
        assert(a11y::all_said(parts@) =~= (if has_qr {
            seq![t@, TICKET_QR@]
        } else {
            seq![t@]
        }));
    }
    sentence(TICKET_LEAD, parts.as_slice())
}

/// White space around a ticket never reaches the reader.
pub proof fn law_the_ticket_is_read_trimmed(ticket: Chars, has_qr: bool)
    ensures
        ticket_text(text::trimmed(ticket), has_qr) == ticket_text(ticket, has_qr),
{
    text::lemma_trimmed_ends(ticket);
}

/// The narrowest ticket.
pub const TICKET_MIN_W: i64 = 20_000;

/// The width of the stub.
pub const STUB_W: i64 = 10_800;

/// The padding inside the ticket.
pub const TICKET_PAD: i64 = 1_200;

/// The measures of a ticket.
#[derive(Clone, Copy, PartialEq, Eq, Debug, Structural)]
pub struct TicketBox {
    /// Its width.
    pub w: i64,
    /// The width that its text is wrapped to.
    pub wrap: i64,
}

/// The measures of a ticket in that much room: its text is wrapped to what the
/// stub, the padding and the mark leave of it.
pub fn ticket_box(avail: i64) -> (r: TicketBox)
    requires
        -FAR <= avail <= FAR,
    ensures
        r.w == geometry::larger(avail as int, TICKET_MIN_W as int),
        r.wrap == geometry::larger(r.w - STUB_W - 3 * TICKET_PAD - 1_800, 6_000),
{
    let w: i64 = max_of(avail, TICKET_MIN_W);
    TicketBox { w, wrap: max_of(w - STUB_W - 3 * TICKET_PAD - 1_800, 6_000) }
}

/// The height of a ticket around text of that height, which leaves room for the
/// code on its stub where it has one.
pub fn ticket_h(text_h: i64, has_qr: bool) -> (r: i64)
    requires
        -FAR <= text_h <= FAR,
    ensures
        r == geometry::larger(
            text_h + 2 * TICKET_PAD,
            if has_qr {
                11_800
            } else {
                6_600
            },
        ),
{
    max_of(
        text_h + 2 * TICKET_PAD,
        if has_qr {
            11_800
        } else {
            6_600
        },
    )
}

/// Where the parts of a ticket stand.
#[derive(Clone, Copy, Debug)]
pub struct TicketFace {
    /// The perforation, from the left.
    pub perf_x: i64,
    /// The middle of the small mark.
    pub mark: Point,
    /// The upper left corner of the text.
    pub text: Point,
    /// The middle of the stub.
    pub stub: Point,
    /// The side of the code on the stub, where there is one.
    pub qr: Option<i64>,
}

/// Sets a ticket: its mark and its text on the body, and the stub behind the
/// perforation.
pub fn ticket_face(rect: Frame, has_qr: bool) -> (r: TicketFace)
    requires
        rect.near(),
    ensures
        r.perf_x == rect.right - STUB_W,
        r.mark.x == rect.left + TICKET_PAD + 700 && r.mark.y == rect.top + TICKET_PAD + 700,
        r.text.x == rect.left + TICKET_PAD + 1_800 && r.text.y == rect.top + TICKET_PAD,
        r.stub.x == r.perf_x + STUB_W / 2,
        r.stub.y == geometry::middle(rect.top as int, rect.bottom as int),
        r.qr is Some <==> has_qr,
        has_qr ==> (r.qr->0) as int == geometry::lesser(
            STUB_W - 2_000,
            rect.bottom - rect.top - 2_000,
        ),
{
    let perf_x: i64 = rect.right - STUB_W;
    TicketFace {
        perf_x,
        mark: Point { x: rect.left + TICKET_PAD + 700, y: rect.top + TICKET_PAD + 700 },
        text: Point { x: rect.left + TICKET_PAD + 1_800, y: rect.top + TICKET_PAD },
        stub: Point { x: perf_x + STUB_W / 2, y: mid_of(rect.top, rect.bottom) },
        qr: if has_qr {
            Some(min_of(STUB_W - 2_000, rect.bottom - rect.top - 2_000))
        } else {
            None
        },
    }
}

/// The text of a ticket ends before its perforation, and its code fits on the
/// stub and inside the ticket.
pub proof fn law_the_ticket_holds_its_parts(w: int, text_h: int)
    requires
        w - STUB_W - 3 * TICKET_PAD - 1_800 >= 6_000,
        text_h >= 0,
    ensures
        ({
            let wrap = w - STUB_W - 3 * TICKET_PAD - 1_800;
            TICKET_PAD + 1_800 + wrap < w - STUB_W
        }),
        ({
            let h = geometry::larger(text_h + 2 * TICKET_PAD, 11_800);
            let side = geometry::lesser(STUB_W - 2_000, h - 2_000);
            0 < side < STUB_W && side < h
        }),
{
}

/// A ticket is read out behind its lead, with a word on its picture where it has
/// one; a blank one is said to be missing.
pub proof fn law_a_ticket_is_read_out(ticket: Chars, has_qr: bool)
    ensures
        ({
            let t = text::trimmed(ticket);
            &&& t.len() == 0 ==> ticket_text(ticket, has_qr)
                == "invite ticket, none yet"@
            &&& t.len() > 0 && !has_qr ==> ticket_text(ticket, has_qr) == "invite ticket"@ + ": "@ + t
            &&& t.len() > 0 && has_qr ==> ticket_text(ticket, has_qr) == "invite ticket"@ + ": "@ + (
            t + ", "@ + "QR code on the stub"@)
        }),
{
    let t = text::trimmed(ticket);
    lemma_words_are_there();
    if t.len() > 0 {
        text::lemma_trimmed_ends(ticket);
        a11y::law_every_part_is_said_in_order(seq![t], seq![TICKET_QR@]);
        a11y::law_every_part_is_said_in_order(seq![TICKET_QR@], seq![t]);
        assert(seq![t] + seq![TICKET_QR@] =~= seq![t, TICKET_QR@]);
        a11y::law_a_sentence_leads_and_tells(TICKET_LEAD@, seq![t]);
        a11y::law_a_sentence_leads_and_tells(TICKET_LEAD@, seq![t, TICKET_QR@]);
    }
}

proof fn lemma_words_are_there()
    ensures
        text::trimmed(TICKET_LEAD@) == "invite ticket"@,
        TICKET_LEAD@.len() > 0,
        text::trimmed(TICKET_QR@) == "QR code on the stub"@,
        TICKET_QR@.len() > 0,
{
    reveal_strlit("invite ticket");
    reveal_strlit("QR code on the stub");
    text::lemma_trim_padded(TICKET_LEAD@, 0);
    text::lemma_trim_padded(TICKET_QR@, 0);
    assert(TICKET_LEAD@.skip(0) =~= TICKET_LEAD@);
    assert(TICKET_QR@.skip(0) =~= TICKET_QR@);
}

} // verus!
