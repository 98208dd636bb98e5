//! The sentence of the invite ticket.

use tazamun_gui::ceremony::{ticket_sentence, TICKET_NONE};

const TICKET: &str = "tzm1qyqszqgpqyqszqgpqyqszqgpqyqszqgp";

#[test]
fn sentence_reads_the_ticket_itself() {
    assert_eq!(
        ticket_sentence(TICKET, false),
        "invite ticket: tzm1qyqszqgpqyqszqgpqyqszqgpqyqszqgp"
    );
}

#[test]
fn sentence_names_the_stub_when_the_qr_is_there() {
    assert_eq!(
        ticket_sentence(TICKET, true),
        "invite ticket: tzm1qyqszqgpqyqszqgpqyqszqgpqyqszqgp, QR code on the stub"
    );
}

#[test]
fn an_empty_card_says_so_rather_than_naming_a_ticket_it_has_not_got() {
    assert_eq!(ticket_sentence("", false), TICKET_NONE);
    assert_eq!(ticket_sentence("   ", true), TICKET_NONE);
}

#[test]
fn surrounding_whitespace_never_reaches_the_reader() {
    assert_eq!(
        ticket_sentence("  tzm1abc \n", false),
        "invite ticket: tzm1abc"
    );
}
