use galvanized::text::{decimal_string, last_eight, push_decimal};
use galvanized::ticket::{decode_ticket_text, encode_ticket_text, make_ascii_lowercase, to_ascii_uppercase, TicketError};

#[test]
fn decimal_rendering() {
    assert_eq!(decimal_string(0), "0");
    assert_eq!(decimal_string(9), "9");
    assert_eq!(decimal_string(10), "10");
    assert_eq!(decimal_string(4096), "4096");
    let mut s = "n=".to_owned();
    push_decimal(&mut s, 305);
    assert_eq!(s, "n=305");
}

#[test]
fn last_eight_bytes() {
    assert_eq!(last_eight("abcdefghijkl"), "efghijkl");
    assert_eq!(last_eight("12345678"), "12345678");
}

#[test]
fn ascii_case_changes_only_letters() {
    assert_eq!(to_ascii_uppercase("ab-Z9é"), "AB-Z9é");
    let mut s = "AbC-7É".to_owned();
    make_ascii_lowercase(&mut s);
    assert_eq!(s, "abc-7É");
}

#[test]
fn ticket_text_is_lower_case_base32() {
    assert_eq!(encode_ticket_text(b"hi"), "nbuq");
    assert_eq!(encode_ticket_text(b""), "");
    assert_eq!(encode_ticket_text(b"foobar"), "mzxw6ytboi");
}

#[test]
fn ticket_text_round_trips() {
    let bytes: Vec<u8> = (0u8..=40).collect();
    let text = encode_ticket_text(&bytes);
    assert_eq!(decode_ticket_text(&text), Ok(bytes));
}

#[test]
fn ticket_text_reads_in_either_case() {
    assert_eq!(decode_ticket_text("MZXW6YTBOI"), Ok(b"foobar".to_vec()));
    assert_eq!(decode_ticket_text("mzXW6ytboi"), Ok(b"foobar".to_vec()));
}

#[test]
fn unreadable_ticket_text_is_an_error() {
    assert_eq!(decode_ticket_text("not base32!"), Err(TicketError::InvalidText));
    assert_eq!(decode_ticket_text("a"), Err(TicketError::InvalidText));
    assert_eq!(decode_ticket_text("18"), Err(TicketError::InvalidText));
}

#[test]
fn ticket_text_alphabet() {
    let bytes: Vec<u8> = (0u8..=255).collect();
    let text = encode_ticket_text(&bytes);
    assert!(text.chars().all(|c| c.is_ascii_lowercase() || ('2'..='7').contains(&c)));
}
