//! Share-ticket text: a ticket's serialized bytes travel as lower-case,
//! unpadded base32 text.
use vstd::prelude::*;
use crate::text::push_char;

verus! {

/// `c` with ASCII letters `a`..=`z` turned upper case; other characters kept.
pub open spec fn ascii_upper(c: char) -> char {
    if 'a' <= c <= 'z' { ((c as u32) - 32) as char } else { c }
}

/// `c` with ASCII letters `A`..=`Z` turned lower case; other characters kept.
pub open spec fn ascii_lower(c: char) -> char {
    if 'A' <= c <= 'Z' { ((c as u32) + 32) as char } else { c }
}

/// A symbol of ticket text: `a`..=`z` or `2`..=`7`.
pub open spec fn is_ticket_symbol(c: char) -> bool {
    ('a' <= c <= 'z') || ('2' <= c <= '7')
}

/// A symbol of the unpadded base32 alphabet `A`..=`Z`, `2`..=`7`.
pub open spec fn is_base32_symbol(c: char) -> bool {
    ('A' <= c <= 'Z') || ('2' <= c <= '7')
}

/// The unpadded base32 text of `data`.
pub uninterp spec fn base32_nopad_encode(data: Seq<u8>) -> Seq<char>;

/// The bytes that unpadded base32 `text` stands for, or `None` when `text`
/// is not a canonical encoding.
pub uninterp spec fn base32_nopad_decode(text: Seq<u8>) -> Option<Seq<u8>>;

/// The bytes of characters that are all ASCII.
pub open spec fn ascii_bytes(s: Seq<char>) -> Seq<u8> {
    s.map_values(|c: char| c as u8)
}

#[verifier::external_type_specification]
#[verifier::external_body]
pub struct ExDecodeError(data_encoding::DecodeError);

/// `data_encoding::BASE32_NOPAD.encode`: the unpadded base32 text of `data`.
/// The crate documents its alphabet (`A`..=`Z`, `2`..=`7`) and that decoding
/// an encoding gives back the data. It asserts that `data` is at most
/// `usize::MAX / 512` bytes long.
#[verifier::external_body]
fn base32_encode(data: &[u8]) -> (r: String)
    requires
        data@.len() <= usize::MAX / 512,
    ensures
        r@ == base32_nopad_encode(data@),
        forall|i: int| 0 <= i < r@.len() ==> is_base32_symbol(#[trigger] r@[i]),
        base32_nopad_decode(ascii_bytes(r@)) == Some(data@),
{
    data_encoding::BASE32_NOPAD.encode(data)
}

/// `data_encoding::BASE32_NOPAD.decode`: the bytes that `text` stands for.
/// The crate documents that a successful decoding encodes back to the input.
/// It asserts that `text` is at most `usize::MAX / 8` bytes long.
#[verifier::external_body]
fn base32_decode(text: &[u8]) -> (r: Result<Vec<u8>, data_encoding::DecodeError>)
    requires
        text@.len() <= usize::MAX / 8,
    ensures
        r is Ok <==> base32_nopad_decode(text@) is Some,
        r matches Ok(v) ==> Some(v@) == base32_nopad_decode(text@)
            && ascii_bytes(base32_nopad_encode(v@)) == text@,
{
    data_encoding::BASE32_NOPAD.decode(text)
}

/// Why ticket text could not be read.
#[derive(Debug, PartialEq, Eq, Structural)]
pub enum TicketError {
    /// The text is not unpadded base32 (in either letter case).
    InvalidText,
}

/// The characters of `s`, ASCII letters turned upper case (`str::to_ascii_uppercase`).
pub fn to_ascii_uppercase(s: &str) -> (r: String)
    ensures
        r@ == s@.map_values(|c: char| ascii_upper(c)),
{
    let n = s.unicode_len();
    let mut r = String::new();
    for i in 0..n
        invariant
            n == s@.len(),
            r@ == s@.subrange(0, i as int).map_values(|c: char| ascii_upper(c)),
    {
        let c = s.get_char(i);
        let u = if 'a' <= c && c <= 'z' { ((c as u8) - 32) as char } else { c };
        assert(u == ascii_upper(c));
        push_char(&mut r, u);
        assert(s@.subrange(0, i + 1).map_values(|c: char| ascii_upper(c))
            =~= s@.subrange(0, i as int).map_values(|c: char| ascii_upper(c)).push(u));
    }
    assert(s@.subrange(0, n as int) =~= s@);
    r
}

/// Turns the ASCII letters of `s` lower case (`String::make_ascii_lowercase`).
pub fn make_ascii_lowercase(s: &mut String)
    ensures
        final(s)@ == old(s)@.map_values(|c: char| ascii_lower(c)),
{
    let src = s.as_str();
    let n = src.unicode_len();
    let mut r = String::new();
    for i in 0..n
        invariant
            n == src@.len(),
            src@ == old(s)@,
            r@ == src@.subrange(0, i as int).map_values(|c: char| ascii_lower(c)),
    {
        let c = src.get_char(i);
        let l = if 'A' <= c && c <= 'Z' { ((c as u8) + 32) as char } else { c };
        assert(l == ascii_lower(c));
        push_char(&mut r, l);
        assert(src@.subrange(0, i + 1).map_values(|c: char| ascii_lower(c))
            =~= src@.subrange(0, i as int).map_values(|c: char| ascii_lower(c)).push(l));
    }
    assert(src@.subrange(0, n as int) =~= src@);
    *s = r;
}

/// The bytes that ticket text stands for, when it is readable: the text
/// upper-cased, as UTF-8 bytes, decoded as unpadded base32.
pub open spec fn ticket_text_bytes(text: Seq<char>) -> Option<Seq<u8>> {
    base32_nopad_decode(vstd::utf8::encode_utf8(text.map_values(|c: char| ascii_upper(c))))
}

/// The text of a ticket whose serialized form is `bytes`: unpadded base32,
/// lower case, so made of `a`..=`z` and `2`..=`7` only. Reading the text back
/// gives `bytes`. The encoder takes at most `usize::MAX / 512` bytes.
pub fn encode_ticket_text(bytes: &[u8]) -> (text: String)
    requires
        bytes@.len() <= usize::MAX / 512,
    ensures
        text@ == base32_nopad_encode(bytes@).map_values(|c: char| ascii_lower(c)),
        forall|i: int| 0 <= i < text@.len() ==> is_ticket_symbol(#[trigger] text@[i]),
        ticket_text_bytes(text@) == Some(bytes@),
{
    let mut text = base32_encode(bytes);
    let ghost enc = text@;
    make_ascii_lowercase(&mut text);
    proof {
        let low = text@;
        let up = low.map_values(|c: char| ascii_upper(c));
        assert(up =~= enc) by {
            assert forall|i: int| 0 <= i < enc.len() implies up[i] == enc[i] by {
                assert(is_base32_symbol(enc[i]));
            }
        }
        assert(vstd::utf8::is_ascii_chars(up)) by {
            assert forall|i: int| 0 <= i < up.len() implies '\0' <= #[trigger] up[i] <= '\u{7f}' by {
                assert(is_base32_symbol(enc[i]));
            }
        }
        vstd::utf8::is_ascii_chars_encode_utf8(up);
        assert(vstd::utf8::encode_utf8(up) =~= ascii_bytes(enc));
        assert forall|i: int| 0 <= i < low.len() implies is_ticket_symbol(#[trigger] low[i]) by {
            assert(is_base32_symbol(enc[i]));
        }
    }
    text
}

proof fn lemma_upper_keeps_utf8_len(s: Seq<char>)
    ensures
        vstd::utf8::encode_utf8(s.map_values(|c: char| ascii_upper(c))).len() == vstd::utf8::encode_utf8(s).len(),
    decreases s.len(),
{
    if s.len() > 0 {
        let u = s.map_values(|c: char| ascii_upper(c));
        assert(u.drop_first() =~= s.drop_first().map_values(|c: char| ascii_upper(c)));
        lemma_upper_keeps_utf8_len(s.drop_first());
        let c = s[0];
        if 'a' <= c <= 'z' {
            assert(u[0] as u32 == (c as u32) - 32);
        } else {
            assert(u[0] == c);
        }
    }
}

/// The serialized bytes of a ticket from its text, in either letter case.
/// The decoder takes text of at most `usize::MAX / 8` bytes.
pub fn decode_ticket_text(text: &str) -> (r: Result<Vec<u8>, TicketError>)
    requires
        vstd::utf8::encode_utf8(text@).len() <= usize::MAX / 8,
    ensures
        ticket_text_bytes(text@) is None ==> r == Err::<Vec<u8>, TicketError>(TicketError::InvalidText),
        ticket_text_bytes(text@) matches Some(b) ==> (r matches Ok(v) && v@ == b),
{
    let upper = to_ascii_uppercase(text);
    proof {
        lemma_upper_keeps_utf8_len(text@);
    }
    let bytes = upper.as_str().as_bytes();
    match base32_decode(bytes) {
        Ok(v) => Ok(v),
        Err(_) => Err(TicketError::InvalidText),
    }
}

/// Ticket text is the standard base32 text with its letters lowered the
/// ASCII way: each upper-case letter's code goes up by 32, every other
/// symbol stays, letter for letter.
pub proof fn law_ticket_text_is_lowered_base32(bytes: Seq<u8>, text: Seq<char>)
    requires
        text == base32_nopad_encode(bytes).map_values(|c: char| ascii_lower(c)),
    ensures
        text.len() == base32_nopad_encode(bytes).len(),
        forall|i: int| 0 <= i < text.len() ==> {
            let e = #[trigger] base32_nopad_encode(bytes)[i];
            &&& ('A' <= e <= 'Z' ==> text[i] as u32 == e as u32 + 32)
            &&& (!('A' <= e <= 'Z') ==> text[i] == e)
        },
{
}

/// Ticket text reads as the standard base32 text it lowers: text made from
/// a standard (upper-case) base32 text by turning any of its letters into
/// lower case the ASCII way (code plus 32) reads as the bytes that the
/// standard text stands for.
pub proof fn law_lowered_text_reads_as_standard(s: Seq<char>, t: Seq<char>)
    requires
        forall|i: int| 0 <= i < s.len() ==> !('a' <= #[trigger] s[i] <= 'z'),
        t.len() == s.len(),
        forall|i: int| 0 <= i < s.len() ==> (#[trigger] t[i] == s[i]
            || ('A' <= s[i] <= 'Z' && t[i] == ((s[i] as u32) + 32) as char)),
    ensures
        ticket_text_bytes(t) == base32_nopad_decode(vstd::utf8::encode_utf8(s)),
{
    let u = t.map_values(|c: char| ascii_upper(c));
    assert forall|i: int| 0 <= i < s.len() implies u[i] == s[i] by {
        if t[i] != s[i] {
            assert('a' <= t[i] <= 'z');
        }
    }
    assert(u =~= s);
}

/// Ticket text reads the same in either letter case: texts that agree once
/// upper-cased stand for the same bytes.
pub proof fn law_ticket_text_case_insensitive(a: Seq<char>, b: Seq<char>)
    requires
        a.map_values(|c: char| ascii_upper(c)) == b.map_values(|c: char| ascii_upper(c)),
    ensures
        ticket_text_bytes(a) == ticket_text_bytes(b),
{
}

} // verus!
