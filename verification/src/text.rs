//! Character-level text helpers shared by the rest of the library.
use vstd::prelude::*;

verus! {

/// The decimal digit character of `d` (`0 <= d < 10`).
pub open spec fn digit_char(d: nat) -> char {
    if d == 0 { '0' }
    else if d == 1 { '1' }
    else if d == 2 { '2' }
    else if d == 3 { '3' }
    else if d == 4 { '4' }
    else if d == 5 { '5' }
    else if d == 6 { '6' }
    else if d == 7 { '7' }
    else if d == 8 { '8' }
    else { '9' }
}

/// Decimal rendering of a natural number, without sign or leading zeros.
pub open spec fn decimal(n: nat) -> Seq<char>
    decreases n,
{
    if n < 10 {
        seq![digit_char(n)]
    } else {
        decimal(n / 10).push(digit_char(n % 10))
    }
}

/// Appends one character to a string.
#[verifier::external_body]
pub fn push_char(s: &mut String, c: char)
    ensures
        final(s)@ == old(s)@.push(c),
{
    s.push(c);
}

/// Appends a string slice to a string.
#[verifier::external_body]
pub fn push_str(s: &mut String, t: &str)
    ensures
        final(s)@ == old(s)@ + t@,
{
    s.push_str(t);
}

fn digit_of(d: usize) -> (c: char)
    requires
        d < 10,
    ensures
        c == digit_char(d as nat),
{
    if d == 0 { '0' }
    else if d == 1 { '1' }
    else if d == 2 { '2' }
    else if d == 3 { '3' }
    else if d == 4 { '4' }
    else if d == 5 { '5' }
    else if d == 6 { '6' }
    else if d == 7 { '7' }
    else if d == 8 { '8' }
    else { '9' }
}

/// Appends the decimal rendering of `n` to `out`.
pub fn push_decimal(out: &mut String, n: usize)
    ensures
        final(out)@ == old(out)@ + decimal(n as nat),
    decreases n,
{
    if n < 10 {
        push_char(out, digit_of(n));
        assert(decimal(n as nat) == seq![digit_char(n as nat)]);
        assert(old(out)@.push(digit_char(n as nat)) =~= old(out)@ + seq![digit_char(n as nat)]);
    } else {
        push_decimal(out, n / 10);
        push_char(out, digit_of(n % 10));
        assert(decimal(n as nat) == decimal((n / 10) as nat).push(digit_char((n % 10) as nat)));
        assert((old(out)@ + decimal((n / 10) as nat)).push(digit_char((n % 10) as nat))
            =~= old(out)@ + decimal(n as nat));
    }
}

/// The decimal rendering of `n` as a new string.
pub fn decimal_string(n: usize) -> (s: String)
    ensures
        s@ == decimal(n as nat),
{
    let mut s = String::new();
    push_decimal(&mut s, n);
    assert(Seq::<char>::empty() + decimal(n as nat) =~= decimal(n as nat));
    s
}

/// The last eight bytes of `s` as a string (`String::split_off(len - 8)`);
/// the cut must fall on a character boundary.
pub fn last_eight(s: &str) -> (r: String)
    requires
        8 <= vstd::utf8::encode_utf8(s@).len() <= usize::MAX,
        vstd::utf8::is_char_boundary(vstd::utf8::encode_utf8(s@), vstd::utf8::encode_utf8(s@).len() - 8),
    ensures
        vstd::utf8::encode_utf8(r@) == vstd::utf8::encode_utf8(s@).subrange(vstd::utf8::encode_utf8(s@).len() - 8, vstd::utf8::encode_utf8(s@).len() as int),
        r@ == vstd::utf8::decode_utf8(vstd::utf8::encode_utf8(s@).subrange(vstd::utf8::encode_utf8(s@).len() - 8, vstd::utf8::encode_utf8(s@).len() as int)),
{
    let n = s.len();
    assert(n == vstd::utf8::encode_utf8(s@).len());
    let (_head, tail) = s.split_at(n - 8);
    let r = tail.to_owned();
    proof {
        vstd::utf8::encode_utf8_decode_utf8(r@);
    }
    r
}

} // verus!
