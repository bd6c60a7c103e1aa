//! Byte-level encodings the protocol stack rests on: the UTF-8 view of text,
//! base64url without padding, and decimal rendering of integers.

use vstd::prelude::*;

verus! {

/// The UTF-8 encoding of one character.
pub open spec fn utf8_char(c: char) -> Seq<u8> {
    let n = c as int;
    if n < 0x80 {
        seq![n as u8]
    } else if n < 0x800 {
        seq![(0xC0 + n / 64) as u8, (0x80 + n % 64) as u8]
    } else if n < 0x10000 {
        seq![(0xE0 + n / 4096) as u8, (0x80 + (n / 64) % 64) as u8, (0x80 + n % 64) as u8]
    } else {
        seq![
            (0xF0 + n / 262144) as u8,
            (0x80 + (n / 4096) % 64) as u8,
            (0x80 + (n / 64) % 64) as u8,
            (0x80 + n % 64) as u8,
        ]
    }
}

/// The UTF-8 encoding of a character sequence.
pub open spec fn utf8_of(s: Seq<char>) -> Seq<u8>
    decreases s.len(),
{
    if s.len() == 0 {
        Seq::empty()
    } else {
        utf8_char(s[0]) + utf8_of(s.skip(1))
    }
}

/// Relies on `str::as_bytes`: a string's bytes are the UTF-8 encoding of its
/// characters.
#[verifier::external_body]
pub fn string_bytes(s: &str) -> (r: Vec<u8>)
    ensures
        r@ == utf8_of(s@),
{
    s.as_bytes().to_vec()
}

/// Relies on `String::push`: appends one character at the end.
#[verifier::external_body]
pub(crate) fn push_char(s: &mut String, c: char)
    ensures
        final(s)@ == old(s)@.push(c),
{
    s.push(c);
}

/// The base64url digit for a 6-bit value.
pub open spec fn b64url_char(n: int) -> char {
    "ABCDEFGHIJKLMNOPQRSTUVWXYZabcdefghijklmnopqrstuvwxyz0123456789-_"@[n]
}

/// base64url without padding: each 3-byte group becomes 4 digits; a final
/// group of 1 or 2 bytes becomes 2 or 3 digits.
pub open spec fn spec_b64url(b: Seq<u8>) -> Seq<char>
    decreases b.len(),
{
    if b.len() == 0 {
        Seq::empty()
    } else if b.len() == 1 {
        let b0 = b[0] as int;
        seq![b64url_char(b0 / 4), b64url_char((b0 % 4) * 16)]
    } else if b.len() == 2 {
        let b0 = b[0] as int;
        let b1 = b[1] as int;
        seq![b64url_char(b0 / 4), b64url_char((b0 % 4) * 16 + b1 / 16), b64url_char((b1 % 16) * 4)]
    } else {
        let b0 = b[0] as int;
        let b1 = b[1] as int;
        let b2 = b[2] as int;
        seq![
            b64url_char(b0 / 4),
            b64url_char((b0 % 4) * 16 + b1 / 16),
            b64url_char((b1 % 16) * 4 + b2 / 64),
            b64url_char(b2 % 64),
        ] + spec_b64url(b.skip(3))
    }
}

/// No base64url digit is a dot; the digits of an authorization token's
/// segments therefore never collide with the segment separators.
pub proof fn lemma_b64url_no_dot(b: Seq<u8>)
    ensures
        forall|i: int| 0 <= i < spec_b64url(b).len() ==> #[trigger] spec_b64url(b)[i] != '.',
    decreases b.len(),
{
    reveal_strlit("ABCDEFGHIJKLMNOPQRSTUVWXYZabcdefghijklmnopqrstuvwxyz0123456789-_");
    assert(forall|n: int| 0 <= n < 64 ==> #[trigger] b64url_char(n) != '.');
    if b.len() > 3 {
        lemma_b64url_no_dot(b.skip(3));
        assert(spec_b64url(b).len() == 4 + spec_b64url(b.skip(3)).len());
        assert(forall|i: int|
            4 <= i < spec_b64url(b).len() ==> #[trigger] spec_b64url(b)[i] == spec_b64url(
                b.skip(3),
            )[i - 4]);
    }
}

/// Relies on `base64::encode_config` with `URL_SAFE_NO_PAD`: standard
/// base64url digits, no padding.
#[verifier::external_body]
pub fn b64url_encode(b: &[u8]) -> (r: String)
    ensures
        r@ == spec_b64url(b@),
{
    base64::encode_config(b, base64::URL_SAFE_NO_PAD)
}

/// What `base64::decode_config` with `URL_SAFE_NO_PAD` yields for a given
/// input: the decoded bytes, or nothing for a malformed input.
pub uninterp spec fn b64url_decoded(s: Seq<char>) -> Option<Seq<u8>>;

/// Relies on `base64::decode_config` with `URL_SAFE_NO_PAD`: the decode is a
/// function of the input text alone and fails exactly on malformed input.
#[verifier::external_body]
pub fn b64url_decode(s: &str) -> (r: Result<Vec<u8>, ()>)
    ensures
        r is Ok <==> b64url_decoded(s@) is Some,
        r matches Ok(v) ==> b64url_decoded(s@) == Some(v@),
{
    match base64::decode_config(s.as_bytes(), base64::URL_SAFE_NO_PAD) {
        Ok(v) => Ok(v),
        Err(_) => Err(()),
    }
}

/// The decimal digit for a value below ten.
pub open spec fn dec_digit(n: int) -> char {
    "0123456789"@[n]
}

/// The decimal rendering of a nonnegative integer, most significant digit
/// first, no leading zeros (a lone zero for 0).
pub open spec fn spec_dec(n: int) -> Seq<char>
    decreases n,
{
    if n < 10 {
        seq![dec_digit(n)]
    } else {
        spec_dec(n / 10).push(dec_digit(n % 10))
    }
}

fn digit_char(n: u64) -> (r: char)
    requires
        n < 10,
    ensures
        r == dec_digit(n as int),
{
    proof {
        reveal_strlit("0123456789");
    }
    match n {
        0 => '0',
        1 => '1',
        2 => '2',
        3 => '3',
        4 => '4',
        5 => '5',
        6 => '6',
        7 => '7',
        8 => '8',
        _ => '9',
    }
}

/// Renders an integer in decimal.
pub fn u64_to_dec(n: u64) -> (r: String)
    ensures
        r@ == spec_dec(n as int),
    decreases n,
{
    if n < 10 {
        let mut s = String::new();
        push_char(&mut s, digit_char(n));
        proof {
            assert(s@ =~= spec_dec(n as int));
        }
        s
    } else {
        let mut s = u64_to_dec(n / 10);
        push_char(&mut s, digit_char(n % 10));
        s
    }
}

} // verus!
