//! Byte encodings: standard Base64 (through the `base64` crate), lowercase
//! hexadecimal, and UTF-8 decoding of byte strings.

use base64::engine::general_purpose::STANDARD;
use base64::Engine;
use vstd::prelude::*;
use vstd::utf8::{decode_utf8, valid_utf8};

use crate::text::push_char;

verus! {

/// The character of the standard Base64 alphabet for a 6-bit value.
pub open spec fn base64_char(v: int) -> char {
    if v < 26 {
        (v + 65) as char
    } else if v < 52 {
        (v + 71) as char
    } else if v < 62 {
        (v - 4) as char
    } else if v == 62 {
        '+'
    } else {
        '/'
    }
}

/// Standard Base64 with `=` padding (RFC 4648, section 4), three bytes to four characters.
pub open spec fn base64_encode_spec(b: Seq<u8>) -> Seq<char>
    decreases b.len(),
{
    if b.len() == 0 {
        seq![]
    } else {
        let b0 = b[0] as int;
        if b.len() == 1 {
            seq![base64_char(b0 / 4), base64_char((b0 % 4) * 16), '=', '=']
        } else {
            let b1 = b[1] as int;
            if b.len() == 2 {
                seq![
                    base64_char(b0 / 4),
                    base64_char((b0 % 4) * 16 + b1 / 16),
                    base64_char((b1 % 16) * 4),
                    '=',
                ]
            } else {
                let b2 = b[2] as int;
                seq![
                    base64_char(b0 / 4),
                    base64_char((b0 % 4) * 16 + b1 / 16),
                    base64_char((b1 % 16) * 4 + b2 / 64),
                    base64_char(b2 % 64),
                ] + base64_encode_spec(b.skip(3))
            }
        }
    }
}

/// Whether `s` is the standard Base64 encoding of some byte string.
pub open spec fn is_base64(s: Seq<char>) -> bool {
    exists|b: Seq<u8>| #[trigger] base64_encode_spec(b) == s
}

/// The bytes whose standard Base64 encoding is `s`, where there are such bytes.
pub open spec fn base64_decode_spec(s: Seq<char>) -> Seq<u8> {
    choose|b: Seq<u8>| #[trigger] base64_encode_spec(b) == s
}

/// A non-empty byte string has a non-empty encoding.
pub proof fn lemma_base64_nonempty(b: Seq<u8>)
    requires
        b.len() > 0,
    ensures
        base64_encode_spec(b).len() > 0,
{
    reveal_with_fuel(base64_encode_spec, 2);
}

/// `STANDARD.encode` of the base64 crate: the padded standard encoding of the bytes.
#[verifier::external_body]
pub(crate) fn base64_encode(bytes: &[u8]) -> (res: String)
    ensures
        res@ == base64_encode_spec(bytes@),
{
    STANDARD.encode(bytes)
}

/// `STANDARD.decode` of the base64 crate. That engine requires canonical padding and
/// rejects trailing bits, so it accepts exactly the encodings that `STANDARD.encode`
/// produces, and gives back the bytes that were encoded.
#[verifier::external_body]
pub(crate) fn base64_decode(s: &str) -> (res: Option<Vec<u8>>)
    ensures
        res is Some ==> base64_encode_spec(res->Some_0@) == s@,
        forall|b: Seq<u8>|
            #[trigger] base64_encode_spec(b) == s@ ==> (res is Some && res->Some_0@ == b),
{
    STANDARD.decode(s).ok()
}

/// `String::from_utf8`: succeeds exactly on valid UTF-8 and then holds the decoded characters.
#[verifier::external_body]
pub(crate) fn utf8_to_string(bytes: Vec<u8>) -> (res: Option<String>)
    ensures
        res is Some <==> valid_utf8(bytes@),
        res matches Some(s) ==> s@ == decode_utf8(bytes@),
{
    String::from_utf8(bytes).ok()
}

/// The lowercase hexadecimal digit for a value below 16.
pub open spec fn hex_digit_spec(v: int) -> char {
    if v < 10 {
        (v + 48) as char
    } else {
        (v + 87) as char
    }
}

/// Lowercase hexadecimal, two digits per byte, most significant digit first.
pub open spec fn hex_lower_spec(b: Seq<u8>) -> Seq<char>
    decreases b.len(),
{
    if b.len() == 0 {
        seq![]
    } else {
        hex_lower_spec(b.drop_last()) + seq![
            hex_digit_spec(b.last() as int / 16),
            hex_digit_spec(b.last() as int % 16),
        ]
    }
}

/// A lowercase hexadecimal digit.
pub open spec fn is_lower_hex_char(c: char) -> bool {
    ('0' <= c && c <= '9') || ('a' <= c && c <= 'f')
}

/// Lowercase hexadecimal has two digits per byte, each in `[0-9a-f]`.
pub proof fn lemma_hex_lower_form(b: Seq<u8>)
    ensures
        hex_lower_spec(b).len() == 2 * b.len(),
        forall|i: int|
            0 <= i < hex_lower_spec(b).len() ==> is_lower_hex_char(#[trigger] hex_lower_spec(b)[i]),
    decreases b.len(),
{
    if b.len() > 0 {
        lemma_hex_lower_form(b.drop_last());
        let hi = b.last() as int / 16;
        let lo = b.last() as int % 16;
        assert(is_lower_hex_char(hex_digit_spec(hi)));
        assert(is_lower_hex_char(hex_digit_spec(lo)));
        let prev = hex_lower_spec(b.drop_last());
        assert forall|i: int|
            0 <= i < hex_lower_spec(b).len() implies is_lower_hex_char(
            #[trigger] hex_lower_spec(b)[i],
        ) by {
            if i < prev.len() {
                assert(hex_lower_spec(b)[i] == prev[i]);
            }
        }
    }
}

fn hex_digit(v: u8) -> (c: char)
    requires
        v < 16,
    ensures
        c == hex_digit_spec(v as int),
{
    if v < 10 {
        (v + 48) as char
    } else {
        (v + 87) as char
    }
}

/// Lowercase hexadecimal of a byte string (what `format!("{:x}", ..)` gives of a digest).
pub fn hex_lower(bytes: &[u8]) -> (res: String)
    ensures
        res@ == hex_lower_spec(bytes@),
{
    let mut res = String::new();
    let mut i: usize = 0;
    while i < bytes.len()
        invariant
            i <= bytes@.len(),
            res@ == hex_lower_spec(bytes@.take(i as int)),
        decreases bytes@.len() - i,
    {
        let b = bytes[i];
        push_char(&mut res, hex_digit(b / 16));
        push_char(&mut res, hex_digit(b % 16));
        assert(bytes@.take(i + 1).drop_last() =~= bytes@.take(i as int));
        i = i + 1;
    }
    assert(bytes@.take(bytes@.len() as int) =~= bytes@);
    res
}

/// The concatenation of two byte strings.
pub fn concat_bytes(a: &[u8], b: &[u8]) -> (res: Vec<u8>)
    ensures
        res@ == a@ + b@,
{
    let mut res: Vec<u8> = Vec::new();
    let mut i: usize = 0;
    while i < a.len()
        invariant
            i <= a@.len(),
            res@ == a@.take(i as int),
        decreases a@.len() - i,
    {
        res.push(a[i]);
        assert(a@.take(i + 1) =~= a@.take(i as int).push(a@[i as int]));
        i = i + 1;
    }
    let mut j: usize = 0;
    while j < b.len()
        invariant
            j <= b@.len(),
            i == a@.len(),
            res@ == a@ + b@.take(j as int),
        decreases b@.len() - j,
    {
        res.push(b[j]);
        assert(b@.take(j + 1) =~= b@.take(j as int).push(b@[j as int]));
        assert(a@ + b@.take(j + 1) =~= (a@ + b@.take(j as int)).push(b@[j as int]));
        j = j + 1;
    }
    assert(a@.take(a@.len() as int) =~= a@);
    assert(b@.take(b@.len() as int) =~= b@);
    res
}

/// The bytes `v[from..to]`.
pub fn slice_bytes(v: &[u8], from: usize, to: usize) -> (res: Vec<u8>)
    requires
        from <= to <= v@.len(),
    ensures
        res@ == v@.subrange(from as int, to as int),
{
    let mut res: Vec<u8> = Vec::new();
    let mut k = from;
    while k < to
        invariant
            from <= k <= to <= v@.len(),
            res@ == v@.subrange(from as int, k as int),
        decreases to - k,
    {
        res.push(v[k]);
        assert(v@.subrange(from as int, k + 1) =~= v@.subrange(from as int, k as int).push(
            v@[k as int],
        ));
        k = k + 1;
    }
    res
}

} // verus!
