//! Standard base64 (RFC 4648, `+`/`/` alphabet, `=` padding, no line
//! wrapping): the spec-level encoding, a matching spec-level decoding, the
//! proof that decoding inverts encoding, and the trusted call into the
//! `base64` crate that produces the encoding at run time.

use vstd::prelude::*;
use base64::Engine;

verus! {

/// The alphabet character for one 6-bit value.
pub open spec fn b64_char(v: int) -> char {
    if v < 26 {
        (v + 65) as char  // 'A'..='Z'
    } else if v < 52 {
        (v + 71) as char  // 'a'..='z'
    } else if v < 62 {
        (v - 4) as char  // '0'..='9'
    } else if v == 62 {
        '+'
    } else {
        '/'
    }
}

/// The 6-bit value of one alphabet character.
pub open spec fn b64_val(c: char) -> int {
    let u = c as int;
    if 65 <= u <= 90 {
        u - 65
    } else if 97 <= u <= 122 {
        u - 71
    } else if 48 <= u <= 57 {
        u + 4
    } else if c == '+' {
        62
    } else {
        63
    }
}

/// Whether `c` belongs to the standard base64 alphabet.
pub open spec fn is_b64_alpha(c: char) -> bool {
    let u = c as int;
    (65 <= u <= 90) || (97 <= u <= 122) || (48 <= u <= 57) || c == '+' || c == '/'
}

/// The four characters encoding a full group of three bytes.
pub open spec fn encode_group3(a: u8, b: u8, c: u8) -> Seq<char> {
    seq![
        b64_char(a as int / 4),
        b64_char((a as int % 4) * 16 + b as int / 16),
        b64_char((b as int % 16) * 4 + c as int / 64),
        b64_char(c as int % 64),
    ]
}

/// The four characters encoding a final group of two bytes.
pub open spec fn encode_group2(a: u8, b: u8) -> Seq<char> {
    seq![
        b64_char(a as int / 4),
        b64_char((a as int % 4) * 16 + b as int / 16),
        b64_char((b as int % 16) * 4),
        '=',
    ]
}

/// The four characters encoding a final group of one byte.
pub open spec fn encode_group1(a: u8) -> Seq<char> {
    seq![b64_char(a as int / 4), b64_char((a as int % 4) * 16), '=', '=']
}

/// Standard base64 encoding with padding: four characters for every three
/// input bytes, the final group padded with `=`.
pub open spec fn encoding(s: Seq<u8>) -> Seq<char>
    decreases s.len(),
{
    if s.len() == 0 {
        Seq::empty()
    } else if s.len() == 1 {
        encode_group1(s[0])
    } else if s.len() == 2 {
        encode_group2(s[0], s[1])
    } else {
        encode_group3(s[0], s[1], s[2]) + encoding(s.skip(3))
    }
}

/// The bytes of one four-character group, with `=` padding cutting the
/// group down to two or one byte.
pub open spec fn decode_group(t: Seq<char>) -> Seq<u8> {
    let v0 = b64_val(t[0]);
    let v1 = b64_val(t[1]);
    let v2 = b64_val(t[2]);
    let v3 = b64_val(t[3]);
    if t[2] == '=' {
        seq![(v0 * 4 + v1 / 16) as u8]
    } else if t[3] == '=' {
        seq![(v0 * 4 + v1 / 16) as u8, ((v1 % 16) * 16 + v2 / 4) as u8]
    } else {
        seq![
            (v0 * 4 + v1 / 16) as u8,
            ((v1 % 16) * 16 + v2 / 4) as u8,
            ((v2 % 4) * 64 + v3) as u8,
        ]
    }
}

/// Standard base64 decoding of well-formed input: one group of bytes for
/// every four characters.
pub open spec fn decoding(t: Seq<char>) -> Seq<u8>
    decreases t.len(),
{
    if t.len() < 4 {
        Seq::empty()
    } else if t.len() == 4 {
        decode_group(t)
    } else {
        decode_group(t.take(4)) + decoding(t.skip(4))
    }
}

/// The alphabet and the 6-bit values are inverse to each other, and no
/// alphabet character is the padding character.
proof fn lemma_char_val(v: int)
    requires
        0 <= v < 64,
    ensures
        b64_val(b64_char(v)) == v,
        is_b64_alpha(b64_char(v)),
        b64_char(v) != '=',
{
}

proof fn lemma_group3_round_trip(a: u8, b: u8, c: u8)
    ensures
        decode_group(encode_group3(a, b, c)) =~= seq![a, b, c],
{
    lemma_char_val(a as int / 4);
    lemma_char_val((a as int % 4) * 16 + b as int / 16);
    lemma_char_val((b as int % 16) * 4 + c as int / 64);
    lemma_char_val(c as int % 64);
}

proof fn lemma_group2_round_trip(a: u8, b: u8)
    ensures
        decode_group(encode_group2(a, b)) =~= seq![a, b],
{
    lemma_char_val(a as int / 4);
    lemma_char_val((a as int % 4) * 16 + b as int / 16);
    lemma_char_val((b as int % 16) * 4);
}

proof fn lemma_group1_round_trip(a: u8)
    ensures
        decode_group(encode_group1(a)) =~= seq![a],
{
    lemma_char_val(a as int / 4);
    lemma_char_val((a as int % 4) * 16);
}

/// The encoding takes four characters for every started group of three
/// bytes.
pub proof fn lemma_encoding_len(s: Seq<u8>)
    ensures
        encoding(s).len() == 4 * ((s.len() + 2) / 3),
    decreases s.len(),
{
    if s.len() > 2 {
        lemma_encoding_len(s.skip(3));
    }
}

/// Decoding inverts encoding: the encoded form of any byte sequence decodes
/// back to exactly that sequence.
pub proof fn lemma_round_trip(s: Seq<u8>)
    ensures
        decoding(encoding(s)) =~= s,
    decreases s.len(),
{
    if s.len() == 0 {
    } else if s.len() == 1 {
        lemma_group1_round_trip(s[0]);
        assert(decoding(encoding(s)) =~= s);
    } else if s.len() == 2 {
        lemma_group2_round_trip(s[0], s[1]);
        assert(decoding(encoding(s)) =~= s);
    } else {
        lemma_round_trip(s.skip(3));
        lemma_group3_round_trip(s[0], s[1], s[2]);
        let g = encode_group3(s[0], s[1], s[2]);
        let rest = encoding(s.skip(3));
        if s.len() == 3 {
            assert(encoding(s) =~= g);
            assert(decoding(encoding(s)) =~= s);
        } else {
            lemma_encoding_len(s.skip(3));
            assert((g + rest).take(4) =~= g);
            assert((g + rest).skip(4) =~= rest);
            assert(decoding(encoding(s)) =~= seq![s[0], s[1], s[2]] + s.skip(3));
            assert(seq![s[0], s[1], s[2]] + s.skip(3) =~= s);
        }
    }
}

/// Every character of an encoding is an alphabet character or `=`, and an
/// `=` is only ever followed by another `=` or the end: padding stands at
/// the very end of the encoding only.
pub proof fn lemma_encoding_padding(s: Seq<u8>)
    ensures
        forall|i: int|
            0 <= i < encoding(s).len() ==> is_b64_alpha(#[trigger] encoding(s)[i]) || encoding(
                s,
            )[i] == '=',
        forall|i: int|
            0 <= i < encoding(s).len() && #[trigger] encoding(s)[i] == '=' ==> i + 1 == encoding(
                s,
            ).len() || encoding(s)[i + 1] == '=',
    decreases s.len(),
{
    if s.len() == 1 {
        lemma_char_val(s[0] as int / 4);
        lemma_char_val((s[0] as int % 4) * 16);
    } else if s.len() == 2 {
        lemma_char_val(s[0] as int / 4);
        lemma_char_val((s[0] as int % 4) * 16 + s[1] as int / 16);
        lemma_char_val((s[1] as int % 16) * 4);
    } else if s.len() > 2 {
        lemma_char_val(s[0] as int / 4);
        lemma_char_val((s[0] as int % 4) * 16 + s[1] as int / 16);
        lemma_char_val((s[1] as int % 16) * 4 + s[2] as int / 64);
        lemma_char_val(s[2] as int % 64);
        lemma_encoding_padding(s.skip(3));
        lemma_encoding_len(s.skip(3));
        let g = encode_group3(s[0], s[1], s[2]);
        let rest = encoding(s.skip(3));
        assert forall|i: int| 0 <= i < encoding(s).len() implies is_b64_alpha(
            #[trigger] encoding(s)[i],
        ) || encoding(s)[i] == '=' by {
            if i >= 4 {
                assert(encoding(s)[i] == rest[i - 4]);
            }
        }
        assert forall|i: int|
            0 <= i < encoding(s).len() && #[trigger] encoding(s)[i] == '=' implies i + 1
            == encoding(s).len() || encoding(s)[i + 1] == '=' by {
            if i >= 4 {
                assert(encoding(s)[i] == rest[i - 4]);
                if i - 4 + 1 < rest.len() {
                    assert(rest[i - 4 + 1] == encoding(s)[i + 1]);
                }
            }
        }
    }
}

/// Whether the base64-encoded form of `n` payload bytes has a length that
/// fits in `usize`.
pub open spec fn encodable(n: nat) -> bool {
    4 * (n / 3) + 4 <= usize::MAX
}

/// Relies on `base64::Engine::encode` with
/// `base64::engine::general_purpose::STANDARD`: RFC 4648 base64 with the
/// `+`/`/` alphabet, `=` padding and no line wrapping. It panics only when
/// the encoded length overflows `usize`, which the precondition rules out.
#[verifier::external_body]
pub(crate) fn to_base64(bytes: &Vec<u8>) -> (r: String)
    requires
        encodable(bytes@.len()),
    ensures
        r@ == encoding(bytes@),
{
    base64::engine::general_purpose::STANDARD.encode(bytes.as_slice())
}

} // verus!
