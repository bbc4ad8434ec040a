//! Encodings the requests are made of: JSON string literals, hexadecimal and
//! Base64.
use base64::Engine;
use vstd::prelude::*;
use vstd::utf8::{encode_utf8, is_ascii_chars, is_ascii_chars_encode_utf8};

verus! {

pub open spec fn hex_digit_lower(v: int) -> char {
    if v < 10 {
        (48 + v) as char
    } else {
        (87 + v) as char
    }
}

/// How `serde_json` writes one character inside a string literal.
pub open spec fn json_escape(c: char) -> Seq<char> {
    if c == '"' {
        seq!['\\', '"']
    } else if c == '\\' {
        seq!['\\', '\\']
    } else if c == '\x08' {
        seq!['\\', 'b']
    } else if c == '\x0c' {
        seq!['\\', 'f']
    } else if c == '\n' {
        seq!['\\', 'n']
    } else if c == '\r' {
        seq!['\\', 'r']
    } else if c == '\t' {
        seq!['\\', 't']
    } else if (c as u32) < 0x20 {
        seq![
            '\\',
            'u',
            '0',
            '0',
            hex_digit_lower((c as int) / 16),
            hex_digit_lower((c as int) % 16),
        ]
    } else {
        seq![c]
    }
}

pub open spec fn json_escape_all(s: Seq<char>) -> Seq<char>
    decreases s.len(),
{
    if s.len() == 0 {
        Seq::empty()
    } else {
        json_escape_all(s.drop_last()) + json_escape(s.last())
    }
}

/// A JSON string literal holding `s`, as `serde_json` writes it.
pub open spec fn json_quote(s: Seq<char>) -> Seq<char> {
    seq!['"'] + json_escape_all(s) + seq!['"']
}

/// `serde_json::to_string` of a string slice: the text in double quotes,
/// with `"` and `\` escaped by a backslash, backspace, form feed, line feed,
/// carriage return and tab written `\b \f \n \r \t`, and the other
/// characters below U+0020 written `\u00xx` in lower-case hexadecimal;
/// every other character is written as it is.  Writing a `str` cannot fail.
#[verifier::external_body]
pub(crate) fn json_string(s: &str) -> (r: String)
    ensures
        r@ == json_quote(s@),
{
    match serde_json::to_string(s) {
        Ok(t) => t,
        Err(_) => String::new(),
    }
}

/// The value of an ASCII hexadecimal digit (either case).
pub open spec fn hex_value(b: u8) -> Option<int> {
    if 48 <= b && b <= 57 {
        Some(b as int - 48)
    } else if 65 <= b && b <= 70 {
        Some(b as int - 55)
    } else if 97 <= b && b <= 102 {
        Some(b as int - 87)
    } else {
        None
    }
}

/// The bytes that a hexadecimal text spells, two digits to a byte.
pub open spec fn hex_decode_spec(h: Seq<u8>) -> Option<Seq<u8>>
    decreases h.len(),
{
    if h.len() % 2 != 0 {
        None
    } else if h.len() == 0 {
        Some(Seq::empty())
    } else {
        match (hex_value(h[0]), hex_value(h[1]), hex_decode_spec(h.subrange(2, h.len() as int))) {
            (Some(a), Some(b), Some(rest)) => Some(seq![(a * 16 + b) as u8] + rest),
            _ => None,
        }
    }
}

/// `hex::decode`: an error for an odd length or any byte that is not a
/// hexadecimal digit; otherwise each pair of digits (either case) is a byte.
#[verifier::external_body]
pub(crate) fn hex_decode(h: &[u8]) -> (r: Option<Vec<u8>>)
    ensures
        match hex_decode_spec(h@) {
            Some(b) => r matches Some(v) && v@ == b,
            None => r is None,
        },
{
    match hex::decode(h) {
        Ok(v) => Some(v),
        Err(_) => None,
    }
}

/// Lower-case hexadecimal, two digits a byte (`format!("{:02x}", b)`).
pub open spec fn hex_lower(b: Seq<u8>) -> Seq<char>
    decreases b.len(),
{
    if b.len() == 0 {
        Seq::empty()
    } else {
        hex_lower(b.drop_last()) + seq![
            hex_digit_lower((b.last() as int) / 16),
            hex_digit_lower((b.last() as int) % 16),
        ]
    }
}

proof fn lemma_hex_lower_digits(b: Seq<u8>)
    ensures
        hex_lower(b).len() == 2 * b.len(),
        forall|k: int|
            0 <= k < b.len() ==> hex_lower(b)[2 * k] == hex_digit_lower((b[k] as int) / 16)
                && hex_lower(b)[2 * k + 1] == hex_digit_lower((b[k] as int) % 16),
    decreases b.len(),
{
    if b.len() > 0 {
        lemma_hex_lower_digits(b.drop_last());
        assert forall|k: int| 0 <= k < b.len() - 1 implies b[k] == b.drop_last()[k] by {}
    }
}

proof fn lemma_hex_digit_code(v: int)
    requires
        0 <= v < 16,
    ensures
        (hex_digit_lower(v) as u32) < 128,
        hex_value(hex_digit_lower(v) as u8) == Some(v),
{
}

proof fn lemma_hex_decode_digits(h: Seq<u8>, b: Seq<u8>)
    requires
        h.len() == 2 * b.len(),
        forall|k: int|
            0 <= k < b.len() ==> h[2 * k] == hex_digit_lower((b[k] as int) / 16) as u8 && h[2 * k
                + 1] == hex_digit_lower((b[k] as int) % 16) as u8,
    ensures
        hex_decode_spec(h) == Some(b),
    decreases b.len(),
{
    if b.len() > 0 {
        let rest = h.subrange(2, h.len() as int);
        assert forall|k: int| 0 <= k < b.len() - 1 implies rest[2 * k] == hex_digit_lower(
            (b.drop_first()[k] as int) / 16,
        ) as u8 && rest[2 * k + 1] == hex_digit_lower((b.drop_first()[k] as int) % 16) as u8 by {
            assert(rest[2 * k] == h[2 * (k + 1)]);
            assert(rest[2 * k + 1] == h[2 * (k + 1) + 1]);
        }
        lemma_hex_decode_digits(rest, b.drop_first());
        let x = b[0] as int;
        lemma_hex_digit_code(x / 16);
        lemma_hex_digit_code(x % 16);
        assert(((x / 16) * 16 + x % 16) as u8 == b[0]);
        assert(seq![b[0]] + b.drop_first() =~= b);
    } else {
        assert(b =~= Seq::<u8>::empty());
    }
}

/// Hexadecimal reads back: `hex::decode` of the UTF-8 bytes of the
/// lower-case hexadecimal spelling of some bytes gives those bytes.
pub proof fn law_hex_round_trip(b: Seq<u8>)
    ensures
        hex_decode_spec(encode_utf8(hex_lower(b))) == Some(b),
{
    let t = hex_lower(b);
    lemma_hex_lower_digits(b);
    assert forall|i: int| 0 <= i < t.len() implies '\0' <= #[trigger] t[i] <= '\u{7f}' by {
        let k = i / 2;
        if i % 2 == 0 {
            assert(i == 2 * k);
            lemma_hex_digit_code((b[k] as int) / 16);
        } else {
            assert(i == 2 * k + 1);
            lemma_hex_digit_code((b[k] as int) % 16);
        }
    }
    assert(is_ascii_chars(t));
    is_ascii_chars_encode_utf8(t);
    let h = encode_utf8(t);
    assert forall|k: int| 0 <= k < b.len() implies h[2 * k] == hex_digit_lower((b[k] as int) / 16) as u8
        && h[2 * k + 1] == hex_digit_lower((b[k] as int) % 16) as u8 by {
        assert(t[2 * k] as u8 == h[2 * k]);
        assert(t[2 * k + 1] as u8 == h[2 * k + 1]);
    }
    lemma_hex_decode_digits(h, b);
}

pub open spec fn base64_char(v: int) -> char {
    if v < 26 {
        (65 + v) as char
    } else if v < 52 {
        (71 + v) as char
    } else if v < 62 {
        (v - 4) as char
    } else if v == 62 {
        '+'
    } else {
        '/'
    }
}

/// Standard Base64 (RFC 4648 alphabet, `=` padding).
pub open spec fn base64_std(b: Seq<u8>) -> Seq<char>
    decreases b.len(),
{
    let b0 = b[0] as int;
    let b1 = b[1] as int;
    let b2 = b[2] as int;
    if b.len() == 0 {
        Seq::empty()
    } else if b.len() == 1 {
        seq![base64_char(b0 / 4), base64_char((b0 % 4) * 16), '=', '=']
    } else if b.len() == 2 {
        seq![
            base64_char(b0 / 4),
            base64_char((b0 % 4) * 16 + b1 / 16),
            base64_char((b1 % 16) * 4),
            '=',
        ]
    } else {
        seq![
            base64_char(b0 / 4),
            base64_char((b0 % 4) * 16 + b1 / 16),
            base64_char((b1 % 16) * 4 + b2 / 64),
            base64_char(b2 % 64),
        ] + base64_std(b.subrange(3, b.len() as int))
    }
}

/// `base64::engine::general_purpose::STANDARD.encode`: the standard
/// alphabet `A-Z a-z 0-9 + /`, each 3 bytes to 4 characters, the last group
/// padded with `=`.
#[verifier::external_body]
pub(crate) fn base64_encode(b: &[u8]) -> (r: String)
    ensures
        r@ == base64_std(b@),
{
    base64::engine::general_purpose::STANDARD.encode(b)
}

} // verus!
