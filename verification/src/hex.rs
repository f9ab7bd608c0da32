//! Lower-case hexadecimal text for digests and byte strings, and its parsing.
use vstd::prelude::*;
use vstd::string::{StrSliceExecFns, StringExecFns, StringSliceAdditionalSpecFns};
use vstd::utf8::{encode_utf8, is_ascii_chars, is_ascii_chars_encode_utf8};

verus! {

broadcast use vstd::seq_lib::group_seq_properties;

/// Why hexadecimal text was refused.
#[derive(Clone, Copy, Debug, PartialEq, Eq, Structural)]
pub enum HexError {
    OddLength,
    InvalidDigit,
}

/// Lower-case hexadecimal digit of `n < 16`.
pub open spec fn hex_digit(n: int) -> char {
    if n < 10 {
        (48 + n) as char
    } else {
        (87 + n) as char
    }
}

/// Two lower-case hexadecimal digits per byte.
pub open spec fn hex_chars(bytes: Seq<u8>) -> Seq<char>
    decreases bytes.len(),
{
    if bytes.len() == 0 {
        Seq::empty()
    } else {
        hex_chars(bytes.drop_last()) + seq![
            hex_digit(bytes.last() as int / 16),
            hex_digit(bytes.last() as int % 16),
        ]
    }
}

/// The value of a hexadecimal digit byte, either case.
pub open spec fn digit_value(b: u8) -> Option<u8> {
    if 48 <= b <= 57 {
        Some((b - 48) as u8)
    } else if 97 <= b <= 102 {
        Some((b - 87) as u8)
    } else if 65 <= b <= 70 {
        Some((b - 55) as u8)
    } else {
        None
    }
}

/// The byte that a two-byte text parses to in base 16, as `u8::from_str_radix` parses it: two
/// digits, or a plus sign and one digit.
pub open spec fn pair_value(x: u8, y: u8) -> Option<u8> {
    if x == 43 {
        digit_value(y)
    } else {
        match (digit_value(x), digit_value(y)) {
            (Some(h), Some(l)) => Some((16 * h + l) as u8),
            _ => None,
        }
    }
}

/// The bytes that hexadecimal text decodes to.
pub open spec fn hex_decoding(text: Seq<u8>) -> Result<Seq<u8>, HexError> {
    if text.len() % 2 != 0 {
        Err(HexError::OddLength)
    } else if exists|k: int| 0 <= k < text.len() / 2 && (#[trigger] pair_value(text[2 * k], text[2 * k + 1])) is None {
        Err(HexError::InvalidDigit)
    } else {
        Ok(Seq::new(text.len() / 2, |k: int| pair_value(text[2 * k], text[2 * k + 1])->Some_0))
    }
}

/// Every even offset of the text starts a character.
pub open spec fn even_offsets_start_chars(text: Seq<u8>) -> bool {
    forall|k: int| 0 <= k < text.len() && k % 2 == 0 ==> !(0x80 <= #[trigger] text[k] <= 0xBF)
}

/// The lower-case hexadecimal digits, in order of value.
pub const HEX_DIGITS: &'static str = "0123456789abcdef";

/// The one-character text of the hexadecimal digit of `n < 16`.
pub(crate) fn digit_text(n: u8) -> (r: &'static str)
    requires
        n < 16,
    ensures
        r@ == seq![hex_digit(n as int)],
{
    proof {
        reveal_strlit("0123456789abcdef");
    }
    let r = HEX_DIGITS.substring_char(n as usize, n as usize + 1);
    assert(r@ =~= seq![hex_digit(n as int)]) by {
        assert(r@.len() == 1);
        assert(r@[0] == HEX_DIGITS@[n as int]);
        assert(n == 0 || n == 1 || n == 2 || n == 3 || n == 4 || n == 5 || n == 6 || n == 7 || n
            == 8 || n == 9 || n == 10 || n == 11 || n == 12 || n == 13 || n == 14 || n == 15);
    }
    r
}

/// Lower-case hexadecimal text of `bytes`.
pub fn hex(bytes: &[u8]) -> (r: String)
    ensures
        r@ == hex_chars(bytes@),
{
    let mut out = String::new();
    let mut i: usize = 0;
    while i < bytes.len()
        invariant
            0 <= i <= bytes@.len(),
            out@ == hex_chars(bytes@.take(i as int)),
        decreases bytes@.len() - i,
    {
        let ghost before = out@;
        out.append(digit_text(bytes[i] / 16));
        out.append(digit_text(bytes[i] % 16));
        proof {
            assert(bytes@.take(i + 1).drop_last() =~= bytes@.take(i as int));
            assert(out@ =~= before + seq![
                hex_digit(bytes@[i as int] as int / 16),
                hex_digit(bytes@[i as int] as int % 16),
            ]);
        }
        i = i + 1;
    }
    assert(bytes@.take(i as int) =~= bytes@);
    out
}

fn digit(b: u8) -> (r: Option<u8>)
    ensures
        r == digit_value(b),
{
    if 48 <= b && b <= 57 {
        Some(b - 48)
    } else if 97 <= b && b <= 102 {
        Some(b - 87)
    } else if 65 <= b && b <= 70 {
        Some(b - 55)
    } else {
        None
    }
}

fn pair(x: u8, y: u8) -> (r: Option<u8>)
    ensures
        r == pair_value(x, y),
{
    if x == 43 {
        digit(y)
    } else {
        match (digit(x), digit(y)) {
            (Some(h), Some(l)) => Some(16 * h + l),
            _ => None,
        }
    }
}

/// Parses hexadecimal text of either case, two characters per byte.
pub fn decode_hex(value: &str) -> (r: Result<Vec<u8>, HexError>)
    requires
        value.spec_bytes().len() % 2 == 0 ==> even_offsets_start_chars(value.spec_bytes()),
    ensures
        match hex_decoding(value.spec_bytes()) {
            Ok(b) => r is Ok && r->Ok_0@ == b,
            Err(e) => r == Err::<Vec<u8>, HexError>(e),
        },
{
    let text = value.as_bytes();
    let ghost t = text@;
    if text.len() % 2 != 0 {
        return Err(HexError::OddLength);
    }
    let mut out: Vec<u8> = Vec::new();
    let mut k: usize = 0;
    while k < text.len() / 2
        invariant
            t == text@,
            t == value.spec_bytes(),
            t.len() % 2 == 0,
            0 <= k <= t.len() / 2,
            forall|m: int| 0 <= m < k ==> (#[trigger] pair_value(t[2 * m], t[2 * m + 1])) is Some,
            out@ == Seq::new(k as nat, |m: int| pair_value(t[2 * m], t[2 * m + 1])->Some_0),
        decreases t.len() / 2 - k,
    {
        match pair(text[2 * k], text[2 * k + 1]) {
            Some(v) => {
                out.push(v);
            },
            None => {
                assert(pair_value(t[2 * (k as int)], t[2 * (k as int) + 1]) is None);
                return Err(HexError::InvalidDigit);
            },
        }
        k = k + 1;
        assert(out@ =~= Seq::new(k as nat, |m: int| pair_value(t[2 * m], t[2 * m + 1])->Some_0));
    }
    Ok(out)
}

/// A lower-case hexadecimal digit: `0`–`9` or `a`–`f`.
pub open spec fn is_lower_hex_digit(c: char) -> bool {
    ('0' <= c <= '9') || ('a' <= c <= 'f')
}

/// Hexadecimal text has two lower-case digits per byte.
pub proof fn lemma_hex_chars_lower(bytes: Seq<u8>)
    ensures
        hex_chars(bytes).len() == 2 * bytes.len(),
        forall|i: int| 0 <= i < 2 * bytes.len() ==> is_lower_hex_digit(#[trigger] hex_chars(bytes)[i]),
{
    lemma_hex_chars_len(bytes);
    assert forall|i: int| 0 <= i < 2 * bytes.len() implies is_lower_hex_digit(
        #[trigger] hex_chars(bytes)[i],
    ) by {
        let k = i / 2;
        assert(0 <= k < bytes.len());
        assert(i == 2 * k || i == 2 * k + 1);
        assert(hex_chars(bytes)[2 * k] == hex_digit(bytes[k] as int / 16));
        assert(hex_chars(bytes)[2 * k + 1] == hex_digit(bytes[k] as int % 16));
    }
}

pub proof fn lemma_hex_chars_len(bytes: Seq<u8>)
    ensures
        hex_chars(bytes).len() == 2 * bytes.len(),
        forall|k: int|
            0 <= k < bytes.len() ==> hex_chars(bytes)[2 * k] == hex_digit(bytes[k] as int / 16)
                && hex_chars(bytes)[2 * k + 1] == hex_digit(bytes[k] as int % 16),
    decreases bytes.len(),
{
    if bytes.len() > 0 {
        let init = bytes.drop_last();
        lemma_hex_chars_len(init);
        assert forall|k: int|
            0 <= k < bytes.len() implies hex_chars(bytes)[2 * k] == hex_digit(bytes[k] as int / 16)
                && hex_chars(bytes)[2 * k + 1] == hex_digit(bytes[k] as int % 16) by {
            if k < init.len() {
                assert(init[k] == bytes[k]);
            }
        }
    }
}

/// Hexadecimal text decodes back to the bytes it was made from.
pub proof fn lemma_hex_roundtrip(bytes: Seq<u8>)
    ensures
        hex_decoding(encode_utf8(hex_chars(bytes))) == Ok::<Seq<u8>, HexError>(bytes),
{
    let chars = hex_chars(bytes);
    lemma_hex_chars_len(bytes);
    assert(is_ascii_chars(chars)) by {
        assert forall|i: int| 0 <= i < chars.len() implies '\0' <= #[trigger] chars[i] <= '\u{7f}' by {
            let k = i / 2;
            assert(0 <= k < bytes.len());
            let n = if i % 2 == 0 {
                bytes[k] as int / 16
            } else {
                bytes[k] as int % 16
            };
            assert(0 <= n < 16);
            if i % 2 == 0 {
                assert(i == 2 * k);
            } else {
                assert(i == 2 * k + 1);
            }
            assert(chars[i] == hex_digit(n));
            assert(hex_digit(n) as u32 == (if n < 10 { 48 + n } else { 87 + n }));
        }
    }
    is_ascii_chars_encode_utf8(chars);
    let text = encode_utf8(chars);
    assert forall|k: int| 0 <= k < bytes.len() implies #[trigger] pair_value(text[2 * k], text[2 * k + 1])
        == Some(bytes[k]) by {
        assert(text[2 * k] == chars[2 * k] as u8);
        assert(text[2 * k + 1] == chars[2 * k + 1] as u8);
        let h = bytes[k] as int / 16;
        let l = bytes[k] as int % 16;
        assert(digit_value(text[2 * k]) == Some(h as u8));
        assert(digit_value(text[2 * k + 1]) == Some(l as u8));
    }
    assert(text.len() / 2 == bytes.len());
    assert(Seq::new(text.len() / 2, |k: int| pair_value(text[2 * k], text[2 * k + 1])->Some_0) =~= bytes);
}

} // verus!
