//! The stored form of 128-bit identifiers: `0x` and 32 lower-case
//! hexadecimal digits, read back from that form or from the plain 64-bit
//! numbers that older workspaces hold.

use vstd::prelude::*;
use vstd::string::StrSliceExecFns;

use crate::text::{hex_char, hex_digit, is_ascii_hex, push_char};

verus! {

/// `value` as exactly `width` lower-case hexadecimal digits, most
/// significant first (`{:0width$x}` for values below `16^width`).
pub open spec fn hex_fixed(value: nat, width: nat) -> Seq<char>
    decreases width,
{
    if width == 0 {
        Seq::empty()
    } else {
        hex_fixed(value / 16, (width - 1) as nat).push(hex_digit(value % 16))
    }
}

/// The stored text of a 128-bit identifier.
pub open spec fn stored_u128_text(value: u128) -> Seq<char> {
    "0x"@ + hex_fixed(value as nat, 32)
}

/// The value of a hexadecimal digit of either case.
pub open spec fn hex_digit_value(c: char) -> int {
    if '0' <= c && c <= '9' {
        c as int - 48
    } else if 'a' <= c && c <= 'f' {
        c as int - 87
    } else {
        c as int - 55
    }
}

/// The value of a string of hexadecimal digits.
pub open spec fn hex_value(digits: Seq<char>) -> int
    decreases digits.len(),
{
    if digits.len() == 0 {
        0
    } else {
        hex_value(digits.drop_last()) * 16 + hex_digit_value(digits.last())
    }
}

/// The digits of an unsigned number's text: all of it after an optional
/// leading `+`.
pub open spec fn unsigned_digits(text: Seq<char>) -> Seq<char> {
    if text.len() > 0 && text[0] == '+' {
        text.drop_first()
    } else {
        text
    }
}

/// Whether `text` reads as a 128-bit unsigned number in base sixteen: an
/// optional `+`, then one or more hexadecimal digits whose value fits.
pub open spec fn parses_as_hex_u128(text: Seq<char>) -> bool {
    let digits = unsigned_digits(text);
    &&& digits.len() > 0
    &&& forall|i: int| 0 <= i < digits.len() ==> is_ascii_hex(#[trigger] digits[i])
    &&& hex_value(digits) <= u128::MAX
}

/// Reads `text` as a base-sixteen `u128` (`u128::from_str_radix(text, 16)`):
/// it accepts an optional `+` followed by one or more digits `0-9`, `a-f`,
/// `A-F` whose value fits in 128 bits, and refuses anything else with std's
/// description of the error, whose wording is left unsaid here.
#[verifier::external_body]
fn parse_u128_hex(text: &str) -> (parsed: Result<u128, String>)
    ensures
        parsed is Ok <==> parses_as_hex_u128(text@),
        parsed matches Ok(value) ==> value == hex_value(unsigned_digits(text@)),
{
    u128::from_str_radix(text, 16).map_err(|error| error.to_string())
}

fn push_hex_fixed(text: &mut String, value: u128, width: usize)
    ensures
        final(text)@ == old(text)@ + hex_fixed(value as nat, width as nat),
    decreases width,
{
    if width == 0 {
        assert(final(text)@ =~= old(text)@ + hex_fixed(value as nat, width as nat));
        return;
    }
    push_hex_fixed(text, value / 16, width - 1);
    push_char(text, hex_char((value % 16) as u64));
    assert(final(text)@ =~= old(text)@ + hex_fixed(value as nat, width as nat));
}

/// Sixteen to the power `width`.
pub open spec fn radix16(width: nat) -> nat
    decreases width,
{
    if width == 0 {
        1
    } else {
        16 * radix16((width - 1) as nat)
    }
}

proof fn lemma_hex_digit_value(d: nat)
    requires
        d < 16,
    ensures
        is_ascii_hex(hex_digit(d)),
        hex_digit_value(hex_digit(d)) == d,
        hex_digit(d) != '+',
{
}

proof fn lemma_hex_fixed(value: nat, width: nat)
    ensures
        hex_fixed(value, width).len() == width,
        forall|i: int| 0 <= i < width ==> is_ascii_hex(#[trigger] hex_fixed(value, width)[i]),
        width > 0 ==> hex_fixed(value, width)[0] != '+',
        hex_value(hex_fixed(value, width)) == value % radix16(width),
    decreases width,
{
    if width > 0 {
        let w1 = (width - 1) as nat;
        lemma_hex_fixed(value / 16, w1);
        lemma_hex_digit_value(value % 16);
        let s = hex_fixed(value, width);
        assert(s.drop_last() =~= hex_fixed(value / 16, w1));
        let m = radix16(w1);
        assert(m > 0) by {
            lemma_radix16_positive(w1);
        }
        assert(((value / 16) % m) * 16 + value % 16 == value % (16 * m)) by (nonlinear_arith)
            requires
                m > 0,
        {
            vstd::arithmetic::div_mod::lemma_breakdown(value as int, 16, m as int);
        }
    }
}

proof fn lemma_radix16_positive(width: nat)
    ensures
        radix16(width) > 0,
    decreases width,
{
    if width > 0 {
        lemma_radix16_positive((width - 1) as nat);
    }
}

/// Every 128-bit identifier survives storage: its stored text carries the
/// `0x` prefix, and what follows reads back as the same value.
pub proof fn lemma_stored_u128_round_trip(value: u128)
    ensures
        stored_u128_text(value).len() == 34,
        stored_u128_text(value)[0] == '0',
        stored_u128_text(value)[1] == 'x',
        parses_as_hex_u128(stored_u128_text(value).skip(2)),
        hex_value(unsigned_digits(stored_u128_text(value).skip(2))) == value,
{
    reveal_strlit("0x");
    lemma_hex_fixed(value as nat, 32);
    let text = stored_u128_text(value);
    assert(text.skip(2) =~= hex_fixed(value as nat, 32));
    assert(radix16(32) == 0x1_0000_0000_0000_0000_0000_0000_0000_0000) by {
        reveal_with_fuel(radix16, 33);
    }
}

/// A stored 128-bit identifier as it is read: a plain 64-bit number from an
/// older workspace, or the text of the current form.
#[derive(Clone, Debug, PartialEq, Eq)]
pub enum StoredU128 {
    Legacy(u64),
    Hex(String),
}

/// The stored form of an optional identifier: `0x` and 32 lower-case
/// hexadecimal digits.
pub fn serialize_optional_u128(value: &Option<u128>) -> (stored: Option<String>)
    ensures
        value is None ==> stored is None,
        value matches Some(v) ==> (stored matches Some(text) && text@ == stored_u128_text(*v)),
{
    match value {
        Some(v) => {
            let mut text = "0x".to_owned();
            push_hex_fixed(&mut text, *v, 32);
            Some(text)
        },
        None => None,
    }
}

/// Reads a stored optional identifier back: a legacy number as it is; the
/// text form after its `0x` prefix, in base sixteen.
pub fn deserialize_optional_u128(stored: Option<StoredU128>) -> (result: Result<Option<u128>, String>)
    ensures
        stored is None ==> result == Ok::<Option<u128>, String>(None),
        stored matches Some(StoredU128::Legacy(v)) ==> result == Ok::<Option<u128>, String>(
            Some(v as u128),
        ),
        stored matches Some(StoredU128::Hex(text)) ==> {
            let has_prefix = text@.len() >= 2 && text@[0] == '0' && text@[1] == 'x';
            let rest = text@.skip(2);
            &&& !has_prefix ==> (result matches Err(message) && message@
                == "stored 128-bit ID is missing its 0x prefix"@)
            &&& has_prefix ==> (result is Ok <==> parses_as_hex_u128(rest))
            &&& has_prefix ==> (result matches Ok(found) ==> (found matches Some(v) && v == hex_value(
                unsigned_digits(rest),
            )))
            &&& has_prefix ==> (result matches Err(message) ==> message@.take(27)
                == "invalid stored 128-bit ID: "@)
        },
{
    match stored {
        None => Ok(None),
        Some(StoredU128::Legacy(value)) => Ok(Some(value as u128)),
        Some(StoredU128::Hex(text)) => {
            let length: usize = text.as_str().unicode_len();
            if length < 2 || text.as_str().get_char(0) != '0' || text.as_str().get_char(1) != 'x' {
                return Err("stored 128-bit ID is missing its 0x prefix".to_owned());
            }
            let hex = text.as_str().substring_char(2, length);
            assert(hex@ =~= text@.skip(2));
            match parse_u128_hex(hex) {
                Ok(value) => Ok(Some(value)),
                Err(error) => {
                    let mut message = "invalid stored 128-bit ID: ".to_owned();
                    let ghost prefix = message@;
                    crate::text::push_str(&mut message, error.as_str());
                    proof {
                        reveal_strlit("invalid stored 128-bit ID: ");
                        assert(message@.take(27) =~= prefix);
                    }
                    Err(message)
                },
            }
        },
    }
}

} // verus!
