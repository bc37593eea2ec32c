//! The nibbles of a key as hexadecimal digits.
//!
//! The leading zero nibbles are counted on the digits of the word's bytes in
//! little-endian order, least significant byte first, after the zero digits
//! at the front have been dropped and the rest has been filled up to whole
//! bytes. The expected nibble is read from the digits of the key in
//! big-endian order without its leading zero digits.

use crate::bytes::{be_bytes, lemma_be_bytes_len};
use crate::uint256::U256;
use vstd::prelude::*;

verus! {

/// The character `0`.
pub const ZERO_DIGIT: u8 = 0x30;

/// The lower-case hexadecimal digit for a value below 16.
pub open spec fn hex_char(nibble: int) -> u8 {
    if nibble < 10 {
        (0x30 + nibble) as u8
    } else {
        (0x61 + nibble - 10) as u8
    }
}

/// The value of a lower-case hexadecimal digit.
pub open spec fn hex_value(digit: u8) -> int {
    if digit <= 0x39 {
        digit - 0x30
    } else {
        digit - 0x61 + 10
    }
}

/// Two lower-case hexadecimal digits for each of `bytes`, the high nibble first.
pub open spec fn hex_digits(bytes: Seq<u8>) -> Seq<u8> {
    Seq::new(
        2 * bytes.len(),
        |i: int|
            if i % 2 == 0 {
                hex_char(bytes[i / 2] as int / 16)
            } else {
                hex_char(bytes[i / 2] as int % 16)
            },
    )
}

/// The number of zero digits at the front of `text`.
pub open spec fn leading_zero_digits(text: Seq<u8>) -> nat
    decreases text.len(),
{
    if text.len() == 0 || text[0] != ZERO_DIGIT {
        0
    } else {
        1 + leading_zero_digits(text.skip(1))
    }
}

/// `text` without the zero digits at its front.
pub open spec fn trim_zero_digits(text: Seq<u8>) -> Seq<u8> {
    text.skip(leading_zero_digits(text) as int)
}

/// The digits on which the leading zero nibbles of `x` are counted: those of
/// its 32 bytes, least significant byte first, without the zero digits at
/// the front, a single zero where nothing is left, and one more zero in
/// front where the count of digits is odd.
pub open spec fn reversed_hex(x: nat) -> Seq<u8> {
    let trimmed = trim_zero_digits(hex_digits(be_bytes(x, 32).reverse()));
    let digits = if trimmed.len() == 0 {
        seq![ZERO_DIGIT]
    } else {
        trimmed
    };
    if digits.len() % 2 == 1 {
        seq![ZERO_DIGIT] + digits
    } else {
        digits
    }
}

/// The number of leading zero nibbles that is expected of `x`, counted after
/// the first digit where `cut` asks for it.
pub open spec fn expected_leading_zeroes(x: nat, cut: bool) -> nat {
    let digits = reversed_hex(x);
    leading_zero_digits(
        if cut {
            digits.skip(1)
        } else {
            digits
        },
    )
}

/// The digits of `key` in big-endian order without leading zero digits; none for zero.
pub open spec fn key_hex(key: nat) -> Seq<u8> {
    trim_zero_digits(hex_digits(be_bytes(key, 32)))
}

/// [`key_hex`] behind `zeroes` zero digits.
pub open spec fn padded_key_hex(key: nat, zeroes: nat) -> Seq<u8> {
    Seq::new(zeroes, |i: int| ZERO_DIGIT) + key_hex(key)
}

/// Calls `hex::encode` and returns the characters of the string as bytes.
/// Trusted: the string holds two lower-case hexadecimal digits for each byte
/// of the input, as the function documents.
#[verifier::external_body]
fn hex_encode(bytes: &[u8]) -> (digits: Vec<u8>)
    ensures
        digits@ == hex_digits(bytes@),
{
    hex::encode(bytes).into_bytes()
}

/// No digit is past the end, and no more than all digits are zero.
pub proof fn lemma_leading_zero_digits_le(text: Seq<u8>)
    ensures
        leading_zero_digits(text) <= text.len(),
    decreases text.len(),
{
    if text.len() > 0 && text[0] == ZERO_DIGIT {
        lemma_leading_zero_digits_le(text.skip(1));
    }
}

/// The number of zero digits at the front of `text` from `from` on.
fn count_leading_zero_digits(text: &Vec<u8>, from: usize) -> (count: usize)
    requires
        from <= text.len(),
    ensures
        count == leading_zero_digits(text@.skip(from as int)),
        from + count <= text.len(),
{
    let mut i: usize = from;
    while i < text.len() && text[i] == ZERO_DIGIT
        invariant
            from <= i <= text.len(),
            leading_zero_digits(text@.skip(from as int)) == (i - from) + leading_zero_digits(
                text@.skip(i as int),
            ),
        decreases text.len() - i,
    {
        assert(text@.skip(i as int).skip(1) =~= text@.skip(i + 1));
        i = i + 1;
    }
    i - from
}

pub const HINT_EXPECTED_LEADING_ZEROES: &'static str =
    "from tools.py.utils import parse_int_to_bytes, count_leading_zero_nibbles_from_hex\nreversed_hex = parse_int_to_bytes(ids.x.low + (2 ** 128) * ids.x.high)[::-1].hex()\nexpected_leading_zeroes = count_leading_zero_nibbles_from_hex(reversed_hex[1:] if ids.cut_nibble == 1 else reversed_hex)";

/// The value for `expected_leading_zeroes`: the leading zero nibbles of the
/// wide integer `x`, counted after the first digit where `cut_nibble` is one.
pub fn hint_expected_leading_zeroes(x: &U256, cut_nibble: &U256) -> (written: U256)
    ensures
        written@ == expected_leading_zeroes(x@, cut_nibble@ == 1),
{
    let be = x.to_be_bytes();
    let mut le_bytes: Vec<u8> = Vec::new();
    let mut i: usize = 0;
    while i < 32
        invariant
            i <= 32,
            le_bytes.len() == i,
            forall|k: int| 0 <= k < i ==> le_bytes[k] == be[31 - k],
        decreases 32 - i,
    {
        le_bytes.push(be[31 - i]);
        i = i + 1;
    }
    assert(le_bytes@ =~= be@.reverse());
    let hex = hex_encode(le_bytes.as_slice());
    let zeroes = count_leading_zero_digits(&hex, 0);
    assert(hex@.skip(0) =~= hex@);
    let mut hex_str: Vec<u8> = Vec::new();
    let mut j: usize = zeroes;
    while j < hex.len()
        invariant
            zeroes <= j <= hex.len(),
            hex_str@ == hex@.subrange(zeroes as int, j as int),
        decreases hex.len() - j,
    {
        hex_str.push(hex[j]);
        j = j + 1;
    }
    assert(hex_str@ =~= trim_zero_digits(hex@));
    if hex_str.len() == 0 {
        hex_str.push(ZERO_DIGIT);
        assert(hex_str@ =~= seq![ZERO_DIGIT]);
    }
    if hex_str.len() % 2 == 1 {
        let ghost odd = hex_str@;
        hex_str.insert(0, ZERO_DIGIT);
        assert(hex_str@ =~= seq![ZERO_DIGIT] + odd);
    }
    assert(hex_str@ == reversed_hex(x@));
    let from: usize = if cut_nibble.high == 0 && cut_nibble.low == 1 {
        1
    } else {
        0
    };
    assert(hex_str@.skip(0) =~= hex_str@);
    let count = count_leading_zero_digits(&hex_str, from);
    U256::from_usize(count)
}

/// The number of digits of `key` from its most significant digit that is
/// not zero on: none for zero, 64 at most.
pub fn key_nibbles(key: &U256) -> (count: usize)
    ensures
        count == key_hex(key@).len(),
        count <= 64,
{
    let be = x_bytes(key);
    let hex = hex_encode(be.as_slice());
    let zeroes = count_leading_zero_digits(&hex, 0);
    assert(hex@.skip(0) =~= hex@);
    proof {
        lemma_be_bytes_len(key@, 32);
    }
    hex.len() - zeroes
}

pub const HINT_EXPECTED_NIBBLE: &'static str =
    "key_hex = ids.key_leading_zeroes_nibbles * '0' + hex(ids.key.low + (2 ** 128) * ids.key.high)[2:]\nexpected_nibble = int(key_hex[ids.nibble_index + ids.key_leading_zeroes_nibbles], 16)";

/// The value for `expected_nibble`: the nibble at `nibble_index`, counted
/// from the most significant nibble that is not zero, of the wide integer
/// `key`. That is the digit at `nibble_index + key_leading_zeroes_nibbles`
/// of the key's digits behind `key_leading_zeroes_nibbles` zero digits. The
/// key must have a digit there.
pub fn hint_expected_nibble(
    key: &U256,
    key_leading_zeroes_nibbles: usize,
    nibble_index: usize,
) -> (written: u32)
    requires
        nibble_index + key_leading_zeroes_nibbles <= usize::MAX,
        nibble_index < key_hex(key@).len(),
    ensures
        written == hex_value(
            padded_key_hex(key@, key_leading_zeroes_nibbles as nat)[nibble_index
                + key_leading_zeroes_nibbles],
        ),
        written == hex_value(key_hex(key@)[nibble_index as int]),
        written < 16,
{
    let be = x_bytes(key);
    let hex = hex_encode(be.as_slice());
    let zeroes = count_leading_zero_digits(&hex, 0);
    assert(hex@.skip(0) =~= hex@);
    let position = nibble_index + key_leading_zeroes_nibbles;
    let nibble_char = hex[zeroes + (position - key_leading_zeroes_nibbles)];
    proof {
        let at = zeroes + nibble_index;
        let byte = be@[at / 2] as int;
        assert(0 <= byte / 16 < 16 && 0 <= byte % 16 < 16);
    }
    if nibble_char <= 0x39 {
        (nibble_char - 0x30) as u32
    } else {
        (nibble_char - 0x61 + 10) as u32
    }
}

/// The 32 bytes of `x`, most significant first.
fn x_bytes(x: &U256) -> (bytes: Vec<u8>)
    ensures
        bytes@ == be_bytes(x@, 32),
{
    let be = x.to_be_bytes();
    let mut bytes: Vec<u8> = Vec::new();
    let mut i: usize = 0;
    while i < 32
        invariant
            i <= 32,
            bytes@ == be@.subrange(0, i as int),
        decreases 32 - i,
    {
        bytes.push(be[i]);
        i = i + 1;
    }
    assert(be@.subrange(0, 32) =~= be@);
    bytes
}

} // verus!
