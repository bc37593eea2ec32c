//! The classes of the first byte of an RLP item in a Merkle Patricia Trie
//! proof: a single byte from 0x00 to 0x7f, a short string from 0x80 to 0xb7,
//! a long string from 0xb8 to 0xbf, a short list from 0xc0 to 0xf7, and a
//! long list from 0xf8 to 0xff. Each range includes both of its ends.

use crate::error::HintError;
use crate::hints::{answers, same_text, unknown_hint, Hint};
use crate::uint256::U256;
use vstd::prelude::*;

verus! {

/// Whether `value` marks a single byte.
pub open spec fn spec_is_single_byte(value: nat) -> bool {
    value <= 0x7f
}

/// Whether `value` marks a short string.
pub open spec fn spec_is_short_string(value: nat) -> bool {
    0x80 <= value <= 0xb7
}

/// Whether `value` marks a long string.
pub open spec fn spec_is_long_string(value: nat) -> bool {
    0xb8 <= value <= 0xbf
}

/// Whether `value` marks a short list.
pub open spec fn spec_is_short_list(value: nat) -> bool {
    0xc0 <= value <= 0xf7
}

/// Whether `value` marks a long list.
pub open spec fn spec_is_long_list(value: nat) -> bool {
    0xf8 <= value <= 0xff
}

/// Whether `low <= value <= high`.
fn within(value: &U256, low: u128, high: u128) -> (inside: bool)
    ensures
        inside == (low <= value@ <= high),
{
    value.high == 0 && low <= value.low && value.low <= high
}

/// Check if the value indicates a single byte (0x00 to 0x7f).
pub fn is_single_byte(value: &U256) -> (is: bool)
    ensures
        is == spec_is_single_byte(value@),
{
    within(value, 0x00, 0x7f)
}

/// Check if the value indicates a short string (0x80 to 0xb7).
pub fn is_short_string(value: &U256) -> (is: bool)
    ensures
        is == spec_is_short_string(value@),
{
    within(value, 0x80, 0xb7)
}

/// Check if the value indicates a long string (0xb8 to 0xbf).
pub fn is_long_string(value: &U256) -> (is: bool)
    ensures
        is == spec_is_long_string(value@),
{
    within(value, 0xb8, 0xbf)
}

/// Check if the value indicates a short list (0xc0 to 0xf7).
pub fn is_short_list(value: &U256) -> (is: bool)
    ensures
        is == spec_is_short_list(value@),
{
    within(value, 0xc0, 0xf7)
}

/// Check if the value indicates a long list (0xf8 to 0xff).
pub fn is_long_list(value: &U256) -> (is: bool)
    ensures
        is == spec_is_long_list(value@),
{
    within(value, 0xf8, 0xff)
}

/// Whether `error` says that `value` was none of what `expected` names.
pub open spec fn is_invalid_value(error: HintError, expected: &str, value: U256) -> bool {
    error matches HintError::InvalidValue(message, given, other) && message@ == expected@ && given
        == value && other@ == 0
}

/// The failure for an operand outside every range that a routine knows.
fn invalid_value(expected: &'static str, value: &U256) -> (error: HintError)
    ensures
        is_invalid_value(error, expected, *value),
{
    HintError::InvalidValue(expected, *value, U256 { high: 0, low: 0 })
}

pub const INVALID_LIST_PREFIX: &'static str = "Invalid list prefix. Not a recognized list type.";

pub const UNSUPPORTED_FIRST_ITEM_PREFIX: &'static str = "Unsupported first item prefix";

pub const UNSUPPORTED_SECOND_ITEM_PREFIX: &'static str = "Unsupported second item prefix";

pub const UNSUPPORTED_ITEM_PREFIX: &'static str =
    "Unsupported item prefix for a branch node. Should be single byte or short string only.";

pub const HINT_LONG_SHORT_LIST: &'static str =
    "from tools.py.hints import is_short_list, is_long_list\nif is_short_list(ids.list_prefix):\n    ids.long_short_list = 0\nelif is_long_list(ids.list_prefix):\n    ids.long_short_list = 1\nelse:\n    raise ValueError(f\"Invalid list prefix: {hex(ids.list_prefix)}. Not a recognized list type.\")";

/// The value for `long_short_list`: zero for a short list, one for a long
/// list. Any other prefix is refused.
pub fn hint_long_short_list(list_prefix: &U256) -> (written: Result<U256, HintError>)
    ensures
        match written {
            Ok(class) => (spec_is_short_list(list_prefix@) && class@ == 0) || (spec_is_long_list(
                list_prefix@,
            ) && class@ == 1),
            Err(error) => !spec_is_short_list(list_prefix@) && !spec_is_long_list(list_prefix@)
                && is_invalid_value(error, INVALID_LIST_PREFIX, *list_prefix),
        },
{
    if is_short_list(list_prefix) {
        Ok(U256::from_u128(0))
    } else if is_long_list(list_prefix) {
        Ok(U256::from_u128(1))
    } else {
        Err(invalid_value(INVALID_LIST_PREFIX, list_prefix))
    }
}

pub const HINT_FIRST_ITEM_TYPE: &'static str =
    "from tools.py.hints import is_single_byte, is_short_string\nif is_single_byte(ids.first_item_prefix):\n    ids.first_item_type = 0\nelif is_short_string(ids.first_item_prefix):\n    ids.first_item_type = 1\nelse:\n    raise ValueError(f\"Unsupported first item prefix: {hex(ids.first_item_prefix)}.\")";

/// The value for `first_item_type`: zero for a single byte, one for a short
/// string. Any other prefix is refused.
pub fn hint_first_item_type(first_item_prefix: &U256) -> (written: Result<U256, HintError>)
    ensures
        match written {
            Ok(class) => (spec_is_single_byte(first_item_prefix@) && class@ == 0) || (
            spec_is_short_string(first_item_prefix@) && class@ == 1),
            Err(error) => !spec_is_single_byte(first_item_prefix@) && !spec_is_short_string(
                first_item_prefix@,
            ) && is_invalid_value(error, UNSUPPORTED_FIRST_ITEM_PREFIX, *first_item_prefix),
        },
{
    if is_single_byte(first_item_prefix) {
        Ok(U256::from_u128(0))
    } else if is_short_string(first_item_prefix) {
        Ok(U256::from_u128(1))
    } else {
        Err(invalid_value(UNSUPPORTED_FIRST_ITEM_PREFIX, first_item_prefix))
    }
}

pub const HINT_SECOND_ITEM_TYPE: &'static str =
    "from tools.py.hints import is_single_byte, is_short_string, is_long_string\nif is_single_byte(ids.second_item_prefix):\n    ids.second_item_type = 0\nelif is_short_string(ids.second_item_prefix):\n    ids.second_item_type = 1\nelif is_long_string(ids.second_item_prefix):\n    ids.second_item_type = 2\nelse:\n    raise ValueError(f\"Unsupported second item prefix: {hex(ids.second_item_prefix)}.\")";

/// The value for `second_item_type`: zero for a single byte, one for a short
/// string, two for a long string. Any other prefix is refused.
pub fn hint_second_item_type(second_item_prefix: &U256) -> (written: Result<U256, HintError>)
    ensures
        match written {
            Ok(class) => (spec_is_single_byte(second_item_prefix@) && class@ == 0) || (
            spec_is_short_string(second_item_prefix@) && class@ == 1) || (spec_is_long_string(
                second_item_prefix@,
            ) && class@ == 2),
            Err(error) => !spec_is_single_byte(second_item_prefix@) && !spec_is_short_string(
                second_item_prefix@,
            ) && !spec_is_long_string(second_item_prefix@) && is_invalid_value(
                error,
                UNSUPPORTED_SECOND_ITEM_PREFIX,
                *second_item_prefix,
            ),
        },
{
    if is_single_byte(second_item_prefix) {
        Ok(U256::from_u128(0))
    } else if is_short_string(second_item_prefix) {
        Ok(U256::from_u128(1))
    } else if is_long_string(second_item_prefix) {
        Ok(U256::from_u128(2))
    } else {
        Err(invalid_value(UNSUPPORTED_SECOND_ITEM_PREFIX, second_item_prefix))
    }
}

pub const HINT_ITEM_TYPE: &'static str =
    "from tools.py.hints import is_single_byte, is_short_string\nif is_single_byte(ids.item_prefix):\n    ids.item_type = 0\nelif is_short_string(ids.item_prefix):\n    ids.item_type = 1\nelse:\n    raise ValueError(f\"Unsupported item prefix: {hex(ids.item_prefix)} for a branch node. Should be single byte or short string only.\")";

/// The value for `item_type`: zero for a single byte, one for a short
/// string. Any other prefix is refused.
pub fn hint_item_type(item_prefix: &U256) -> (written: Result<U256, HintError>)
    ensures
        match written {
            Ok(class) => (spec_is_single_byte(item_prefix@) && class@ == 0) || (
            spec_is_short_string(item_prefix@) && class@ == 1),
            Err(error) => !spec_is_single_byte(item_prefix@) && !spec_is_short_string(
                item_prefix@,
            ) && is_invalid_value(error, UNSUPPORTED_ITEM_PREFIX, *item_prefix),
        },
{
    if is_single_byte(item_prefix) {
        Ok(U256::from_u128(0))
    } else if is_short_string(item_prefix) {
        Ok(U256::from_u128(1))
    } else {
        Err(invalid_value(UNSUPPORTED_ITEM_PREFIX, item_prefix))
    }
}

/// Every value up to 0xff falls in exactly one class, and none above does.
pub proof fn lemma_classes_partition(value: nat)
    ensures
        value <= 0xff <==> spec_is_single_byte(value) || spec_is_short_string(value)
            || spec_is_long_string(value) || spec_is_short_list(value) || spec_is_long_list(value),
        !(spec_is_single_byte(value) && spec_is_short_string(value)),
        !(spec_is_short_string(value) && spec_is_long_string(value)),
        !(spec_is_long_string(value) && spec_is_short_list(value)),
        !(spec_is_short_list(value) && spec_is_long_list(value)),
{
}

/// The routine of this catalog that is registered under `code`.
pub open spec fn spec_run_hint(code: Seq<char>) -> Option<Hint> {
    if code == HINT_LONG_SHORT_LIST@ {
        Some(Hint::LongShortList)
    } else if code == HINT_FIRST_ITEM_TYPE@ {
        Some(Hint::FirstItemType)
    } else if code == HINT_SECOND_ITEM_TYPE@ {
        Some(Hint::SecondItemType)
    } else if code == HINT_ITEM_TYPE@ {
        Some(Hint::ItemType)
    } else {
        None
    }
}

/// Finds the routine of this catalog for `code`.
pub fn run_hint(code: &str) -> (hint: Result<Hint, HintError>)
    ensures
        answers(hint, spec_run_hint(code@), code@),
{
    if same_text(code, HINT_LONG_SHORT_LIST) {
        Ok(Hint::LongShortList)
    } else if same_text(code, HINT_FIRST_ITEM_TYPE) {
        Ok(Hint::FirstItemType)
    } else if same_text(code, HINT_SECOND_ITEM_TYPE) {
        Ok(Hint::SecondItemType)
    } else if same_text(code, HINT_ITEM_TYPE) {
        Ok(Hint::ItemType)
    } else {
        Err(unknown_hint(code))
    }
}

} // verus!
