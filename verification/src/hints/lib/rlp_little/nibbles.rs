//! Where the next nibble of a key is, and whether a word has bytes left.

use crate::uint256::U256;
use vstd::prelude::*;

verus! {

pub const HINT_IS_ZERO: &'static str =
    "ids.is_zero = 1 if ids.nibble_index <= (ids.key_leading_zeroes_nibbles - 1) else 0";

/// The value for `is_zero`: one where `nibble_index` is among the leading
/// zero nibbles of the key, zero otherwise.
pub fn hint_is_zero(nibble_index: i128, key_leading_zeroes_nibbles: i128) -> (written: U256)
    requires
        key_leading_zeroes_nibbles > i128::MIN,
    ensures
        written@ == if nibble_index <= key_leading_zeroes_nibbles - 1 {
            1nat
        } else {
            0nat
        },
{
    U256::from_bool(nibble_index <= key_leading_zeroes_nibbles - 1)
}

pub const HINT_NIBBLE_FROM_LOW: &'static str =
    "ids.get_nibble_from_low = 1 if (0 <= ids.nibble_index <= 31 and ids.key_nibbles <= 32) or (32 <= ids.nibble_index <= 63 and ids.key_nibbles > 32) else 0";

/// The value for `get_nibble_from_low`: one where the nibble at
/// `nibble_index` lies in the low half of a key of `key_nibbles` nibbles,
/// zero otherwise.
pub fn hint_nibble_from_low(nibble_index: &U256, key_nibbles: &U256) -> (written: U256)
    ensures
        written@ == if (nibble_index@ <= 31 && key_nibbles@ <= 32) || (32 <= nibble_index@ <= 63
            && key_nibbles@ > 32) {
            1nat
        } else {
            0nat
        },
{
    let felt_31 = U256::from_u128(0x1f);
    let felt_32 = U256::from_u128(0x20);
    let felt_63 = U256::from_u128(0x3f);
    U256::from_bool(
        (nibble_index.le(&felt_31) && key_nibbles.le(&felt_32)) || (felt_32.le(nibble_index)
            && nibble_index.le(&felt_63) && felt_32.lt(key_nibbles)),
    )
}

pub const HINT_NEEDS_NEXT_WORD: &'static str =
    "ids.needs_next_word = 1 if ids.n_bytes > ids.avl_bytes_in_word else 0";

/// The value for `needs_next_word`: one where `n_bytes` is more than the
/// word has left, zero otherwise.
pub fn hint_needs_next_word(n_bytes: &U256, avl_bytes_in_word: &U256) -> (written: U256)
    ensures
        written@ == if n_bytes@ > avl_bytes_in_word@ {
            1nat
        } else {
            0nat
        },
{
    U256::from_bool(avl_bytes_in_word.lt(n_bytes))
}

pub const HINT_NEEDS_NEXT_WORD_ENDING: &'static str =
    "ids.needs_next_word = 1 if ids.n_ending_bytes > ids.avl_bytes_in_word else 0";

/// The value for `needs_next_word`: one where `n_ending_bytes` is more than
/// the word has left, zero otherwise.
pub fn hint_needs_next_word_ending(n_ending_bytes: &U256, avl_bytes_in_word: &U256) -> (written:
    U256)
    ensures
        written@ == if n_ending_bytes@ > avl_bytes_in_word@ {
            1nat
        } else {
            0nat
        },
{
    U256::from_bool(avl_bytes_in_word.lt(n_ending_bytes))
}

pub const HINT_WORDS_LOOP: &'static str =
    "memory[ap] = 1 if (ids.n_words_to_handle_in_loop - ids.n_words_handled) == 0 else 0";

/// The value for the cell at `ap`: one where all the words of the loop are
/// handled, zero otherwise.
pub fn hint_words_loop(n_words_to_handle_in_loop: &U256, n_words_handled: &U256) -> (written: U256)
    ensures
        written@ == if n_words_to_handle_in_loop@ == n_words_handled@ {
            1nat
        } else {
            0nat
        },
{
    U256::from_bool(
        n_words_to_handle_in_loop.high == n_words_handled.high && n_words_to_handle_in_loop.low
            == n_words_handled.low,
    )
}

} // verus!
