//! The hints of the programs that read RLP items as little-endian words.

pub mod asserts;
pub mod divmod;
pub mod leading_zeros;
pub mod nibbles;

use crate::error::HintError;
use crate::hints::{answers, same_text, unknown_hint, Hint};
use vstd::prelude::*;

verus! {

/// The routine of this catalog that is registered under `code`.
pub open spec fn spec_run_hint(code: Seq<char>) -> Option<Hint> {
    if code == asserts::HINT_EXPECTED_LEADING_ZEROES@ {
        Some(Hint::AssertLeadingZeroes)
    } else if code == asserts::HINT_EXPECTED_NIBBLE@ {
        Some(Hint::AssertNibble)
    } else if code == divmod::HINT_POW_CUT@ {
        Some(Hint::PowCut)
    } else if code == leading_zeros::HINT_EXPECTED_LEADING_ZEROES@ {
        Some(Hint::ExpectedLeadingZeroes)
    } else if code == leading_zeros::HINT_EXPECTED_NIBBLE@ {
        Some(Hint::ExpectedNibble)
    } else if code == nibbles::HINT_IS_ZERO@ {
        Some(Hint::IsZero)
    } else if code == nibbles::HINT_NIBBLE_FROM_LOW@ {
        Some(Hint::NibbleFromLow)
    } else if code == nibbles::HINT_NEEDS_NEXT_WORD@ {
        Some(Hint::NeedsNextWord)
    } else if code == nibbles::HINT_NEEDS_NEXT_WORD_ENDING@ {
        Some(Hint::NeedsNextWordEnding)
    } else if code == nibbles::HINT_WORDS_LOOP@ {
        Some(Hint::WordsLoop)
    } else {
        None
    }
}

/// Finds the routine of this catalog for `code`.
pub fn run_hint(code: &str) -> (hint: Result<Hint, HintError>)
    ensures
        answers(hint, spec_run_hint(code@), code@),
{
    if same_text(code, asserts::HINT_EXPECTED_LEADING_ZEROES) {
        Ok(Hint::AssertLeadingZeroes)
    } else if same_text(code, asserts::HINT_EXPECTED_NIBBLE) {
        Ok(Hint::AssertNibble)
    } else if same_text(code, divmod::HINT_POW_CUT) {
        Ok(Hint::PowCut)
    } else if same_text(code, leading_zeros::HINT_EXPECTED_LEADING_ZEROES) {
        Ok(Hint::ExpectedLeadingZeroes)
    } else if same_text(code, leading_zeros::HINT_EXPECTED_NIBBLE) {
        Ok(Hint::ExpectedNibble)
    } else if same_text(code, nibbles::HINT_IS_ZERO) {
        Ok(Hint::IsZero)
    } else if same_text(code, nibbles::HINT_NIBBLE_FROM_LOW) {
        Ok(Hint::NibbleFromLow)
    } else if same_text(code, nibbles::HINT_NEEDS_NEXT_WORD) {
        Ok(Hint::NeedsNextWord)
    } else if same_text(code, nibbles::HINT_NEEDS_NEXT_WORD_ENDING) {
        Ok(Hint::NeedsNextWordEnding)
    } else if same_text(code, nibbles::HINT_WORDS_LOOP) {
        Ok(Hint::WordsLoop)
    } else {
        Err(unknown_hint(code))
    }
}

} // verus!
