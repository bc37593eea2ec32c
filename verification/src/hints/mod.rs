//! The hint routines and the catalogs that find them by their text.
//!
//! A hint is known by the exact text of the computation that it stands for.
//! The catalogs name the routine for a text; the routines themselves take the
//! operands that the host has read and return what it has to write.

pub mod bit_length_mmr;
pub mod bit_length_x;
pub mod lib;
pub mod print_var;
pub mod test_is_valid_mmr_size_generate_random;
pub mod test_is_valid_mmr_size_generate_sequential;
pub mod test_is_valid_mmr_size_print_1;
pub mod tests;

use crate::error::HintError;
use vstd::prelude::*;

verus! {

/// The routines that the catalogs of this crate know.
#[derive(Clone, Copy, Debug, PartialEq, Eq, Structural)]
pub enum Hint {
    BitLength,
    RlpBigintSize,
    MmrBitLength,
    MmrLeftChild,
    IsPositionInMmrArray,
    LongShortList,
    FirstItemType,
    SecondItemType,
    ItemType,
    AssertLeadingZeroes,
    AssertNibble,
    PowCut,
    ExpectedLeadingZeroes,
    ExpectedNibble,
    IsZero,
    NibbleFromLow,
    NeedsNextWord,
    NeedsNextWordEnding,
    WordsLoop,
    AssertIntegerDiv32,
    AssertIntegerDiv,
    Carry,
    ValueDiv32,
    Value8,
    ValueDiv,
    TrailingZeroesBytes,
    Write2,
    Write3,
    Write4,
    Write5,
    Write6,
    Write7,
    ConstructMmr,
    BitLengthAssign140,
    BitLengthAssignNegativeOne,
    BitLengthAssign2500,
    PrintNs,
    GenerateTestVector,
    GenerateRandom,
    GenerateSequential,
    PrintBreakline,
    PrintPass,
}

/// Whether `answer` is what a catalog owes for the text `code`, given the
/// routine `found` that the catalog holds under it: that routine, or else
/// the failure that carries the text.
pub open spec fn answers(answer: Result<Hint, HintError>, found: Option<Hint>, code: Seq<char>) -> bool {
    match answer {
        Ok(hint) => found == Some(hint),
        Err(error) => found is None && (error matches HintError::UnknownHint(text) && text@ == code),
    }
}

/// Whether an outcome says that the catalog did not know the text, so that
/// the next catalog is to be asked.
pub open spec fn is_unknown<T>(outcome: Result<T, HintError>) -> bool {
    outcome matches Err(HintError::UnknownHint(_))
}

/// Whether two texts are the same, character for character.
pub fn same_text(a: &str, b: &str) -> (same: bool)
    ensures
        same == (a@ == b@),
{
    let left = a.to_owned();
    let right = b.to_owned();
    left == right
}

/// The failure for a text that no catalog knows.
pub fn unknown_hint(code: &str) -> (error: HintError)
    ensures
        error matches HintError::UnknownHint(text) && text@ == code@,
{
    HintError::UnknownHint(code.to_owned())
}

/// The routine that the first of `first` and `second` to know the text
/// names: the second is only asked where the first knows none.
pub open spec fn first_of(first: Option<Hint>, second: Option<Hint>) -> Option<Hint> {
    if first is Some {
        first
    } else {
        second
    }
}

/// The routine registered under `code` in any catalog of this crate.
pub open spec fn spec_run_hint(code: Seq<char>) -> Option<Hint> {
    first_of(lib::spec_run_hint(code), tests::spec_run_hint(code))
}

/// Finds the routine for `code`: the production catalogs are asked first,
/// then the catalog of the test fixtures.
pub fn run_hint(code: &str) -> (hint: Result<Hint, HintError>)
    ensures
        answers(hint, spec_run_hint(code@), code@),
{
    match lib::run_hint(code) {
        Err(HintError::UnknownHint(_)) => tests::run_hint(code),
        found => found,
    }
}

} // verus!
