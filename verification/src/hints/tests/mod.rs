//! The hints of the test programs: fixtures and fixed answers.

pub mod encode_packed_256;
pub mod print;

use crate::error::HintError;
use crate::hints::{answers, same_text, unknown_hint, Hint};
use vstd::prelude::*;

verus! {

/// The routine of this catalog that is registered under `code`.
pub open spec fn spec_run_hint(code: Seq<char>) -> Option<Hint> {
    if code == construct_mmr::TEST_CONSTRUCT_MMR@ {
        Some(Hint::ConstructMmr)
    } else if code == dw_hack::HINT_BIT_LENGTH_ASSIGN_140@ {
        Some(Hint::BitLengthAssign140)
    } else if code == dw_hack::HINT_BIT_LENGTH_ASSIGN_NEGATIVE_ONE@ {
        Some(Hint::BitLengthAssignNegativeOne)
    } else if code == dw_hack::HINT_BIT_LENGTH_ASSIGN_2500@ {
        Some(Hint::BitLengthAssign2500)
    } else if code == dw_hack::HINT_PRINT_NS@ {
        Some(Hint::PrintNs)
    } else if code == encode_packed_256::HINT_GENERATE_TEST_VECTOR@ {
        Some(Hint::GenerateTestVector)
    } else if code == mmr_size_generate::HINT_GENERATE_RANDOM@ {
        Some(Hint::GenerateRandom)
    } else if code == mmr_size_generate::HINT_GENERATE_SEQUENTIAL@ {
        Some(Hint::GenerateSequential)
    } else if code == print::HINT_PRINT_BREAKLINE@ {
        Some(Hint::PrintBreakline)
    } else if code == print::HINT_PRINT_PASS@ {
        Some(Hint::PrintPass)
    } else {
        None
    }
}

/// Finds the routine of this catalog for `code`.
pub fn run_hint(code: &str) -> (hint: Result<Hint, HintError>)
    ensures
        answers(hint, spec_run_hint(code@), code@),
{
    if same_text(code, construct_mmr::TEST_CONSTRUCT_MMR) {
        Ok(Hint::ConstructMmr)
    } else if same_text(code, dw_hack::HINT_BIT_LENGTH_ASSIGN_140) {
        Ok(Hint::BitLengthAssign140)
    } else if same_text(code, dw_hack::HINT_BIT_LENGTH_ASSIGN_NEGATIVE_ONE) {
        Ok(Hint::BitLengthAssignNegativeOne)
    } else if same_text(code, dw_hack::HINT_BIT_LENGTH_ASSIGN_2500) {
        Ok(Hint::BitLengthAssign2500)
    } else if same_text(code, dw_hack::HINT_PRINT_NS) {
        Ok(Hint::PrintNs)
    } else if same_text(code, encode_packed_256::HINT_GENERATE_TEST_VECTOR) {
        Ok(Hint::GenerateTestVector)
    } else if same_text(code, mmr_size_generate::HINT_GENERATE_RANDOM) {
        Ok(Hint::GenerateRandom)
    } else if same_text(code, mmr_size_generate::HINT_GENERATE_SEQUENTIAL) {
        Ok(Hint::GenerateSequential)
    } else if same_text(code, print::HINT_PRINT_BREAKLINE) {
        Ok(Hint::PrintBreakline)
    } else if same_text(code, print::HINT_PRINT_PASS) {
        Ok(Hint::PrintPass)
    } else {
        Err(unknown_hint(code))
    }
}

} // verus!
