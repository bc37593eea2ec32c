//! The processor of this crate's own hints, and the rule by which it hands
//! over to the host's built-in processor.
//!
//! The host asks the custom processor first. Only where it does not know the
//! text of a hint is the built-in processor asked: a text that both know is
//! always carried out by the custom routine.

use crate::error::HintError;
use crate::hints::bit_length_mmr::BIT_LENGTH_MMR;
use crate::hints::bit_length_x::BIT_LENGTH_X;
use crate::hints::lib::mmr::left_child::MMR_LEFT_CHILD;
use crate::hints::test_is_valid_mmr_size_generate_random::TEST_IS_VALID_MMR_SIZE_GENERATE_RANDOM;
use crate::hints::test_is_valid_mmr_size_generate_sequential::TEST_IS_VALID_MMR_SIZE_GENERATE_SEQUENTIAL;
use crate::hints::test_is_valid_mmr_size_print_1::TEST_IS_VALID_MMR_SIZE_PRINT_1;
use crate::hints::tests::construct_mmr::TEST_CONSTRUCT_MMR;
use crate::hints::{answers, is_unknown, same_text, unknown_hint, Hint};
use vstd::prelude::*;

verus! {

/// The processor of the hints of this crate.
#[derive(Clone, Copy, Debug, Default, PartialEq, Eq, Structural)]
pub struct CustomHintProcessor;

/// Which processor is to carry out a hint.
#[derive(Clone, Copy, Debug, PartialEq, Eq, Structural)]
pub enum Processor {
    /// The custom processor, by the routine named.
    Custom(Hint),
    /// The built-in processor of the host.
    Builtin,
}

/// The routine that the custom processor holds under `code`.
pub open spec fn spec_run_hint(code: Seq<char>) -> Option<Hint> {
    if code == TEST_IS_VALID_MMR_SIZE_PRINT_1@ {
        Some(Hint::PrintBreakline)
    } else if code == TEST_IS_VALID_MMR_SIZE_GENERATE_SEQUENTIAL@ {
        Some(Hint::GenerateSequential)
    } else if code == TEST_IS_VALID_MMR_SIZE_GENERATE_RANDOM@ {
        Some(Hint::GenerateRandom)
    } else if code == BIT_LENGTH_X@ {
        Some(Hint::BitLength)
    } else if code == BIT_LENGTH_MMR@ {
        Some(Hint::MmrBitLength)
    } else if code == TEST_CONSTRUCT_MMR@ {
        Some(Hint::ConstructMmr)
    } else if code == MMR_LEFT_CHILD@ {
        Some(Hint::MmrLeftChild)
    } else {
        None
    }
}

/// The processor that is to carry out the hint with the text `code`.
pub open spec fn spec_processor(code: Seq<char>) -> Processor {
    match spec_run_hint(code) {
        Some(hint) => Processor::Custom(hint),
        None => Processor::Builtin,
    }
}

fn run_hint(code: &str) -> (hint: Result<Hint, HintError>)
    ensures
        answers(hint, spec_run_hint(code@), code@),
{
    if same_text(code, TEST_IS_VALID_MMR_SIZE_PRINT_1) {
        Ok(Hint::PrintBreakline)
    } else if same_text(code, TEST_IS_VALID_MMR_SIZE_GENERATE_SEQUENTIAL) {
        Ok(Hint::GenerateSequential)
    } else if same_text(code, TEST_IS_VALID_MMR_SIZE_GENERATE_RANDOM) {
        Ok(Hint::GenerateRandom)
    } else if same_text(code, BIT_LENGTH_X) {
        Ok(Hint::BitLength)
    } else if same_text(code, BIT_LENGTH_MMR) {
        Ok(Hint::MmrBitLength)
    } else if same_text(code, TEST_CONSTRUCT_MMR) {
        Ok(Hint::ConstructMmr)
    } else if same_text(code, MMR_LEFT_CHILD) {
        Ok(Hint::MmrLeftChild)
    } else {
        Err(unknown_hint(code))
    }
}

impl CustomHintProcessor {
    pub fn new() -> (processor: Self)
        ensures
            processor == CustomHintProcessor,
    {
        CustomHintProcessor
    }

    /// The routine for the hint with the text `code`, or the failure that
    /// says that this processor does not know the text.
    pub fn execute_hint(&self, code: &str) -> (hint: Result<Hint, HintError>)
        ensures
            answers(hint, spec_run_hint(code@), code@),
    {
        run_hint(code)
    }

    /// Who is to carry out the hint with the text `code`: the custom routine
    /// where there is one, and the built-in processor only where there is none.
    pub fn execute_hint_extensive(&self, code: &str) -> (processor: Processor)
        ensures
            processor == spec_processor(code@),
    {
        match self.execute_hint(code) {
            Ok(hint) => Processor::Custom(hint),
            Err(_) => Processor::Builtin,
        }
    }
}

/// Whether `outcome` says that the text of a hint is unknown, which is the
/// one outcome after which the next processor is asked. Any other outcome,
/// success or failure, is final.
pub fn falls_back<T>(outcome: &Result<T, HintError>) -> (next: bool)
    ensures
        next == is_unknown(*outcome),
{
    match outcome {
        Err(HintError::UnknownHint(_)) => true,
        _ => false,
    }
}

/// A text that the custom processor knows never reaches the built-in one,
/// and a text that it does not know always does.
pub proof fn lemma_custom_before_builtin(code: Seq<char>)
    ensures
        spec_run_hint(code) is Some <==> spec_processor(code) is Custom,
        spec_run_hint(code) is None <==> spec_processor(code) == Processor::Builtin,
        spec_processor(code) matches Processor::Custom(hint) ==> spec_run_hint(code) == Some(hint),
{
}

} // verus!
