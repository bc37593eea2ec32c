//! The catalogs of the production hints, asked one after the other.

pub mod bit_length;
pub mod block_header;
pub mod mmr;
pub mod mpt;
pub mod rlp_little;
pub mod utils;

use crate::error::HintError;
use crate::hints::{answers, first_of, Hint};
use vstd::prelude::*;

verus! {

/// The routine that the first catalog to know `code` names. The catalogs
/// are asked in this order: bit length, block header, range, trie, words, utilities.
pub open spec fn spec_run_hint(code: Seq<char>) -> Option<Hint> {
    first_of(
        bit_length::spec_run_hint(code),
        first_of(
            block_header::spec_run_hint(code),
            first_of(
                mmr::spec_run_hint(code),
                first_of(
                    mpt::spec_run_hint(code),
                    first_of(rlp_little::spec_run_hint(code), utils::spec_run_hint(code)),
                ),
            ),
        ),
    )
}

/// Finds the routine for `code`: each catalog is asked in turn, and the
/// first answer other than that the text is unknown is final.
pub fn run_hint(code: &str) -> (hint: Result<Hint, HintError>)
    ensures
        answers(hint, spec_run_hint(code@), code@),
{
    match bit_length::run_hint(code) {
        Err(HintError::UnknownHint(_)) => {},
        res => {
            return res;
        },
    }
    match block_header::run_hint(code) {
        Err(HintError::UnknownHint(_)) => {},
        res => {
            return res;
        },
    }
    match mmr::run_hint(code) {
        Err(HintError::UnknownHint(_)) => {},
        res => {
            return res;
        },
    }
    match mpt::run_hint(code) {
        Err(HintError::UnknownHint(_)) => {},
        res => {
            return res;
        },
    }
    match rlp_little::run_hint(code) {
        Err(HintError::UnknownHint(_)) => {},
        res => {
            return res;
        },
    }
    utils::run_hint(code)
}

} // verus!
