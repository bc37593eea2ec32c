//! The hints that many programs share.

pub mod asserts;
pub mod carry;
pub mod divmod;
pub mod trailing_zeroes;
pub mod write;

use crate::error::HintError;
use crate::hints::{answers, same_text, unknown_hint, Hint};
use vstd::prelude::*;

verus! {

/// The routine of this catalog that is registered under `code`.
pub open spec fn spec_run_hint(code: Seq<char>) -> Option<Hint> {
    if code == asserts::HINT_ASSERT_INTEGER_DIV32@ {
        Some(Hint::AssertIntegerDiv32)
    } else if code == asserts::HINT_ASSERT_INTEGER_DIV@ {
        Some(Hint::AssertIntegerDiv)
    } else if code == carry::HINT_CARRY@ {
        Some(Hint::Carry)
    } else if code == divmod::HINT_VALUE_DIV32@ {
        Some(Hint::ValueDiv32)
    } else if code == divmod::HINT_VALUE_8@ {
        Some(Hint::Value8)
    } else if code == divmod::HINT_VALUE_DIV@ {
        Some(Hint::ValueDiv)
    } else if code == trailing_zeroes::HINT_TRAILING_ZEROES_BYTES@ {
        Some(Hint::TrailingZeroesBytes)
    } else if code == write::HINT_WRITE_2@ {
        Some(Hint::Write2)
    } else if code == write::HINT_WRITE_3@ {
        Some(Hint::Write3)
    } else if code == write::HINT_WRITE_4@ {
        Some(Hint::Write4)
    } else if code == write::HINT_WRITE_5@ {
        Some(Hint::Write5)
    } else if code == write::HINT_WRITE_6@ {
        Some(Hint::Write6)
    } else if code == write::HINT_WRITE_7@ {
        Some(Hint::Write7)
    } else {
        None
    }
}

/// Finds the routine of this catalog for `code`.
pub fn run_hint(code: &str) -> (hint: Result<Hint, HintError>)
    ensures
        answers(hint, spec_run_hint(code@), code@),
{
    if same_text(code, asserts::HINT_ASSERT_INTEGER_DIV32) {
        Ok(Hint::AssertIntegerDiv32)
    } else if same_text(code, asserts::HINT_ASSERT_INTEGER_DIV) {
        Ok(Hint::AssertIntegerDiv)
    } else if same_text(code, carry::HINT_CARRY) {
        Ok(Hint::Carry)
    } else if same_text(code, divmod::HINT_VALUE_DIV32) {
        Ok(Hint::ValueDiv32)
    } else if same_text(code, divmod::HINT_VALUE_8) {
        Ok(Hint::Value8)
    } else if same_text(code, divmod::HINT_VALUE_DIV) {
        Ok(Hint::ValueDiv)
    } else if same_text(code, trailing_zeroes::HINT_TRAILING_ZEROES_BYTES) {
        Ok(Hint::TrailingZeroesBytes)
    } else if same_text(code, write::HINT_WRITE_2) {
        Ok(Hint::Write2)
    } else if same_text(code, write::HINT_WRITE_3) {
        Ok(Hint::Write3)
    } else if same_text(code, write::HINT_WRITE_4) {
        Ok(Hint::Write4)
    } else if same_text(code, write::HINT_WRITE_5) {
        Ok(Hint::Write5)
    } else if same_text(code, write::HINT_WRITE_6) {
        Ok(Hint::Write6)
    } else if same_text(code, write::HINT_WRITE_7) {
        Ok(Hint::Write7)
    } else {
        Err(unknown_hint(code))
    }
}

} // verus!
