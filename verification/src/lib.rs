//! Hint routines for a Cairo virtual machine host, and the Merkle Mountain
//! Range accumulator that the MMR hints are built on.
//!
//! Everything in this crate is plain data in, plain data out: the host reads
//! the operands of a hint from its memory, hands them to a routine of this
//! crate, and writes what comes back.

pub mod bits;
pub mod bytes;
pub mod error;
pub mod felt;
pub mod hint_processor;
pub mod hints;
pub mod mmr;
pub mod uint256;
pub mod utils;

pub use hint_processor::CustomHintProcessor;
pub use hints::run_hint;
