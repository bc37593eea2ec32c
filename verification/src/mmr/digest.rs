//! The two digests that the hash strategies rest on. Neither is computed
//! here: each is the work of an outside crate, taken on trust and given a name.

use crate::bytes::be_value;
use crate::uint256::felt_prime;
use starknet_types_core::felt::Felt;
use tiny_keccak::Hasher;
use vstd::prelude::*;

verus! {

/// The Keccak-256 digest of `input`, 32 bytes.
pub uninterp spec fn keccak256_digest(input: Seq<u8>) -> Seq<u8>;

/// The Starknet Poseidon hash of the two field elements that `x` and `y`
/// spell as 32 big-endian bytes each, as the 32 big-endian bytes of the
/// resulting field element.
pub uninterp spec fn poseidon_digest(x: Seq<u8>, y: Seq<u8>) -> Seq<u8>;

/// Runs `tiny_keccak::Keccak::v256()` over `input` in one `update` and
/// returns what `finalize` writes. Trusted: the result depends on the bytes
/// of `input` alone, which is all that the contract claims.
#[verifier::external_body]
pub(crate) fn keccak256(input: &[u8]) -> (digest: [u8; 32])
    ensures
        digest@ == keccak256_digest(input@),
{
    let mut keccak = tiny_keccak::Keccak::v256();
    keccak.update(input);
    let mut output = [0u8; 32];
    keccak.finalize(&mut output);
    output
}

/// Calls `starknet_crypto::poseidon_hash` on `Felt::from_bytes_be(x)` and
/// `Felt::from_bytes_be(y)` and returns `to_bytes_be` of the result. Trusted:
/// the result depends on the bytes of `x` and `y` alone, and it spells a
/// field element, since `to_bytes_be` writes the representative below the
/// prime. The contract claims no more.
#[verifier::external_body]
pub(crate) fn poseidon(x: &[u8; 32], y: &[u8; 32]) -> (digest: [u8; 32])
    ensures
        digest@ == poseidon_digest(x@, y@),
        be_value(digest@) < felt_prime(),
{
    starknet_crypto::poseidon_hash(Felt::from_bytes_be(x), Felt::from_bytes_be(y)).to_bytes_be()
}

} // verus!
