//! Division of field elements as integers, which is the work of the
//! `starknet-types-core` crate.

use crate::bytes::be_value;
use crate::uint256::{felt_prime, U256};
use starknet_types_core::felt::{Felt, NonZeroFelt};
use vstd::prelude::*;

verus! {

/// Calls `Felt::div_rem` on the field elements that `value` and `divisor`
/// spell as 32 big-endian bytes, and returns the big-endian bytes of the two
/// results. Trusted: for elements below the prime these are the quotient and
/// the remainder of the integer division of the two numbers, as the method
/// documents. A zero divisor, on which the conversion to `NonZeroFelt`
/// fails, is left out.
#[verifier::external_body]
fn felt_div_rem(value: &[u8; 32], divisor: &[u8; 32]) -> (qr: ([u8; 32], [u8; 32]))
    requires
        be_value(value@) < felt_prime(),
        0 < be_value(divisor@) < felt_prime(),
    ensures
        be_value(qr.0@) == be_value(value@) / be_value(divisor@),
        be_value(qr.1@) == be_value(value@) % be_value(divisor@),
{
    let divisor = NonZeroFelt::try_from(Felt::from_bytes_be(divisor)).unwrap();
    let (q, r) = Felt::from_bytes_be(value).div_rem(&divisor);
    (q.to_bytes_be(), r.to_bytes_be())
}

/// The quotient and the remainder of `value` by `divisor`, both field
/// elements, taken as integers.
pub fn div_rem(value: &U256, divisor: &U256) -> (qr: (U256, U256))
    requires
        value@ < felt_prime(),
        0 < divisor@ < felt_prime(),
    ensures
        qr.0@ == value@ / divisor@,
        qr.1@ == value@ % divisor@,
{
    let value_bytes = value.to_be_bytes();
    let divisor_bytes = divisor.to_be_bytes();
    let (q, r) = felt_div_rem(&value_bytes, &divisor_bytes);
    (U256::from_be_bytes(&q), U256::from_be_bytes(&r))
}

} // verus!
