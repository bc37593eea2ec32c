//! The zero bytes at the low end of a field element.

use crate::bytes::be_bytes;
use crate::uint256::U256;
use vstd::prelude::*;

verus! {

/// The number of zero bytes at the end of `bytes`.
pub open spec fn trailing_zero_bytes(bytes: Seq<u8>) -> nat
    decreases bytes.len(),
{
    if bytes.len() == 0 || bytes.last() != 0 {
        0
    } else {
        1 + trailing_zero_bytes(bytes.drop_last())
    }
}

pub const HINT_TRAILING_ZEROES_BYTES: &'static str =
    "from tools.py.utils import count_trailing_zero_bytes_from_int\nids.trailing_zeroes_bytes = count_trailing_zero_bytes_from_int(ids.x)";

/// The value for `trailing_zeroes_bytes`: the number of zero bytes at the
/// low end of the 32 bytes of `x`, which is 32 for zero.
pub fn hint_trailing_zeroes_bytes(x: &U256) -> (written: U256)
    ensures
        written@ == trailing_zero_bytes(be_bytes(x@, 32)),
        written@ <= 32,
{
    let bytes = x.to_be_bytes();
    let mut count: usize = 0;
    assert(bytes@.subrange(0, 32) =~= bytes@);
    while count < 32 && bytes[31 - count] == 0
        invariant
            count <= 32,
            trailing_zero_bytes(bytes@) == count + trailing_zero_bytes(
                bytes@.subrange(0, 32 - count),
            ),
        decreases 32 - count,
    {
        assert(bytes@.subrange(0, 32 - count).drop_last() =~= bytes@.subrange(
            0,
            32 - count - 1,
        ));
        count = count + 1;
    }
    U256::from_usize(count)
}

} // verus!
