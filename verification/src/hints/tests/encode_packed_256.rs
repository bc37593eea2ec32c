//! Test vectors for the Keccak hash of two packed 256-bit integers.

use crate::hints::tests::draw::random_words;
use crate::mmr::nodes::values_of;
use crate::mmr::{Hasher, Keccak};
use crate::uint256::{two_pow_128, U256};
use crate::utils::split_u256;
use vstd::prelude::*;

verus! {

pub const HINT_GENERATE_TEST_VECTOR: &'static str =
    "import sha3\nimport random\nfrom web3 import Web3\ndef split_128(a):\n    \"\"\"Takes in value, returns uint256-ish tuple.\"\"\"\n    return [a & ((1 << 128) - 1), a >> 128]\ndef write_uint256_array(ptr, array):\n    counter = 0\n    for uint in array:\n        memory[ptr._reference_value+counter] = uint[0]\n        memory[ptr._reference_value+counter+1] = uint[1]\n        counter += 2\ndef generate_n_bit_random(n):\n    return random.randint(2**(n-1), 2**n - 1)\n\n# Implementation of solitidy keccak256(encodedPacked(x, y)) in python.\ndef encode_packed_256_256(x_y):\n    return int(Web3.solidityKeccak([\"uint256\", \"uint256\"], [x_y[0], x_y[1]]).hex(), 16)\n# Another implementation that uses sha3 directly and should be equal. \ndef keccak_256_256(x_y):\n    k=sha3.keccak_256()\n    k.update(x_y[0].to_bytes(32, 'big'))\n    k.update(x_y[1].to_bytes(32, 'big'))\n    return int.from_bytes(k.digest(), 'big')\n\n# Build Test vector [[x_1, y_1], [x_2, y_2], ..., [x_len, y_len]].\n\n# 256 random pairs of numbers, each pair having two random numbers of 1-256 bits.\nx_y_list = [[generate_n_bit_random(random.randint(1, 256)), generate_n_bit_random(random.randint(1, 256))] for _ in range(256)]\n# Adds 256 more pairs of equal bit length to the test vector.\nx_y_list += [[generate_n_bit_random(i), generate_n_bit_random(i)] for i in range(1,257)]\n\nkeccak_output_list = [encode_packed_256_256(x_y) for x_y in x_y_list]\nkeccak_result_list = [keccak_256_256(x_y) for x_y in x_y_list]\n\n# Sanity check on keccak implementations.\nassert all([keccak_output_list[i] == keccak_result_list[i] for i in range(len(keccak_output_list))])\n\n\n# Prepare x_array and y_array :\nx_array_split = [split_128(x_y[0]) for x_y in x_y_list]\ny_array_split = [split_128(x_y[1]) for x_y in x_y_list]\n# Write x_array : \nwrite_uint256_array(ids.x_array, x_array_split)\n# Write y_array :\nwrite_uint256_array(ids.y_array, y_array_split)\n\n# Prepare keccak_result_array :\nkeccak_result_list_split = [split_128(keccak_result) for keccak_result in keccak_result_list]\n# Write keccak_result_array :\nwrite_uint256_array(ids.keccak_result_array, keccak_result_list_split)\n\n# Write len :\nids.len = len(keccak_result_list)";

/// The number of pairs in a test vector.
pub const TEST_VECTOR_PAIRS: usize = 512;

/// The number whose low half and high half `array` holds at `2 * i` and `2 * i + 1`.
pub open spec fn joined(array: Seq<U256>, i: int) -> nat {
    array[2 * i]@ + two_pow_128() * array[2 * i + 1]@
}

/// Whether `array` holds each of `values` as its low half followed by its high half.
pub open spec fn holds_halves(array: Seq<U256>, values: Seq<nat>) -> bool {
    &&& array.len() == 2 * values.len()
    &&& forall|i: int|
        0 <= i < values.len() ==> (#[trigger] array[2 * i])@ == values[i] % two_pow_128() && array[2
            * i + 1]@ == values[i] / two_pow_128()
}

/// What the hint writes: three arrays of halves and the number of pairs.
pub struct TestVector {
    pub x_array: Vec<U256>,
    pub y_array: Vec<U256>,
    pub keccak_result_array: Vec<U256>,
    pub len: usize,
}

/// The values for `x_array`, `y_array`, `keccak_result_array` and `len`:
/// each of the given pairs and the Keccak hash of the pair, every number as
/// its low half and its high half.
pub fn generate_test_vector(x_list: &Vec<U256>, y_list: &Vec<U256>) -> (written: TestVector)
    requires
        x_list.len() == y_list.len(),
        2 * x_list.len() <= usize::MAX,
    ensures
        written.len == x_list.len(),
        holds_halves(written.x_array@, values_of(x_list@)),
        holds_halves(written.y_array@, values_of(y_list@)),
        holds_halves(
            written.keccak_result_array@,
            Seq::new(x_list.len() as nat, |i: int| Keccak::spec_hash(x_list[i]@, y_list[i]@)),
        ),
{
    let keccak = Keccak::new();
    let mut x_array: Vec<U256> = Vec::new();
    let mut y_array: Vec<U256> = Vec::new();
    let mut keccak_result_array: Vec<U256> = Vec::new();
    let mut i: usize = 0;
    while i < x_list.len()
        invariant
            i <= x_list.len(),
            x_list.len() == y_list.len(),
            x_array.len() == 2 * i,
            y_array.len() == 2 * i,
            keccak_result_array.len() == 2 * i,
            forall|k: int|
                0 <= k < i ==> (#[trigger] x_array[2 * k])@ == x_list[k]@ % two_pow_128()
                    && x_array[2 * k + 1]@ == x_list[k]@ / two_pow_128(),
            forall|k: int|
                0 <= k < i ==> (#[trigger] y_array[2 * k])@ == y_list[k]@ % two_pow_128()
                    && y_array[2 * k + 1]@ == y_list[k]@ / two_pow_128(),
            forall|k: int|
                0 <= k < i ==> (#[trigger] keccak_result_array[2 * k])@ == Keccak::spec_hash(
                    x_list[k]@,
                    y_list[k]@,
                ) % two_pow_128() && keccak_result_array[2 * k + 1]@ == Keccak::spec_hash(
                    x_list[k]@,
                    y_list[k]@,
                ) / two_pow_128(),
        decreases x_list.len() - i,
    {
        let x = split_u256(&x_list[i]);
        x_array.push(x[0]);
        x_array.push(x[1]);
        let y = split_u256(&y_list[i]);
        y_array.push(y[0]);
        y_array.push(y[1]);
        let result = split_u256(&keccak.hash(&x_list[i], &y_list[i]));
        keccak_result_array.push(result[0]);
        keccak_result_array.push(result[1]);
        i = i + 1;
    }
    TestVector { x_array, y_array, keccak_result_array, len: x_list.len() }
}

/// The test vector of the hint: [`TEST_VECTOR_PAIRS`] pairs of 256-bit
/// numbers, drawn at random, each with the Keccak hash of the pair, every
/// number as its low half and its high half.
pub fn hint_generate_test_vector() -> (written: TestVector)
    ensures
        written.len == TEST_VECTOR_PAIRS,
        written.x_array.len() == 2 * TEST_VECTOR_PAIRS,
        written.y_array.len() == 2 * TEST_VECTOR_PAIRS,
        forall|i: int|
            0 <= i < 2 * TEST_VECTOR_PAIRS ==> (#[trigger] written.x_array[i])@ < two_pow_128()
                && written.y_array[i]@ < two_pow_128(),
        holds_halves(
            written.keccak_result_array@,
            Seq::new(
                TEST_VECTOR_PAIRS as nat,
                |i: int| Keccak::spec_hash(joined(written.x_array@, i), joined(written.y_array@, i)),
            ),
        ),
{
    let x_list = random_words(TEST_VECTOR_PAIRS);
    let y_list = random_words(TEST_VECTOR_PAIRS);
    let written = generate_test_vector(&x_list, &y_list);
    proof {
        let xs = values_of(x_list@);
        let ys = values_of(y_list@);
        assert forall|i: int| 0 <= i < TEST_VECTOR_PAIRS implies joined(written.x_array@, i)
            == x_list[i]@ && joined(written.y_array@, i) == y_list[i]@ by {
            assert(written.x_array@[2 * i]@ == xs[i] % two_pow_128());
            assert(written.y_array@[2 * i]@ == ys[i] % two_pow_128());
        }
        assert(Seq::new(
            TEST_VECTOR_PAIRS as nat,
            |i: int| Keccak::spec_hash(joined(written.x_array@, i), joined(written.y_array@, i)),
        ) =~= Seq::new(
            x_list.len() as nat,
            |i: int| Keccak::spec_hash(x_list[i]@, y_list[i]@),
        ));
        assert forall|i: int| 0 <= i < 2 * TEST_VECTOR_PAIRS implies (
        #[trigger] written.x_array[i])@ < two_pow_128() && written.y_array[i]@ < two_pow_128() by {
            let k = i / 2;
            assert(written.x_array@[2 * k]@ == xs[k] % two_pow_128());
            assert(written.y_array@[2 * k]@ == ys[k] % two_pow_128());
            assert(i == 2 * k || i == 2 * k + 1);
        }
    }
    written
}

} // verus!
