//! Unsigned 256-bit words: the shape in which field elements and wide
//! integers cross the boundary to the host, as a high and a low half of 128
//! bits each.

use crate::bits::{bit_length, bit_length_u128, lemma_bit_length_shifted};
use crate::bytes::{
    be_bytes, be_value, lemma_be_bytes_len, lemma_be_bytes_split, lemma_be_value_bound,
    lemma_be_value_concat, lemma_pow256_16, pow256,
};
use vstd::arithmetic::power2::{lemma2_to64, lemma_pow2_adds};
use vstd::prelude::*;

verus! {

/// `2^128`, the weight of the high half of a word.
pub open spec fn two_pow_128() -> nat {
    0x1_0000_0000_0000_0000_0000_0000_0000_0000nat
}

/// The prime of the Stark field, `2^251 + 17 * 2^192 + 1`.
pub open spec fn felt_prime() -> nat {
    0x800_0000_0000_0011_0000_0000_0000_0000_0000_0000_0000_0000_0000_0000_0000_0001nat
}

/// An unsigned integer below `2^256`.
#[derive(Clone, Copy, Debug, PartialEq, Eq, Structural)]
pub struct U256 {
    pub high: u128,
    pub low: u128,
}

impl View for U256 {
    type V = nat;

    open spec fn view(&self) -> nat {
        self.high as nat * two_pow_128() + self.low as nat
    }
}

/// Sixteen bytes, most significant first, for a 128-bit number.
fn u128_to_be(v: u128) -> (out: [u8; 16])
    ensures
        out@ == be_bytes(v as nat, 16),
{
    let mut out = [0u8; 16];
    let mut rest: u128 = v;
    let mut i: usize = 16;
    assert(be_bytes(rest as nat, 16) + out@.subrange(16, 16) =~= be_bytes(v as nat, 16));
    while i > 0
        invariant
            i <= 16,
            be_bytes(v as nat, 16) == be_bytes(rest as nat, i as nat) + out@.subrange(i as int, 16),
        decreases i,
    {
        let ghost before = out@;
        i = i - 1;
        out[i] = (rest % 256) as u8;
        proof {
            lemma_be_bytes_len((rest / 256) as nat, i as nat);
            assert(out@.subrange(i as int, 16) =~= seq![(rest % 256) as u8] + before.subrange(
                i + 1,
                16,
            ));
            assert(be_bytes(rest as nat, (i + 1) as nat) + before.subrange(i + 1, 16) =~= be_bytes(
                (rest / 256) as nat,
                i as nat,
            ) + out@.subrange(i as int, 16));
        }
        rest = rest / 256;
    }
    assert(be_bytes(rest as nat, 0) + out@.subrange(0, 16) =~= out@);
    out
}

/// The number that sixteen bytes of `bytes`, from `start` on, spell.
fn u128_from_be(bytes: &[u8; 32], start: usize) -> (v: u128)
    requires
        start <= 16,
    ensures
        v as nat == be_value(bytes@.subrange(start as int, start + 16)),
{
    let mut v: u128 = 0;
    let mut i: usize = 0;
    let ghost word = bytes@.subrange(start as int, start + 16);
    while i < 16
        invariant
            i <= 16,
            start <= 16,
            word == bytes@.subrange(start as int, start + 16),
            v as nat == be_value(word.subrange(0, i as int)),
        decreases 16 - i,
    {
        proof {
            let next = word.subrange(0, i + 1);
            assert(next.drop_last() =~= word.subrange(0, i as int));
            lemma_be_value_bound(next);
            lemma_pow256_16();
            if i + 1 < 16 {
                vstd::arithmetic::power2::lemma_pow2_strictly_increases(
                    (8 * (i + 1)) as nat,
                    128,
                );
            }
        }
        v = v * 256 + bytes[start + i] as u128;
        i = i + 1;
    }
    assert(word.subrange(0, 16) =~= word);
    v
}

impl U256 {
    /// The word with the value of `value`.
    pub fn from_u128(value: u128) -> (r: U256)
        ensures
            r@ == value as nat,
            r == (U256 { high: 0, low: value }),
    {
        U256 { high: 0, low: value }
    }

    /// The word with the value of `value`.
    pub fn from_u64(value: u64) -> (r: U256)
        ensures
            r@ == value as nat,
            r == (U256 { high: 0, low: value as u128 }),
    {
        U256 { high: 0, low: value as u128 }
    }

    /// The word with the value of `value`.
    pub fn from_usize(value: usize) -> (r: U256)
        ensures
            r@ == value as nat,
            r == (U256 { high: 0, low: value as u128 }),
    {
        U256 { high: 0, low: value as u128 }
    }

    /// One for `true`, zero for `false`: the way a hint writes a flag.
    pub fn from_bool(flag: bool) -> (r: U256)
        ensures
            r@ == if flag {
                1nat
            } else {
                0nat
            },
            r == (U256 { high: 0, low: if flag { 1u128 } else { 0u128 } }),
    {
        if flag {
            U256 { high: 0, low: 1 }
        } else {
            U256 { high: 0, low: 0 }
        }
    }

    /// Whether `self` is less than `other`.
    pub fn lt(&self, other: &U256) -> (r: bool)
        ensures
            r == (self@ < other@),
    {
        self.high < other.high || (self.high == other.high && self.low < other.low)
    }

    /// Whether `self` is at most `other`.
    pub fn le(&self, other: &U256) -> (r: bool)
        ensures
            r == (self@ <= other@),
    {
        self.high < other.high || (self.high == other.high && self.low <= other.low)
    }

    /// The prime of the Stark field.
    pub fn prime() -> (r: U256)
        ensures
            r@ == felt_prime(),
    {
        U256 { high: 0x800_0000_0000_0011_0000_0000_0000_0000, low: 1 }
    }

    /// Whether `self` is a field element, that is below the field's prime.
    pub fn is_felt(&self) -> (r: bool)
        ensures
            r == (self@ < felt_prime()),
    {
        self.lt(&U256::prime())
    }

    /// The number of bits needed to write the value: 0 for 0, at most 256.
    pub fn bits(&self) -> (r: u32)
        ensures
            r == bit_length(self@),
            r <= 256,
    {
        if self.high == 0 {
            bit_length_u128(self.low)
        } else {
            proof {
                lemma2_to64();
                lemma_pow2_adds(64, 64);
                lemma_bit_length_shifted(self.high as nat, self.low as nat, 128);
            }
            128 + bit_length_u128(self.high)
        }
    }

    /// The value as 32 bytes, most significant first.
    pub fn to_be_bytes(&self) -> (bytes: [u8; 32])
        ensures
            bytes@ == be_bytes(self@, 32),
            be_value(bytes@) == self@,
    {
        let high = u128_to_be(self.high);
        let low = u128_to_be(self.low);
        let mut bytes = [0u8; 32];
        let mut i: usize = 0;
        while i < 16
            invariant
                i <= 16,
                forall|j: int| 0 <= j < i ==> bytes@[j] == high@[j] && bytes@[16 + j] == low@[j],
            decreases 16 - i,
        {
            bytes[i] = high[i];
            bytes[16 + i] = low[i];
            i = i + 1;
        }
        proof {
            lemma_pow256_16();
            assert(bytes@ =~= high@ + low@);
            lemma_be_bytes_split(self.high as nat, self.low as nat, 16, 16);
            crate::bytes::lemma_be_value_of_bytes(self@, 32);
            lemma_pow2_adds(128, 128);
            vstd::arithmetic::div_mod::lemma_small_mod(self@, pow256(32));
        }
        bytes
    }

    /// The word that 32 bytes spell, most significant first.
    pub fn from_be_bytes(bytes: &[u8; 32]) -> (r: U256)
        ensures
            r@ == be_value(bytes@),
    {
        let high = u128_from_be(bytes, 0);
        let low = u128_from_be(bytes, 16);
        proof {
            lemma_pow256_16();
            assert(bytes@ =~= bytes@.subrange(0, 16) + bytes@.subrange(16, 32));
            lemma_be_value_concat(bytes@.subrange(0, 16), bytes@.subrange(16, 32));
        }
        U256 { high, low }
    }
}

} // verus!
