//! Counting bits of natural numbers: the number of one bits, the run of one
//! bits at the low end, and the bit length.

use vstd::arithmetic::power2::{lemma_pow2_strictly_increases, lemma_pow2_unfold, pow2};
use vstd::prelude::*;

verus! {

/// The number of one bits in the binary representation of `n`.
pub open spec fn count_ones(n: nat) -> nat
    decreases n,
{
    if n == 0 {
        0
    } else {
        n % 2 + count_ones(n / 2)
    }
}

/// The number of consecutive one bits at the low end of `n`.
pub open spec fn trailing_ones(n: nat) -> nat
    decreases n,
{
    if n % 2 == 0 {
        0
    } else {
        1 + trailing_ones(n / 2)
    }
}

/// The number of bits needed to write `n` in binary; 0 for 0.
pub open spec fn bit_length(n: nat) -> nat
    decreases n,
{
    if n == 0 {
        0
    } else {
        1 + bit_length(n / 2)
    }
}

/// A positive `n` lies between the two powers of two that its bit length names.
pub proof fn lemma_bit_length_bounds(n: nat)
    ensures
        n < pow2(bit_length(n)),
        n > 0 ==> pow2((bit_length(n) - 1) as nat) <= n,
    decreases n,
{
    if n == 0 {
        lemma_pow2_unfold(1);
        assert(pow2(0) == 1) by {
            vstd::arithmetic::power2::lemma2_to64();
        }
    } else {
        lemma_bit_length_bounds(n / 2);
        lemma_pow2_unfold(bit_length(n));
        if n / 2 > 0 {
            lemma_pow2_unfold((bit_length(n) - 1) as nat);
        } else {
            assert(pow2(0) == 1) by {
                vstd::arithmetic::power2::lemma2_to64();
            }
        }
    }
}

/// The bit length is the only `h` with `2^(h-1) <= n < 2^h`.
pub proof fn lemma_bit_length_unique(n: nat, h: nat)
    requires
        n < pow2(h),
        h > 0 ==> pow2((h - 1) as nat) <= n,
    ensures
        h == bit_length(n),
{
    lemma_bit_length_bounds(n);
    let b = bit_length(n);
    if h < b {
        if h < b - 1 {
            lemma_pow2_strictly_increases(h, (b - 1) as nat);
        }
        assert(n > 0);
    } else if b < h {
        if b < h - 1 {
            lemma_pow2_strictly_increases(b, (h - 1) as nat);
        }
    }
}

/// Adding one clears the trailing ones and sets the bit above them.
pub proof fn lemma_count_ones_succ(n: nat)
    ensures
        count_ones(n + 1) + trailing_ones(n) == count_ones(n) + 1,
    decreases n,
{
    if n % 2 == 0 {
        assert((n + 1) / 2 == n / 2);
        assert((n + 1) % 2 == 1);
        if n == 0 {
            assert(count_ones(1) == 1 + count_ones(0));
        }
    } else {
        lemma_count_ones_succ(n / 2);
        assert((n + 1) / 2 == n / 2 + 1);
        assert((n + 1) % 2 == 0);
    }
}

/// A number has no more one bits than its value.
pub proof fn lemma_count_ones_le(n: nat)
    ensures
        count_ones(n) <= n,
        n > 0 ==> count_ones(n) >= 1,
        trailing_ones(n) <= count_ones(n),
    decreases n,
{
    if n > 0 {
        lemma_count_ones_le(n / 2);
    }
}

/// Neither count exceeds the bit length.
pub proof fn lemma_trailing_ones_le_bits(n: nat)
    ensures
        trailing_ones(n) <= count_ones(n) <= bit_length(n),
    decreases n,
{
    if n > 0 {
        lemma_trailing_ones_le_bits(n / 2);
    }
}

/// Setting a bit above all the bits of `m` adds one to the count.
pub proof fn lemma_count_ones_high_bit(m: nat, k: nat)
    requires
        m < pow2(k),
    ensures
        count_ones(pow2(k) + m) == count_ones(m) + 1,
    decreases k,
{
    if k == 0 {
        assert(pow2(0) == 1) by {
            vstd::arithmetic::power2::lemma2_to64();
        }
        assert(count_ones(1) == 1 + count_ones(0));
    } else {
        lemma_pow2_unfold(k);
        let half = pow2((k - 1) as nat);
        assert(pow2(k) == 2 * half);
        assert((pow2(k) + m) / 2 == half + m / 2);
        assert((pow2(k) + m) % 2 == m % 2);
        lemma_count_ones_high_bit(m / 2, (k - 1) as nat);
    }
}

/// A number below `2^k` has at most `k` bits.
pub proof fn lemma_bit_length_le(n: nat, k: nat)
    requires
        n < pow2(k),
    ensures
        bit_length(n) <= k,
{
    lemma_bit_length_bounds(n);
    if n > 0 && bit_length(n) > k {
        if bit_length(n) - 1 > k {
            lemma_pow2_strictly_increases(k, (bit_length(n) - 1) as nat);
        }
    }
}

/// Shifting left by `k` adds `k` to the bit length of a positive number.
pub proof fn lemma_bit_length_shifted(high: nat, low: nat, k: nat)
    requires
        high > 0,
        low < pow2(k),
    ensures
        bit_length(high * pow2(k) + low) == k + bit_length(high),
{
    let b = bit_length(high);
    let p = pow2(k);
    lemma_bit_length_bounds(high);
    vstd::arithmetic::power2::lemma_pow2_adds(b, k);
    vstd::arithmetic::power2::lemma_pow2_adds((b - 1) as nat, k);
    assert((high + 1) * p <= pow2(b) * p) by (nonlinear_arith)
        requires
            high + 1 <= pow2(b),
    ;
    assert(pow2((b - 1) as nat) * p <= high * p) by (nonlinear_arith)
        requires
            pow2((b - 1) as nat) <= high,
    ;
    assert((high + 1) * p == high * p + p) by (nonlinear_arith);
    lemma_bit_length_unique(high * p + low, k + b);
}

/// The bit length of `v`.
pub fn bit_length_u128(v: u128) -> (r: u32)
    ensures
        r == bit_length(v as nat),
        r <= 128,
{
    proof {
        vstd::arithmetic::power2::lemma2_to64();
        vstd::arithmetic::power2::lemma_pow2_adds(64, 64);
        lemma_bit_length_le(v as nat, 128);
    }
    let mut rest: u128 = v;
    let mut r: u32 = 0;
    while rest > 0
        invariant
            r + bit_length(rest as nat) == bit_length(v as nat),
            bit_length(v as nat) <= 128,
        decreases rest,
    {
        rest = rest / 2;
        r = r + 1;
    }
    r
}

/// The number of one bits at the low end of `v`.
pub fn trailing_ones_u128(v: u128) -> (r: u32)
    ensures
        r == trailing_ones(v as nat),
        r <= 128,
{
    proof {
        vstd::arithmetic::power2::lemma2_to64();
        vstd::arithmetic::power2::lemma_pow2_adds(64, 64);
        lemma_bit_length_le(v as nat, 128);
        lemma_trailing_ones_le_bits(v as nat);
    }
    let mut rest: u128 = v;
    let mut r: u32 = 0;
    while rest % 2 == 1
        invariant
            r + trailing_ones(rest as nat) == trailing_ones(v as nat),
            trailing_ones(v as nat) <= 128,
        decreases rest,
    {
        rest = rest / 2;
        r = r + 1;
    }
    r
}

/// The number of one bits of `v`.
pub fn count_ones_u128(v: u128) -> (r: u32)
    ensures
        r == count_ones(v as nat),
        r <= 128,
{
    proof {
        vstd::arithmetic::power2::lemma2_to64();
        vstd::arithmetic::power2::lemma_pow2_adds(64, 64);
        lemma_bit_length_le(v as nat, 128);
        lemma_trailing_ones_le_bits(v as nat);
    }
    let mut rest: u128 = v;
    let mut r: u32 = 0;
    while rest > 0
        invariant
            r + count_ones(rest as nat) == count_ones(v as nat),
            count_ones(v as nat) <= 128,
        decreases rest,
    {
        if rest % 2 == 1 {
            r = r + 1;
        }
        rest = rest / 2;
    }
    r
}

} // verus!
