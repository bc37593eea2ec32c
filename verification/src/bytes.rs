//! Big-endian byte strings and the numbers they stand for.

use vstd::arithmetic::power2::{lemma2_to64, lemma_pow2_adds, lemma_pow2_pos, pow2};
use vstd::prelude::*;

verus! {

/// `256^k`, the number of byte strings of length `k`.
pub open spec fn pow256(k: nat) -> nat {
    pow2(8 * k)
}

/// The number that `bytes` spells, most significant byte first.
pub open spec fn be_value(bytes: Seq<u8>) -> nat
    decreases bytes.len(),
{
    if bytes.len() == 0 {
        0
    } else {
        be_value(bytes.drop_last()) * 256 + bytes.last() as nat
    }
}

/// The `len` low-order bytes of `n`, most significant byte first.
pub open spec fn be_bytes(n: nat, len: nat) -> Seq<u8>
    decreases len,
{
    if len == 0 {
        Seq::empty()
    } else {
        be_bytes(n / 256, (len - 1) as nat).push((n % 256) as u8)
    }
}

pub proof fn lemma_pow256_step(k: nat)
    ensures
        pow256(0) == 1,
        pow256(k + 1) == 256 * pow256(k),
        pow256(k) > 0,
{
    lemma2_to64();
    lemma_pow2_adds(8, 8 * k);
    lemma_pow2_pos(8 * k);
    assert(8 * (k + 1) == 8 + 8 * k);
}

pub proof fn lemma_pow256_16()
    ensures
        pow256(16) == 0x1_0000_0000_0000_0000_0000_0000_0000_0000,
        pow256(8) == 0x1_0000_0000_0000_0000,
{
    lemma2_to64();
    lemma_pow2_adds(64, 64);
}

pub proof fn lemma_pow256_32()
    ensures
        pow256(32)
            == 0x1_0000_0000_0000_0000_0000_0000_0000_0000_0000_0000_0000_0000_0000_0000_0000_0000,
{
    lemma_pow256_16();
    lemma_pow2_adds(128, 128);
    assert(pow256(32) == pow256(16) * pow256(16));
}

pub proof fn lemma_be_bytes_len(n: nat, len: nat)
    ensures
        be_bytes(n, len).len() == len,
    decreases len,
{
    if len > 0 {
        lemma_be_bytes_len(n / 256, (len - 1) as nat);
    }
}

/// A string of `k` bytes spells a number below `256^k`.
pub proof fn lemma_be_value_bound(bytes: Seq<u8>)
    ensures
        be_value(bytes) < pow256(bytes.len()),
    decreases bytes.len(),
{
    if bytes.len() == 0 {
        lemma_pow256_step(0);
    } else {
        lemma_be_value_bound(bytes.drop_last());
        lemma_pow256_step((bytes.len() - 1) as nat);
    }
}

/// Spelling a number in `len` bytes and reading it back keeps it modulo `256^len`.
pub proof fn lemma_be_value_of_bytes(n: nat, len: nat)
    ensures
        be_value(be_bytes(n, len)) == n % pow256(len),
    decreases len,
{
    lemma_pow256_step(0);
    if len > 0 {
        let k = (len - 1) as nat;
        let rest = be_bytes(n / 256, k);
        lemma_be_value_of_bytes(n / 256, k);
        lemma_pow256_step(k);
        assert(be_bytes(n, len).drop_last() =~= rest);
        let p = pow256(k);
        assert(n % (256 * p) == 256 * ((n / 256) % p) + n % 256) by {
            vstd::arithmetic::div_mod::lemma_breakdown(n as int, 256, p as int);
            vstd::arithmetic::div_mod::lemma_mod_breakdown(n as int, 256, p as int);
        }
    }
}

/// Reading a byte string and spelling the number again gives the string back.
pub proof fn lemma_be_bytes_of_value(bytes: Seq<u8>)
    ensures
        be_bytes(be_value(bytes), bytes.len()) == bytes,
    decreases bytes.len(),
{
    if bytes.len() > 0 {
        lemma_be_bytes_of_value(bytes.drop_last());
        let v = be_value(bytes);
        assert(v / 256 == be_value(bytes.drop_last()));
        assert(v % 256 == bytes.last() as nat);
        assert(be_bytes(v, bytes.len()) =~= bytes);
    } else {
        assert(be_bytes(0, 0) =~= bytes);
    }
}

/// The value of two strings put end to end.
pub proof fn lemma_be_value_concat(a: Seq<u8>, b: Seq<u8>)
    ensures
        be_value(a + b) == be_value(a) * pow256(b.len()) + be_value(b),
    decreases b.len(),
{
    lemma_pow256_step(0);
    if b.len() == 0 {
        assert(a + b =~= a);
    } else {
        let k = (b.len() - 1) as nat;
        lemma_be_value_concat(a, b.drop_last());
        lemma_pow256_step(k);
        assert((a + b).drop_last() =~= a + b.drop_last());
        let x = be_value(a);
        let p = pow256(k);
        assert((x * p) * 256 == x * (256 * p)) by (nonlinear_arith);
    }
}

/// A number below `256^(k+m)` is spelt by its high `k` bytes followed by its low `m` bytes.
pub proof fn lemma_be_bytes_split(high: nat, low: nat, k: nat, m: nat)
    requires
        high < pow256(k),
        low < pow256(m),
    ensures
        be_bytes(high * pow256(m) + low, k + m) == be_bytes(high, k) + be_bytes(low, m),
{
    let s = be_bytes(high, k) + be_bytes(low, m);
    lemma_be_bytes_len(high, k);
    lemma_be_bytes_len(low, m);
    lemma_be_value_concat(be_bytes(high, k), be_bytes(low, m));
    lemma_be_value_of_bytes(high, k);
    lemma_be_value_of_bytes(low, m);
    vstd::arithmetic::div_mod::lemma_small_mod(high, pow256(k));
    vstd::arithmetic::div_mod::lemma_small_mod(low, pow256(m));
    lemma_be_bytes_of_value(s);
}

} // verus!
