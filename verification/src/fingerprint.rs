//! Perceptual fingerprints: 64-bit codes compared by Hamming distance.

use vstd::prelude::*;
use vstd::arithmetic::power2::{lemma2_to64, lemma2_to64_rest, lemma_pow2_unfold, pow2};

verus! {

/// Number of set bits in the binary form of `n`.
pub open spec fn popcount(n: nat) -> nat
    decreases n,
{
    if n == 0 {
        0
    } else {
        (n % 2) + popcount(n / 2)
    }
}

/// Hamming distance of two fingerprints: the number of bit positions in which
/// they differ.
pub open spec fn bit_difference(a: u64, b: u64) -> nat {
    popcount((a ^ b) as nat)
}

/// A number below `2^k` has at most `k` set bits.
pub proof fn lemma_popcount_bound(n: nat, k: nat)
    requires
        n < pow2(k),
    ensures
        popcount(n) <= k,
    decreases k,
{
    if n != 0 {
        if k == 0 {
            lemma2_to64();
        } else {
            lemma_pow2_unfold(k);
            lemma_popcount_bound(n / 2, (k - 1) as nat);
        }
    }
}

/// The distance of a fingerprint to itself is zero, and distance does not
/// depend on the order of its arguments.
pub proof fn lemma_bit_difference_symmetric(a: u64, b: u64)
    ensures
        bit_difference(a, a) == 0,
        bit_difference(a, b) == bit_difference(b, a),
        bit_difference(a, b) <= 64,
{
    assert(a ^ a == 0) by (bit_vector);
    assert(a ^ b == b ^ a) by (bit_vector);
    lemma2_to64_rest();
    lemma_popcount_bound((a ^ b) as nat, 64);
}

/// Counts the bit positions in which `a` and `b` differ.
pub fn hamming_distance(a: u64, b: u64) -> (d: u32)
    ensures
        d == bit_difference(a, b),
        d <= 64,
{
    let mut rest: u64 = a ^ b;
    let mut count: u32 = 0;
    proof {
        lemma2_to64_rest();
        lemma_popcount_bound(rest as nat, 64);
    }
    while rest != 0
        invariant
            count + popcount(rest as nat) == bit_difference(a, b),
            bit_difference(a, b) <= 64,
        decreases rest,
    {
        if rest % 2 == 1 {
            count += 1;
        }
        rest = rest / 2;
    }
    count
}

/// Folds the first eight bytes of a digest into one code, the first byte in
/// the highest place.
pub open spec fn folded(bytes: Seq<u8>) -> nat
    decreases bytes.len(),
{
    if bytes.len() == 0 {
        0
    } else {
        folded(bytes.drop_last()) * 256 + bytes.last() as nat
    }
}

/// The code of a digest: its first eight bytes, or all of them where it is
/// shorter, read as a big-endian number.
pub open spec fn code_of(bytes: Seq<u8>) -> nat {
    if bytes.len() <= 8 {
        folded(bytes)
    } else {
        folded(bytes.take(8))
    }
}

/// A fold of at most eight bytes fits in 64 bits.
pub proof fn lemma_folded_bound(bytes: Seq<u8>)
    requires
        bytes.len() <= 8,
    ensures
        folded(bytes) < pow2(8 * bytes.len()),
    decreases bytes.len(),
{
    lemma2_to64();
    lemma2_to64_rest();
    if bytes.len() > 0 {
        lemma_folded_bound(bytes.drop_last());
        let k = (bytes.len() - 1) as nat;
        assert(pow2(8 * (k + 1)) == pow2(8 * k) * 256) by {
            vstd::arithmetic::power2::lemma_pow2_adds(8 * k, 8);
        }
        assert(folded(bytes.drop_last()) * 256 + 255 < pow2(8 * k) * 256) by (nonlinear_arith)
            requires
                folded(bytes.drop_last()) < pow2(8 * k),
        ;
    }
}

/// Folds the leading bytes of a digest into a 64-bit code.
pub fn fold_code(bytes: &[u8]) -> (code: u64)
    ensures
        code == code_of(bytes@),
{
    let limit: usize = if bytes.len() < 8 {
        bytes.len()
    } else {
        8
    };
    let mut code: u64 = 0;
    let mut i: usize = 0;
    while i < limit
        invariant
            i <= limit <= 8,
            limit <= bytes.len(),
            code == folded(bytes@.take(i as int)),
        decreases limit - i,
    {
        proof {
            lemma_folded_bound(bytes@.take(i as int));
            lemma_folded_bound(bytes@.take(i as int + 1));
            lemma2_to64_rest();
            assert(bytes@.take(i as int + 1).drop_last() == bytes@.take(i as int));
            assert(pow2(8 * (i as nat + 1)) <= pow2(64)) by {
                if 8 * (i as nat + 1) < 64 {
                    vstd::arithmetic::power2::lemma_pow2_strictly_increases(
                        8 * (i as nat + 1),
                        64,
                    );
                }
            }
        }
        code = code * 256 + bytes[i] as u64;
        i += 1;
    }
    proof {
        if bytes.len() <= 8 {
            assert(bytes@.take(limit as int) == bytes@);
        }
    }
    code
}

} // verus!
