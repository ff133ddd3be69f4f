//! Identifiers of catalog records: a short prefix that tells the kind of
//! record, and 32 hexadecimal digits drawn at random.

use vstd::prelude::*;
use std::collections::HashSet;
use vstd::arithmetic::power2::{lemma2_to64, lemma2_to64_rest, lemma_pow2_adds, pow2};
use crate::text::{hex_digit, join2};

verus! {

/// Calls `uuid::Uuid::new_v4` and returns the 128 bits of the identifier,
/// as `Uuid::as_u128` gives them. The bits are drawn at random: nothing is
/// promised of them.
#[verifier::external_body]
pub(crate) fn random_bits() -> (bits: u128) {
    uuid::Uuid::new_v4().as_u128()
}

/// The `width` lowest hexadecimal digits of `n`, the highest first.
pub open spec fn hex_fixed(n: nat, width: nat) -> Seq<char>
    decreases width,
{
    if width == 0 {
        Seq::empty()
    } else {
        hex_fixed(n / 16, (width - 1) as nat).push(hex_digit((n % 16) as int))
    }
}

/// `hex_fixed` gives as many digits as asked for.
pub proof fn lemma_hex_fixed_len(n: nat, width: nat)
    ensures
        hex_fixed(n, width).len() == width,
    decreases width,
{
    if width > 0 {
        lemma_hex_fixed_len(n / 16, (width - 1) as nat);
    }
}

/// Writes the `width` lowest hexadecimal digits of `bits`, in lower case
/// and the highest first.
pub fn format_hex(bits: u128, width: usize) -> (out: String)
    ensures
        out@ == hex_fixed(bits as nat, width as nat),
        out@.len() == width,
{
    let mut digits: Vec<char> = Vec::new();
    let mut rest: u128 = bits;
    let mut k: usize = 0;
    while k < width
        invariant
            k <= width,
            digits@.len() == k,
            forall|w: nat| #[trigger]
                hex_fixed(bits as nat, k as nat + w) == hex_fixed(rest as nat, w) + digits@.reverse(),
        decreases width - k,
    {
        let d: u8 = (rest % 16) as u8;
        let c: char = if d < 10 {
            (48 + d) as char
        } else {
            (87 + d) as char
        };
        let ghost before = digits@;
        let ghost prior = rest;
        digits.push(c);
        rest = rest / 16;
        k += 1;
        proof {
            assert(digits@.reverse() =~= seq![c] + before.reverse());
            assert forall|w: nat| #[trigger]
                hex_fixed(bits as nat, k as nat + w) == hex_fixed(rest as nat, w)
                    + digits@.reverse() by {
                assert(hex_fixed(bits as nat, (k - 1) as nat + (w + 1)) == hex_fixed(
                    prior as nat,
                    w + 1,
                ) + before.reverse());
                assert(hex_fixed(prior as nat, w + 1) == hex_fixed(rest as nat, w).push(c));
                assert(hex_fixed(rest as nat, w).push(c) + before.reverse() =~= hex_fixed(
                    rest as nat,
                    w,
                ) + (seq![c] + before.reverse()));
            }
        }
    }
    proof {
        assert(hex_fixed(bits as nat, width as nat + 0nat) == hex_fixed(rest as nat, 0)
            + digits@.reverse());
        assert(hex_fixed(rest as nat, 0) + digits@.reverse() =~= digits@.reverse());
    }
    let mut out = String::new();
    let mut i: usize = width;
    while i > 0
        invariant
            i <= width,
            digits@.len() == width,
            out@ == digits@.reverse().take(width - i),
        decreases i,
    {
        i -= 1;
        out.push(digits[i]);
        assert(digits@.reverse().take(width - i) =~= digits@.reverse().take(width - i - 1).push(
            digits@[i as int],
        ));
    }
    assert(digits@.reverse().take(width as int) =~= digits@.reverse());
    out
}

/// Writes 128 bits as 32 lower-case hexadecimal digits, the highest first.
pub fn format_simple(bits: u128) -> (out: String)
    ensures
        out@ == hex_fixed(bits as nat, 32),
        out@.len() == 32,
{
    format_hex(bits, 32)
}

/// Whether `n` can be written with `width` hexadecimal digits.
pub open spec fn fits(n: nat, width: nat) -> bool
    decreases width,
{
    if width == 0 {
        n == 0
    } else {
        fits(n / 16, (width - 1) as nat)
    }
}

/// A number below `2^(4 * width)` can be written with `width` digits.
pub proof fn lemma_fits(n: nat, width: nat)
    requires
        n < pow2(4 * width),
    ensures
        fits(n, width),
    decreases width,
{
    lemma2_to64();
    if width > 0 {
        let rest = (4 * (width - 1)) as nat;
        lemma_pow2_adds(4, rest);
        assert(n / 16 < pow2(rest)) by (nonlinear_arith)
            requires
                n < 16 * pow2(rest),
        ;
        lemma_fits(n / 16, (width - 1) as nat);
    }
}

/// Every 128-bit number can be written with 32 digits.
pub proof fn lemma_bits_fit(bits: u128)
    ensures
        fits(bits as nat, 32),
{
    lemma2_to64_rest();
    lemma_pow2_adds(64, 64);
    assert(pow2(128) == 0x1_0000_0000_0000_0000 * 0x1_0000_0000_0000_0000);
    lemma_fits(bits as nat, 32);
}

/// Numbers that are written with the same digits are the same number.
pub proof fn lemma_hex_fixed_injective(a: nat, b: nat, width: nat)
    requires
        fits(a, width),
        fits(b, width),
        hex_fixed(a, width) == hex_fixed(b, width),
    ensures
        a == b,
    decreases width,
{
    if width > 0 {
        let head_a = hex_fixed(a / 16, (width - 1) as nat);
        let head_b = hex_fixed(b / 16, (width - 1) as nat);
        assert(hex_fixed(a, width).last() == hex_digit((a % 16) as int));
        assert(hex_fixed(b, width).last() == hex_digit((b % 16) as int));
        assert(hex_fixed(a, width).drop_last() =~= head_a);
        assert(hex_fixed(b, width).drop_last() =~= head_b);
        assert(hex_digit((a % 16) as int) as int == if a % 16 < 10 {
            48 + a % 16
        } else {
            87 + a % 16
        });
        assert(hex_digit((b % 16) as int) as int == if b % 16 < 10 {
            48 + b % 16
        } else {
            87 + b % 16
        });
        lemma_hex_fixed_injective(a / 16, b / 16, (width - 1) as nat);
    }
}

/// Takes `bits` for a new identifier, unless they are in use: then nothing
/// is taken. Bits that are taken are in use from then on.
pub fn claim_identifier(used: &mut HashSet<u128>, prefix: &str, bits: u128) -> (id: Option<String>)
    ensures
        id is None <==> old(used)@.contains(bits),
        id is None ==> final(used)@ == old(used)@,
        id matches Some(text) ==> text@ == prefix@ + hex_fixed(bits as nat, 32) && final(used)@
            == old(used)@.insert(bits),
{
    broadcast use vstd::std_specs::hash::group_hash_axioms;

    if used.contains(&bits) {
        None
    } else {
        used.insert(bits);
        let digits = format_simple(bits);
        Some(join2(prefix, digits.as_str()))
    }
}

/// The value that lies `k` steps after `start`, going round from the
/// largest value to zero.
pub open spec fn probe(start: u128, k: nat) -> u128 {
    if start + k <= u128::MAX {
        (start + k) as u128
    } else {
        (start + k - u128::MAX - 1) as u128
    }
}

/// `k` is the number of steps from `start` to the first value that is not
/// in use.
pub open spec fn is_first_free(used: Set<u128>, start: u128, k: nat) -> bool {
    &&& !used.contains(probe(start, k))
    &&& forall|j: nat| j < k ==> used.contains(#[trigger] probe(start, j))
}

/// Takes for a new identifier the first value at or after `start` that is
/// not in use, going round from the largest value to zero. There is always
/// such a value, since more values exist than a set can hold. (Every set
/// that a program holds is finite; the first clause hands that fact on.)
pub fn claim_next_free(used: &mut HashSet<u128>, prefix: &str, start: u128) -> (id: String)
    requires
        old(used)@.finite(),
    ensures
        final(used)@.finite(),
        exists|k: nat|
            is_first_free(old(used)@, start, k) && id@ == prefix@ + #[trigger] hex_fixed(
                probe(start, k) as nat,
                32,
            ) && final(used)@ == old(used)@.insert(probe(start, k)),
{
    broadcast use vstd::std_specs::hash::group_hash_axioms;

    let held: usize = used.len();
    let mut k: usize = 0;
    let ghost mut seen: Set<u128> = Set::empty();
    loop
        invariant
            used@ == old(used)@,
            used@.finite(),
            used@.len() == held,
            seen.finite(),
            seen.subset_of(used@),
            seen.len() == k,
            k <= held,
            forall|j: nat| j < k ==> seen.contains(#[trigger] probe(start, j)),
            forall|c: u128|
                seen.contains(c) ==> exists|j: nat| j < k && c == #[trigger] probe(start, j),
        decreases held - k,
    {
        let room: u128 = u128::MAX - start;
        let candidate: u128 = if k as u128 <= room {
            start + k as u128
        } else {
            k as u128 - room - 1
        };
        assert(candidate == probe(start, k as nat));
        match claim_identifier(used, prefix, candidate) {
            Some(text) => {
                proof {
                    assert(is_first_free(old(used)@, start, k as nat));
                }
                return text;
            },
            None => {
                proof {
                    if seen.contains(candidate) {
                        let j = choose|j: nat| j < k && candidate == #[trigger] probe(start, j);
                        assert(probe(start, j) != probe(start, k as nat));
                    }
                    let ghost before = seen;
                    seen = seen.insert(candidate);
                    vstd::set_lib::lemma_len_subset(seen, used@);
                    assert forall|c: u128| seen.contains(c) implies exists|j: nat|
                        j < k + 1 && c == #[trigger] probe(start, j) by {
                        if c == candidate {
                            assert(c == probe(start, k as nat));
                        } else {
                            let j = choose|j: nat| j < k && c == #[trigger] probe(start, j);
                            assert(j < k + 1 && c == probe(start, j));
                        }
                    }
                }
            },
        }
        k += 1;
    }
}

/// Draws an identifier that is not in use: bits are drawn at random, and
/// the first value at or after them that is not in use is taken, as
/// `claim_next_free` says. (Every set that a program holds is finite; the
/// first clause hands that fact on.)
pub fn draw_identifier(used: &mut HashSet<u128>, prefix: &str) -> (id: String)
    requires
        old(used)@.finite(),
    ensures
        final(used)@.finite(),
        exists|bits: u128|
            !old(used)@.contains(bits) && id@ == prefix@ + #[trigger] hex_fixed(bits as nat, 32)
                && final(used)@ == old(used)@.insert(bits),
{
    let start = random_bits();
    let id = claim_next_free(used, prefix, start);
    proof {
        let k = choose|k: nat|
            is_first_free(old(used)@, start, k) && id@ == prefix@ + #[trigger] hex_fixed(
                probe(start, k) as nat,
                32,
            ) && used@ == old(used)@.insert(probe(start, k));
        let bits = probe(start, k);
        assert(!old(used)@.contains(bits) && id@ == prefix@ + hex_fixed(bits as nat, 32) && used@
            == old(used)@.insert(bits));
    }
    id
}

/// Whether `id` is `prefix` followed by 32 hexadecimal digits.
pub open spec fn is_identifier(id: Seq<char>, prefix: Seq<char>) -> bool {
    exists|bits: u128| id == prefix + #[trigger] hex_fixed(bits as nat, 32)
}

/// An identifier has its prefix and 32 further characters.
pub proof fn lemma_identifier_shape(id: Seq<char>, prefix: Seq<char>)
    requires
        is_identifier(id, prefix),
    ensures
        id.len() == prefix.len() + 32,
        id.take(prefix.len() as int) == prefix,
{
    let bits = choose|bits: u128| id == prefix + #[trigger] hex_fixed(bits as nat, 32);
    lemma_hex_fixed_len(bits as nat, 32);
    assert(id.take(prefix.len() as int) =~= prefix);
}

/// A fresh identifier with the given prefix.
pub fn fresh_identifier(prefix: &str) -> (id: String)
    ensures
        is_identifier(id@, prefix@),
{
    let bits = random_bits();
    let digits = format_simple(bits);
    join2(prefix, digits.as_str())
}

} // verus!
