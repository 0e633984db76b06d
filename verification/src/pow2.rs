//! Rounding a size up to a power of two.

use vstd::prelude::*;
use vstd::arithmetic::div_mod::{lemma_mod_bound, lemma_mod_equivalence, lemma_small_mod};
use vstd::arithmetic::power2::{lemma2_to64, lemma2_to64_rest};
use vstd::bits::{low_bits_mask, lemma_usize_low_bits_mask_is_mod};
use vstd::arithmetic::power2::{is_pow2, is_pow2_equiv, pow2, lemma_pow2_pos, lemma_pow2_unfold, lemma_pow2_strictly_increases};
use vstd::arithmetic::power::{pow, lemma_pow_positive};

verus! {

/// The largest power of two that a `usize` can hold.
pub open spec fn max_power_of_two() -> nat {
    (usize::MAX / 2 + 1) as nat
}

/// `r` is the smallest power of two that is not below `n`.
pub open spec fn is_rounded_power_of_two(n: nat, r: nat) -> bool {
    &&& is_pow2(r as int)
    &&& n <= r
    &&& forall|q: nat| is_pow2(q as int) && n <= q ==> r <= q
}

/// Powers of two grow with their exponent, so a power of two that exceeds
/// `pow2(k)` is at least `pow2(k + 1)`.
pub proof fn lemma_pow2_gap(k: nat, q: nat)
    requires
        is_pow2(q as int),
        pow2(k) < q,
    ensures
        pow2(k + 1) <= q,
{
    is_pow2_equiv(q as int);
    let j = choose|j: nat| pow(2, j) == q as int;
    lemma_pow_positive(2, j);
    assert(pow2(j) == q);
    if j <= k {
        if j < k {
            lemma_pow2_strictly_increases(j, k);
        }
        assert(false);
    }
    if k + 1 < j {
        lemma_pow2_strictly_increases(k + 1, j);
    }
}

/// Every power of two is at least one.
pub proof fn lemma_is_pow2_positive(q: nat)
    requires
        is_pow2(q as int),
    ensures
        1 <= q,
{
    reveal(is_pow2);
}

/// `pow2(k)` is a power of two.
pub proof fn lemma_pow2_is_pow2(k: nat)
    ensures
        is_pow2(pow2(k) as int),
{
    lemma_pow_positive(2, k);
    is_pow2_equiv(pow2(k) as int);
    assert(pow(2, k) == pow2(k) as int);
}

/// Rounds `size` up to the next power of two; a power of two is returned
/// unchanged and zero is rounded up to one.
pub fn round_to_power_of_two(size: usize) -> (rounded: usize)
    requires
        size <= max_power_of_two(),
    ensures
        is_rounded_power_of_two(size as nat, rounded as nat),
{
    let mut p: usize = 1;
    let ghost mut k: nat = 0;
    proof {
        lemma_pow2_unfold(1);
        assert(pow2(0) == 1) by {
            vstd::arithmetic::power2::lemma2_to64();
        }
    }
    while p < size
        invariant
            p == pow2(k),
            1 <= p,
            size <= max_power_of_two(),
            k == 0 || pow2((k - 1) as nat) < size,
        decreases (if p < size { size - p } else { 0 }),
    {
        proof {
            lemma_pow2_unfold(k + 1);
            k = k + 1;
        }
        p = 2 * p;
    }
    proof {
        lemma_pow2_is_pow2(k);
        assert forall|q: nat| is_pow2(q as int) && size <= q implies p <= q by {
            lemma_is_pow2_positive(q);
            if k > 0 {
                lemma_pow2_gap((k - 1) as nat, q);
            }
        }
    }
    p
}

/// Masking with a power of two less one is the remainder by that power.
pub proof fn lemma_mask_is_mod(index: usize, capacity: usize)
    requires
        is_pow2(capacity as int),
    ensures
        index & ((capacity - 1) as usize) == index % capacity,
        index % capacity < capacity,
        1 <= capacity,
{
    is_pow2_equiv(capacity as int);
    let k = choose|k: nat| pow(2, k) == capacity as int;
    lemma_pow_positive(2, k);
    assert(pow2(k) == capacity);
    if k >= usize::BITS {
        lemma2_to64();
        lemma2_to64_rest();
        if k > usize::BITS {
            lemma_pow2_strictly_increases(usize::BITS as nat, k);
        }
        assert(false);
    }
    lemma_usize_low_bits_mask_is_mod(index, k);
    assert(low_bits_mask(k) == capacity - 1);
    lemma_mod_bound(index as int, capacity as int);
}

/// Two different positions less than `capacity` apart have different
/// remainders by `capacity`.
pub proof fn lemma_distinct_slots(a: nat, b: nat, capacity: nat)
    requires
        a < b,
        b - a < capacity,
    ensures
        a % capacity != b % capacity,
{
    lemma_mod_equivalence(b as int, a as int, capacity as int);
    lemma_small_mod((b - a) as nat, capacity);
}

} // verus!
