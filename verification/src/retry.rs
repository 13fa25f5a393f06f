//! Waiting before something is tried again.

use rand::RngExt;
use vstd::prelude::*;

verus! {

use vstd::arithmetic::power2::{lemma_pow2_pos, lemma_pow2_strictly_increases, lemma2_to64, pow2};

/// The longest wait before the given attempt, the first of which is numbered zero: the base,
/// doubled with each attempt.
pub open spec fn longest_wait(base_ms: nat, attempt: nat) -> nat {
    base_ms * pow2(attempt)
}

/// The longest wait before the given attempt.
pub fn longest_wait_ms(base_ms: u64, attempt: usize) -> (wait: u64)
    requires
        attempt < 64,
        longest_wait(base_ms as nat, attempt as nat) <= u64::MAX,
    ensures
        wait == longest_wait(base_ms as nat, attempt as nat),
{
    proof {
        lemma2_to64();
        vstd::arithmetic::power2::lemma2_to64_rest();
        lemma_pow2_strictly_increases(attempt as nat, 64);
        vstd::bits::lemma_u64_shl_is_mul(1, attempt as u64);
    }
    base_ms * (1u64 << (attempt as u64))
}

/// `Rng::random_range` on the generator of the thread: a number up to the given one. Which
/// one, depends on chance.
#[verifier::external_body]
fn random_up_to(highest: u64) -> (number: u64)
    ensures
        number <= highest,
{
    rand::rng().random_range(0..=highest)
}

/// A wait of random length before the given attempt, the first of which is numbered zero. It
/// is at most the base, doubled with each attempt.
pub fn jittered_wait_ms(base_ms: u64, attempt: usize) -> (wait: u64)
    requires
        attempt < 64,
        longest_wait(base_ms as nat, attempt as nat) <= u64::MAX,
    ensures
        wait <= longest_wait(base_ms as nat, attempt as nat),
{
    random_up_to(longest_wait_ms(base_ms, attempt))
}

/// Every attempt doubles the longest wait.
pub proof fn law_waits_double(base_ms: nat, attempt: nat)
    ensures
        longest_wait(base_ms, attempt + 1) == 2 * longest_wait(base_ms, attempt),
        longest_wait(base_ms, 0) == base_ms,
{
    lemma_pow2_pos(attempt);
    lemma2_to64();
    vstd::arithmetic::power2::lemma_pow2_unfold(attempt + 1);
    assert(base_ms * (2 * pow2(attempt)) == 2 * (base_ms * pow2(attempt))) by (nonlinear_arith);
}

} // verus!
