//! A constant and the Fibonacci numbers.

use vstd::arithmetic::power2::{
    lemma2_to64, lemma2_to64_rest, lemma_pow2_adds, lemma_pow2_pos, lemma_pow2_unfold, pow2,
};
use vstd::prelude::*;

verus! {

/// The Fibonacci numbers, starting with two ones.
pub open spec fn fib_spec(n: nat) -> nat
    decreases n,
{
    if n < 2 {
        1
    } else {
        fib_spec((n - 1) as nat) + fib_spec((n - 2) as nat)
    }
}

/// The Fibonacci numbers never fall.
pub proof fn lemma_fib_monotonic(i: nat, j: nat)
    requires
        i <= j,
    ensures
        fib_spec(i) <= fib_spec(j),
    decreases j,
{
    if i < j {
        if j < 2 {
        } else {
            lemma_fib_monotonic(i, (j - 1) as nat);
        }
    }
}

/// The `n`-th Fibonacci number is at most the `n`-th power of two.
pub proof fn lemma_fib_below_power_of_two(n: nat)
    ensures
        fib_spec(n) <= pow2(n),
    decreases n,
{
    if n < 2 {
        lemma_pow2_pos(n);
    } else {
        lemma_fib_below_power_of_two((n - 1) as nat);
        lemma_fib_below_power_of_two((n - 2) as nat);
        lemma_pow2_unfold(n);
        lemma_pow2_unfold((n - 1) as nat);
    }
}

/// The first 128 Fibonacci numbers fit 128 bits.
pub proof fn lemma_fib_fits(n: nat)
    requires
        n <= 127,
    ensures
        fib_spec(n) <= u128::MAX,
{
    lemma_fib_monotonic(n, 127);
    lemma_fib_below_power_of_two(127);
    lemma2_to64();
    lemma_pow2_adds(64, 63);
    assert(pow2(127) == 0x1_0000_0000_0000_0000 * 0x8000_0000_0000_0000) by {
        lemma2_to64_rest();
    }
}

/// Five.
pub fn five() -> (n: usize)
    ensures
        n == 5,
{
    5
}

/// The `n`-th Fibonacci number, where it fits 128 bits.
pub fn fib(n: u8) -> (f: u128)
    requires
        fib_spec(n as nat) <= u128::MAX,
    ensures
        f == fib_spec(n as nat),
    decreases n,
{
    if n < 2 {
        1
    } else {
        proof {
            lemma_fib_monotonic((n - 1) as nat, n as nat);
            lemma_fib_monotonic((n - 2) as nat, n as nat);
        }
        fib(n - 1) + fib(n - 2)
    }
}

} // verus!
