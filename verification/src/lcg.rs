//! The 64-bit linear congruential generator and the instance that owns its state.

use vstd::prelude::*;
use vstd::arithmetic::div_mod::lemma_add_mod_noop;
use crate::entropy::random_u64;
use crate::reduce::{reduce, reduce_spec};

verus! {

/// The multiplier of the recurrence.
pub const MULTIPLIER: u64 = 6364136223846793005;

/// The increment of the recurrence.
pub const INCREMENT: u64 = 1442695040888963407;

/// The modulus of the recurrence, `2^64`.
pub open spec fn modulus() -> int {
    0x1_0000_0000_0000_0000
}

/// One step of the recurrence: `(state * MULTIPLIER + INCREMENT) mod 2^64`.
pub open spec fn lcg_next(state: u64) -> u64 {
    ((state * MULTIPLIER + INCREMENT) % modulus()) as u64
}

/// The state reached from `state` after `n` steps of the recurrence.
pub open spec fn lcg_iterate(state: u64, n: nat) -> u64
    decreases n,
{
    if n == 0 {
        state
    } else {
        lcg_next(lcg_iterate(state, (n - 1) as nat))
    }
}

/// The bit that call number `n` of `do_something` returns, counting from 0,
/// on a generator that started in `state`.
pub open spec fn lcg_bit(state: u64, n: nat) -> u64 {
    reduce_spec(lcg_iterate(state, n + 1))
}

/// How many of the first `n` calls of `do_something` return bit `1` on a
/// generator that started in `state`.
pub open spec fn lcg_ones(state: u64, n: nat) -> nat
    decreases n,
{
    if n == 0 {
        0
    } else {
        lcg_ones(state, (n - 1) as nat) + lcg_bit(state, (n - 1) as nat) as nat
    }
}

/// Advances a state by one step of the recurrence, wrapping on overflow.
pub fn lcg_step(state: u64) -> (next: u64)
    ensures
        next == lcg_next(state),
{
    let product = state.wrapping_mul(MULTIPLIER);
    let next = product.wrapping_add(INCREMENT);
    proof {
        let exact = state as int * MULTIPLIER as int;
        assert(product as int == exact % modulus());
        assert(next as int == (product + INCREMENT) % modulus());
        lemma_add_mod_noop(exact, INCREMENT as int, modulus());
        assert((INCREMENT as int) % modulus() == INCREMENT as int);
    }
    next
}

/// A generator that exclusively owns its 64-bit state.
pub struct LCGStruct {
    state: u64,
}

impl View for LCGStruct {
    type V = u64;

    closed spec fn view(&self) -> u64 {
        self.state
    }
}

impl LCGStruct {
    /// A generator seeded from ambient entropy.
    pub fn new() -> (rng: Self) {
        Self::from_seed(random_u64())
    }

    /// A generator that starts from the given state.
    pub fn from_seed(seed: u64) -> (rng: Self)
        ensures
            rng@ == seed,
    {
        Self { state: seed }
    }

    /// The current state.
    pub fn state(&self) -> (state: u64)
        ensures
            state == self@,
    {
        self.state
    }

    /// Advances the state by one step and returns the new state.
    pub fn next_state(&mut self) -> (next: u64)
        ensures
            next == lcg_next(old(self)@),
            final(self)@ == next,
    {
        self.state = lcg_step(self.state);
        self.state
    }

    /// Advances the state by one step and reduces the new state to a bit.
    pub fn do_something(&mut self) -> (bit: u64)
        ensures
            final(self)@ == lcg_next(old(self)@),
            bit == reduce_spec(lcg_next(old(self)@)),
    {
        reduce(self.next_state())
    }
}

/// The generator is deterministic: two instances in the same state go through
/// the same states and return the same bits, call after call.
pub proof fn lemma_lcg_is_deterministic(first: LCGStruct, second: LCGStruct, n: nat)
    requires
        first@ == second@,
    ensures
        lcg_iterate(first@, n) == lcg_iterate(second@, n),
        lcg_bit(first@, n) == lcg_bit(second@, n),
        lcg_ones(first@, n) == lcg_ones(second@, n),
{
}

} // verus!
