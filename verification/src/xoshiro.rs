//! The xoshiro256+ generator of `rand_xoshiro` and the instance that owns one.

use vstd::prelude::*;
use vstd::wrapping::u64_specs::wrapping_add;
use rand_xoshiro::Xoshiro256Plus;
use rand_xoshiro::rand_core::{RngCore, SeedableRng};
use crate::reduce::{reduce, reduce_spec};

verus! {

/// `rand_xoshiro::Xoshiro256Plus`, whose four state words are private to its crate.
#[verifier::external_type_specification]
#[verifier::external_body]
pub struct ExXoshiro256Plus(Xoshiro256Plus);

/// The four 64-bit state words that a `Xoshiro256Plus` holds, in order.
pub uninterp spec fn xoshiro_words(rng: Xoshiro256Plus) -> Seq<u64>;

/// `x` rotated left by `k` bits, for `0 < k < 64`.
pub open spec fn rotate_left(x: u64, k: u64) -> u64 {
    (x << k) | (x >> ((64 - k) as u64))
}

/// Whether every byte of a seed is zero.
pub open spec fn seed_is_zero(seed: Seq<u8>) -> bool {
    forall|i: int| 0 <= i < seed.len() ==> seed[i] == 0
}

/// The 64-bit word that the eight bytes from index `at` on encode, least
/// significant byte first.
pub open spec fn le_word(bytes: Seq<u8>, at: int) -> u64 {
    (bytes[at] + bytes[at + 1] * 0x100 + bytes[at + 2] * 0x1_0000 + bytes[at + 3] * 0x100_0000
        + bytes[at + 4] * 0x1_0000_0000 + bytes[at + 5] * 0x100_0000_0000 + bytes[at + 6]
        * 0x1_0000_0000_0000 + bytes[at + 7] * 0x100_0000_0000_0000) as u64
}

/// The four state words that a 32-byte seed encodes.
pub open spec fn seed_words(seed: Seq<u8>) -> Seq<u64> {
    seq![le_word(seed, 0), le_word(seed, 8), le_word(seed, 16), le_word(seed, 24)]
}

/// The output that xoshiro256+ produces in state `s`: the wrapping sum of the
/// first and the last word.
pub open spec fn xoshiro_output(s: Seq<u64>) -> u64 {
    wrapping_add(s[0], s[3])
}

/// The state that follows `s` in xoshiro256+.
pub open spec fn xoshiro_advance(s: Seq<u64>) -> Seq<u64> {
    let t = s[1] << 17u64;
    let s2 = s[2] ^ s[0];
    let s3 = s[3] ^ s[1];
    let s1 = s[1] ^ s2;
    let s0 = s[0] ^ s3;
    seq![s0, s1, s2 ^ t, rotate_left(s3, 45)]
}

/// The state reached from `s` after `n` steps of xoshiro256+.
pub open spec fn xoshiro_iterate(s: Seq<u64>, n: nat) -> Seq<u64>
    decreases n,
{
    if n == 0 {
        s
    } else {
        xoshiro_advance(xoshiro_iterate(s, (n - 1) as nat))
    }
}

/// The bit that call number `n` of `do_something` returns, counting from 0,
/// on a generator that started in state `s`.
pub open spec fn xoshiro_bit(s: Seq<u64>, n: nat) -> u64 {
    reduce_spec(xoshiro_output(xoshiro_iterate(s, n)))
}

/// How many of the first `n` calls of `do_something` return bit `1` on a
/// generator that started in state `s`.
pub open spec fn xoshiro_ones(s: Seq<u64>, n: nat) -> nat
    decreases n,
{
    if n == 0 {
        0
    } else {
        xoshiro_ones(s, (n - 1) as nat) + xoshiro_bit(s, (n - 1) as nat) as nat
    }
}

/// One step of xoshiro256+ on plain state words: the output, and the words
/// that follow.
pub fn xoshiro_step(s: [u64; 4]) -> (step: (u64, [u64; 4]))
    ensures
        step.0 == xoshiro_output(s@),
        step.1@ == xoshiro_advance(s@),
{
    let out = s[0].wrapping_add(s[3]);
    let t = s[1] << 17u64;
    let s2 = s[2] ^ s[0];
    let s3 = s[3] ^ s[1];
    let s1 = s[1] ^ s2;
    let s0 = s[0] ^ s3;
    let next = [s0, s1, s2 ^ t, (s3 << 45u64) | (s3 >> 19u64)];
    assert(next@ =~= xoshiro_advance(s@));
    (out, next)
}

/// Advances a `Xoshiro256Plus` with `RngCore::next_u64`.
///
/// The contract restates the body of that method: the output is the wrapping
/// sum of words 0 and 3 of the state before the call, and the state after it is
/// the xor/shift/rotate mix of [`xoshiro_advance`].
#[verifier::external_body]
fn xoshiro_next_u64(rng: &mut Xoshiro256Plus) -> (out: u64)
    ensures
        out == xoshiro_output(xoshiro_words(*old(rng))),
        xoshiro_words(*final(rng)) == xoshiro_advance(xoshiro_words(*old(rng))),
{
    rng.next_u64()
}

/// Seeds a `Xoshiro256Plus` with `SeedableRng::from_entropy`, which fills a
/// 32-byte seed from the operating system and panics if that source fails.
///
/// Only the shape of the state is claimed, not its content.
#[verifier::external_body]
fn xoshiro_from_entropy() -> (rng: Xoshiro256Plus)
    ensures
        xoshiro_words(rng).len() == 4,
{
    Xoshiro256Plus::from_entropy()
}

/// Builds a `Xoshiro256Plus` with `SeedableRng::from_seed`.
///
/// That function reads the seed as four little-endian words, unless every
/// byte of it is zero: then it takes another, fixed seed, of which only the
/// shape is claimed here.
#[verifier::external_body]
fn xoshiro_from_seed(seed: [u8; 32]) -> (rng: Xoshiro256Plus)
    ensures
        xoshiro_words(rng).len() == 4,
        !seed_is_zero(seed@) ==> xoshiro_words(rng) == seed_words(seed@),
{
    Xoshiro256Plus::from_seed(seed)
}

/// A generator that exclusively owns its 256-bit state.
pub struct XoshiroStruct {
    state: Xoshiro256Plus,
}

impl View for XoshiroStruct {
    type V = Seq<u64>;

    closed spec fn view(&self) -> Seq<u64> {
        xoshiro_words(self.state)
    }
}

impl XoshiroStruct {
    /// A generator seeded from ambient entropy.
    pub fn new() -> (rng: Self)
        ensures
            rng@.len() == 4,
    {
        Self { state: xoshiro_from_entropy() }
    }

    /// A generator whose four state words are those that `seed` encodes, least
    /// significant byte first. A seed of 32 zero bytes stands for another,
    /// fixed state.
    pub fn from_seed(seed: [u8; 32]) -> (rng: Self)
        ensures
            rng@.len() == 4,
            !seed_is_zero(seed@) ==> rng@ == seed_words(seed@),
    {
        Self { state: xoshiro_from_seed(seed) }
    }

    /// Advances the state by one step and returns the 64-bit output.
    pub fn next_state(&mut self) -> (out: u64)
        ensures
            out == xoshiro_output(old(self)@),
            final(self)@ == xoshiro_advance(old(self)@),
    {
        xoshiro_next_u64(&mut self.state)
    }

    /// Advances the state by one step and reduces the output to a bit.
    pub fn do_something(&mut self) -> (bit: u64)
        ensures
            bit == reduce_spec(xoshiro_output(old(self)@)),
            final(self)@ == xoshiro_advance(old(self)@),
    {
        reduce(self.next_state())
    }
}

} // verus!
