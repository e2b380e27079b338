//! The period of the linear congruential generator.
//!
//! The multiplier is congruent to 1 modulo 4 and the increment is odd, so the
//! recurrence visits every 64-bit state before it returns to the first one.
//! More generally, the low `w` bits of the state repeat with period exactly
//! `2^w`, for every `w` up to 64.

use vstd::prelude::*;
use vstd::arithmetic::div_mod::{
    lemma_add_mod_noop,
    lemma_fundamental_div_mod,
    lemma_mod_equivalence,
    lemma_mod_mod,
    lemma_mod_multiples_basic,
    lemma_mul_mod_noop,
    lemma_mul_mod_noop_left,
    lemma_small_mod,
    lemma_truncate_middle,
};
use vstd::arithmetic::mul::lemma_mul_nonnegative;
use vstd::arithmetic::power2::{
    lemma2_to64,
    lemma_pow2_adds,
    lemma_pow2_pos,
    lemma_pow2_unfold,
    pow2,
};
use crate::lcg::{lcg_iterate, lcg_next, modulus, INCREMENT, MULTIPLIER};

verus! {

/// The number of states of the generator, `2^64`.
pub open spec fn period() -> nat {
    0x1_0000_0000_0000_0000
}

/// `1 + a + a^2 + ... + a^(n-1)`.
pub open spec fn geometric_sum(a: int, n: nat) -> int
    decreases n,
{
    if n == 0 {
        0
    } else {
        1 + a * geometric_sum(a, (n - 1) as nat)
    }
}

/// The factor by which a state's distance from its start grows with the
/// geometric sum: `(MULTIPLIER - 1) * state + INCREMENT`. It is always odd.
pub open spec fn lcg_stride(state: u64) -> int {
    (MULTIPLIER - 1) * state + INCREMENT
}

proof fn lemma_geometric_sum_nonnegative(a: int, n: nat)
    requires
        a >= 0,
    ensures
        geometric_sum(a, n) >= 0,
    decreases n,
{
    if n > 0 {
        lemma_geometric_sum_nonnegative(a, (n - 1) as nat);
        lemma_mul_nonnegative(a, geometric_sum(a, (n - 1) as nat));
    }
}

/// The sum over `m + k` terms, from the sums over `m` and over `k` terms.
proof fn lemma_geometric_sum_adds(a: int, m: nat, k: nat)
    ensures
        geometric_sum(a, m + k)
            == geometric_sum(a, m) + geometric_sum(a, k)
                + (a - 1) * (geometric_sum(a, m) * geometric_sum(a, k)),
    decreases k,
{
    if k > 0 {
        lemma_geometric_sum_adds(a, m, (k - 1) as nat);
        let gm = geometric_sum(a, m);
        let gk = geometric_sum(a, (k - 1) as nat);
        let gmk = geometric_sum(a, (m + k - 1) as nat);
        assert(geometric_sum(a, m + k) == 1 + a * gmk);
        assert(geometric_sum(a, k) == 1 + a * gk);
        assert(gmk == gm + gk + (a - 1) * (gm * gk));
        assert(1 + a * (gm + gk + (a - 1) * (gm * gk))
            == gm + (1 + a * gk) + (a - 1) * (gm * (1 + a * gk))) by (nonlinear_arith);
    } else {
        assert((a - 1) * (geometric_sum(a, m) * 0) == 0) by (nonlinear_arith);
    }
}

/// Where `a` is congruent to 1 modulo 4, the sum over `2 * m` terms is twice
/// the sum over `m` terms times an odd number.
proof fn lemma_geometric_sum_double(a: int, m: nat) -> (q: int)
    requires
        a >= 1,
        a % 4 == 1,
    ensures
        q >= 1,
        q % 2 == 1,
        geometric_sum(a, m) >= 0,
        geometric_sum(a, 2 * m) == 2 * (geometric_sum(a, m) * q),
{
    let g = geometric_sum(a, m);
    let h = (a - 1) / 4;
    lemma_geometric_sum_nonnegative(a, m);
    lemma_geometric_sum_adds(a, m, m);
    assert(a - 1 == 4 * h);
    assert(h >= 0);
    let q = 1 + 2 * (h * g);
    lemma_mul_nonnegative(h, g);
    assert(g + g + (4 * h) * (g * g) == 2 * (g * (1 + 2 * (h * g)))) by (nonlinear_arith);
    q
}

/// A multiple of `2^k`, for `k >= 1`, is even.
proof fn lemma_multiple_of_pow2_is_even(x: int, k: nat)
    requires
        k >= 1,
        x % (pow2(k) as int) == 0,
    ensures
        x % 2 == 0,
{
    let half = pow2((k - 1) as nat) as int;
    lemma_pow2_unfold(k);
    lemma_pow2_pos((k - 1) as nat);
    let t = x / (pow2(k) as int);
    lemma_fundamental_div_mod(x, pow2(k) as int);
    assert(x == (2 * half) * t);
    assert((2 * half) * t == (half * t) * 2) by (nonlinear_arith);
    lemma_mod_multiples_basic(half * t, 2);
}

/// Doubling a nonnegative number and the modulus doubles the remainder.
proof fn lemma_double_mod_pow2(x: int, k: nat)
    requires
        x >= 0,
        k >= 1,
    ensures
        (2 * x) % (pow2(k) as int) == 2 * (x % (pow2((k - 1) as nat) as int)),
{
    lemma_pow2_unfold(k);
    lemma_pow2_pos((k - 1) as nat);
    lemma_truncate_middle(x, 2, pow2((k - 1) as nat) as int);
}

/// An odd factor neither adds nor removes divisibility by a power of two.
proof fn lemma_odd_factor_cancels(x: int, q: int, j: nat)
    requires
        x >= 0,
        q >= 0,
        q % 2 == 1,
    ensures
        (x * q) % (pow2(j) as int) == 0 <==> x % (pow2(j) as int) == 0,
    decreases j,
{
    let p = pow2(j) as int;
    lemma_pow2_pos(j);
    if x % p == 0 {
        lemma_mul_mod_noop_left(x, q, p);
        assert((x % p) * q == 0) by (nonlinear_arith)
            requires
                x % p == 0,
        ;
        lemma_small_mod(0, p as nat);
    } else if j == 0 {
        lemma2_to64();
    } else if (x * q) % p == 0 {
        lemma_multiple_of_pow2_is_even(x * q, j);
        lemma_mul_mod_noop(x, q, 2);
        if x % 2 == 1 {
            assert((x % 2) * (q % 2) == 1) by (nonlinear_arith)
                requires
                    x % 2 == 1,
                    q % 2 == 1,
            ;
        }
        assert(x % 2 == 0);
        let y = x / 2;
        assert(x == 2 * y);
        assert(x * q == 2 * (y * q)) by (nonlinear_arith)
            requires
                x == 2 * y,
        ;
        lemma_mul_nonnegative(y, q);
        lemma_double_mod_pow2(y * q, j);
        lemma_odd_factor_cancels(y, q, (j - 1) as nat);
        lemma_double_mod_pow2(y, j);
    }
}

/// Where `a` is congruent to 1 modulo 4, `2^k` divides the sum over `n` terms
/// exactly when it divides `n`.
proof fn lemma_geometric_sum_divisibility(a: int, n: nat, k: nat)
    requires
        a >= 1,
        a % 4 == 1,
    ensures
        geometric_sum(a, n) % (pow2(k) as int) == 0 <==> (n as int) % (pow2(k) as int) == 0,
    decreases n,
{
    let p = pow2(k) as int;
    lemma_pow2_pos(k);
    if k == 0 {
        lemma2_to64();
    } else if n == 0 {
        lemma_small_mod(0, p as nat);
    } else if n % 2 == 1 {
        let m = (n / 2) as nat;
        let q = lemma_geometric_sum_double(a, m);
        let even = geometric_sum(a, (n - 1) as nat);
        assert(n - 1 == 2 * m);
        assert(even == 2 * (geometric_sum(a, m) * q));
        assert(geometric_sum(a, n) == 1 + a * even);
        assert(a * (2 * (geometric_sum(a, m) * q)) == (a * (geometric_sum(a, m) * q)) * 2)
            by (nonlinear_arith);
        lemma_mod_multiples_basic(a * (geometric_sum(a, m) * q), 2);
        assert(geometric_sum(a, n) % 2 == 1);
        if geometric_sum(a, n) % p == 0 {
            lemma_multiple_of_pow2_is_even(geometric_sum(a, n), k);
        }
        if (n as int) % p == 0 {
            lemma_multiple_of_pow2_is_even(n as int, k);
        }
    } else {
        let m = (n / 2) as nat;
        assert(n == 2 * m);
        let q = lemma_geometric_sum_double(a, m);
        let g = geometric_sum(a, m);
        lemma_mul_nonnegative(g, q);
        lemma_double_mod_pow2(g * q, k);
        lemma_odd_factor_cancels(g, q, (k - 1) as nat);
        lemma_geometric_sum_divisibility(a, m, (k - 1) as nat);
        lemma_double_mod_pow2(m as int, k);
    }
}

/// The state after `n` steps, in closed form.
proof fn lemma_lcg_iterate_closed_form(state: u64, n: nat)
    ensures
        lcg_iterate(state, n) as int
            == (state + geometric_sum(MULTIPLIER as int, n) * lcg_stride(state)) % modulus(),
    decreases n,
{
    let a = MULTIPLIER as int;
    let u = lcg_stride(state);
    if n == 0 {
        assert(geometric_sum(a, 0) * u == 0) by (nonlinear_arith)
            requires
                geometric_sum(a, 0) == 0,
        ;
        lemma_small_mod(state as nat, modulus() as nat);
    } else {
        lemma_lcg_iterate_closed_form(state, (n - 1) as nat);
        let g = geometric_sum(a, (n - 1) as nat);
        let y = state + g * u;
        let prev = lcg_iterate(state, (n - 1) as nat);
        assert(prev as int == y % modulus());
        assert(lcg_iterate(state, n) as int == (prev * a + INCREMENT) % modulus());
        lemma_mul_mod_noop_left(y, a, modulus());
        lemma_add_mod_noop(y * a, INCREMENT as int, modulus());
        lemma_add_mod_noop((y % modulus()) * a, INCREMENT as int, modulus());
        assert((prev * a + INCREMENT) % modulus() == (y * a + INCREMENT) % modulus());
        assert(y * a + INCREMENT == state + (1 + a * g) * u) by (nonlinear_arith)
            requires
                y == state + g * u,
                u == (a - 1) * state + INCREMENT,
        ;
    }
}

/// Iterating `i` steps and then `k` more is iterating `i + k` steps.
pub proof fn lemma_lcg_iterate_adds(state: u64, i: nat, k: nat)
    ensures
        lcg_iterate(lcg_iterate(state, i), k) == lcg_iterate(state, i + k),
    decreases k,
{
    if k > 0 {
        lemma_lcg_iterate_adds(state, i, (k - 1) as nat);
        assert(lcg_iterate(state, i + k) == lcg_next(lcg_iterate(state, (i + k - 1) as nat)));
    }
}

/// The low `w` bits of the state, for any `w` up to 64, return to their
/// starting value after `n` steps exactly when `n` is a multiple of `2^w`.
pub proof fn lemma_lcg_low_bits_period(state: u64, w: nat, n: nat)
    requires
        w <= 64,
    ensures
        lcg_iterate(state, n) as int % (pow2(w) as int) == state as int % (pow2(w) as int)
            <==> (n as int) % (pow2(w) as int) == 0,
{
    let a = MULTIPLIER as int;
    let u = lcg_stride(state);
    let g = geometric_sum(a, n);
    let y = state + g * u;
    let p = pow2(w) as int;
    let rest = pow2((64 - w) as nat) as int;
    lemma_pow2_pos(w);
    lemma_pow2_pos((64 - w) as nat);
    lemma_pow2_adds(w, (64 - w) as nat);
    lemma2_to64();
    assert(p * rest == modulus());
    lemma_lcg_iterate_closed_form(state, n);
    lemma_mod_mod(y, p, rest);
    assert(lcg_iterate(state, n) as int % p == y % p);
    lemma_mod_equivalence(y, state as int, p);
    assert(y - state == g * u);
    lemma_geometric_sum_nonnegative(a, n);
    assert(u % 2 == 1);
    lemma_odd_factor_cancels(g, u, w);
    lemma_geometric_sum_divisibility(a, n, w);
}

/// After `n` steps the generator is back at its starting state exactly when
/// `n` is a multiple of `2^64`.
pub proof fn lemma_lcg_returns_at_multiples_of_period(state: u64, n: nat)
    ensures
        lcg_iterate(state, n) == state <==> n % period() == 0,
{
    lemma2_to64();
    lemma_lcg_low_bits_period(state, 64, n);
    lemma_small_mod(state as nat, period());
    lemma_small_mod(lcg_iterate(state, n) as nat, period());
}

/// The generator has full period: from any state, `2^64` steps lead back to
/// that state, and no state occurs twice among the `2^64` states before that.
pub proof fn lemma_lcg_full_period(state: u64)
    ensures
        lcg_iterate(state, period()) == state,
        forall|i: nat, j: nat|
            i < j < period() ==> lcg_iterate(state, i) != lcg_iterate(state, j),
{
    lemma_lcg_returns_at_multiples_of_period(state, period());
    assert forall|i: nat, j: nat| i < j < period() implies lcg_iterate(state, i)
        != lcg_iterate(state, j) by {
        let k = (j - i) as nat;
        lemma_lcg_iterate_adds(state, i, k);
        lemma_lcg_returns_at_multiples_of_period(lcg_iterate(state, i), k);
        lemma_small_mod(k, period());
    }
}

} // verus!
