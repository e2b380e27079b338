//! The batch drivers of the benchmark: a fixed number of `do_something`
//! calls on one ownership variant, each result consumed into a running count.
//!
//! Timing a batch is left to the caller; the drivers only compute.

use vstd::prelude::*;
use crate::global::{
    lcg_static_do_something,
    lcg_static_lazy_do_something,
    xoshiro_static_lazy_do_something,
    Lazy,
};
use crate::lcg::{lcg_bit, lcg_iterate, lcg_ones, LCGStruct};
use crate::xoshiro::{xoshiro_bit, xoshiro_iterate, xoshiro_ones, XoshiroStruct};

verus! {

/// The number of calls in a batch unless the caller chooses another.
pub const BENCH_SIZE: usize = 100_000_000;

/// Calls `do_something` `iterations` times on an LCG instance and counts the
/// calls that returned bit `1`.
pub fn bench_lcg_struct(rng: &mut LCGStruct, iterations: usize) -> (ones: usize)
    ensures
        final(rng)@ == lcg_iterate(old(rng)@, iterations as nat),
        ones == lcg_ones(old(rng)@, iterations as nat),
        ones <= iterations,
{
    let ghost start = rng@;
    let mut ones: usize = 0;
    let mut done: usize = 0;
    while done < iterations
        invariant
            done <= iterations,
            ones <= done,
            rng@ == lcg_iterate(start, done as nat),
            ones == lcg_ones(start, done as nat),
        decreases iterations - done,
    {
        let bit = rng.do_something();
        assert(bit == lcg_bit(start, done as nat));
        if bit == 1 {
            ones += 1;
        }
        done += 1;
    }
    ones
}

/// Calls `do_something` `iterations` times on a xoshiro256+ instance and
/// counts the calls that returned bit `1`.
pub fn bench_xoshiro_struct(rng: &mut XoshiroStruct, iterations: usize) -> (ones: usize)
    ensures
        final(rng)@ == xoshiro_iterate(old(rng)@, iterations as nat),
        ones == xoshiro_ones(old(rng)@, iterations as nat),
        ones <= iterations,
{
    let ghost start = rng@;
    let mut ones: usize = 0;
    let mut done: usize = 0;
    while done < iterations
        invariant
            done <= iterations,
            ones <= done,
            rng@ == xoshiro_iterate(start, done as nat),
            ones == xoshiro_ones(start, done as nat),
        decreases iterations - done,
    {
        let bit = rng.do_something();
        assert(bit == xoshiro_bit(start, done as nat));
        if bit == 1 {
            ones += 1;
        }
        done += 1;
    }
    ones
}

/// Calls `lcg_static_do_something` `iterations` times on the eager
/// process-wide state and counts the calls that returned bit `1`.
pub fn bench_lcg_static(state: &mut u64, iterations: usize) -> (ones: usize)
    ensures
        *final(state) == lcg_iterate(*old(state), iterations as nat),
        ones == lcg_ones(*old(state), iterations as nat),
        ones <= iterations,
{
    let ghost start = *state;
    let mut ones: usize = 0;
    let mut done: usize = 0;
    while done < iterations
        invariant
            done <= iterations,
            ones <= done,
            *state == lcg_iterate(start, done as nat),
            ones == lcg_ones(start, done as nat),
        decreases iterations - done,
    {
        let bit = lcg_static_do_something(state);
        assert(bit == lcg_bit(start, done as nat));
        if bit == 1 {
            ones += 1;
        }
        done += 1;
    }
    ones
}

/// Calls `lcg_static_lazy_do_something` `iterations` times on the lazy
/// process-wide LCG state and counts the calls that returned bit `1`.
pub fn bench_lcg_static_lazy(cell: &mut Lazy<u64>, iterations: usize) -> (ones: usize)
    requires
        old(cell).ready(),
    ensures
        *final(cell) == Lazy::Ready(lcg_iterate(old(cell).value(), iterations as nat)),
        ones == lcg_ones(old(cell).value(), iterations as nat),
        ones <= iterations,
{
    let ghost start = cell.value();
    let mut ones: usize = 0;
    let mut done: usize = 0;
    while done < iterations
        invariant
            done <= iterations,
            ones <= done,
            *cell == Lazy::Ready(lcg_iterate(start, done as nat)),
            ones == lcg_ones(start, done as nat),
        decreases iterations - done,
    {
        let bit = lcg_static_lazy_do_something(cell);
        assert(bit == lcg_bit(start, done as nat));
        if bit == 1 {
            ones += 1;
        }
        done += 1;
    }
    ones
}

/// Calls `xoshiro_static_lazy_do_something` `iterations` times on the lazy
/// process-wide xoshiro256+ generator and counts the calls that returned bit `1`.
pub fn bench_xoshiro_static_lazy(cell: &mut Lazy<XoshiroStruct>, iterations: usize) -> (ones: usize)
    requires
        old(cell).ready(),
    ensures
        final(cell).ready(),
        final(cell).value()@ == xoshiro_iterate(old(cell).value()@, iterations as nat),
        ones == xoshiro_ones(old(cell).value()@, iterations as nat),
        ones <= iterations,
{
    let ghost start = cell.value()@;
    let mut ones: usize = 0;
    let mut done: usize = 0;
    while done < iterations
        invariant
            done <= iterations,
            ones <= done,
            cell.ready(),
            cell.value()@ == xoshiro_iterate(start, done as nat),
            ones == xoshiro_ones(start, done as nat),
        decreases iterations - done,
    {
        let bit = xoshiro_static_lazy_do_something(cell);
        assert(bit == xoshiro_bit(start, done as nat));
        if bit == 1 {
            ones += 1;
        }
        done += 1;
    }
    ones
}

} // verus!
