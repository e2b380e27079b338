//! Process-wide generator state: the eager and the lazy ownership variants.
//!
//! The storage itself belongs to the program that links this library; each
//! operation here takes that storage by mutable reference. No locking is
//! performed: exclusive access is what `&mut` already demands of the caller.

use vstd::prelude::*;
use vstd::pervasive::unreached;
use crate::entropy::random_u64;
use crate::lcg::{lcg_next, lcg_step};
use crate::reduce::{reduce, reduce_spec};
use crate::xoshiro::{xoshiro_advance, xoshiro_output, XoshiroStruct};

verus! {

/// The state that the eager process-wide generator holds before it is seeded.
pub const LCG_STATIC_UNSEEDED: u64 = 0;

/// Storage whose content is constructed on an explicit request, not at load time.
pub enum Lazy<T> {
    /// Nothing has been constructed yet.
    Uninitialized,
    /// The constructed value.
    Ready(T),
}

impl<T> Lazy<T> {
    /// Whether the value has been constructed.
    pub open spec fn ready(&self) -> bool {
        self is Ready
    }

    /// The constructed value; meaningful only where [`Self::ready`] holds.
    pub open spec fn value(&self) -> T {
        self->Ready_0
    }

    /// Whether the value has been constructed.
    pub fn is_initialized(&self) -> (ready: bool)
        ensures
            ready == self.ready(),
    {
        match self {
            Lazy::Uninitialized => false,
            Lazy::Ready(_) => true,
        }
    }

    /// Stores `value` if nothing has been constructed yet, and otherwise keeps
    /// what is there. A caller for whom `value` is costly to make asks
    /// [`Self::is_initialized`] first.
    pub fn init_with(&mut self, value: T)
        ensures
            old(self).ready() ==> *final(self) == *old(self),
            !old(self).ready() ==> *final(self) == Lazy::Ready(value),
    {
        if !self.is_initialized() {
            *self = Lazy::Ready(value);
        }
    }
}

/// Overwrites the eager process-wide state with `seed`.
pub fn lcg_static_seed(state: &mut u64, seed: u64)
    ensures
        *final(state) == seed,
{
    *state = seed;
}

/// Overwrites the eager process-wide state with a value drawn from ambient entropy.
pub fn lcg_static_init(state: &mut u64) {
    lcg_static_seed(state, random_u64());
}

/// Advances the eager process-wide state by one step and returns the new state.
pub fn lcg_static_next_state(state: &mut u64) -> (next: u64)
    ensures
        next == lcg_next(*old(state)),
        *final(state) == next,
{
    *state = lcg_step(*state);
    *state
}

/// Advances the eager process-wide state by one step and reduces it to a bit.
///
/// An unseeded state is stepped like any other.
pub fn lcg_static_do_something(state: &mut u64) -> (bit: u64)
    ensures
        *final(state) == lcg_next(*old(state)),
        bit == reduce_spec(lcg_next(*old(state))),
{
    reduce(lcg_static_next_state(state))
}

/// Seeds the lazy process-wide LCG state from ambient entropy, unless it has
/// been seeded before.
pub fn lcg_static_lazy_init(cell: &mut Lazy<u64>)
    ensures
        final(cell).ready(),
        old(cell).ready() ==> *final(cell) == *old(cell),
{
    if !cell.is_initialized() {
        cell.init_with(random_u64());
    }
}

/// Advances the lazy process-wide LCG state by one step and returns the new state.
pub fn lcg_static_lazy_next_state(cell: &mut Lazy<u64>) -> (next: u64)
    requires
        old(cell).ready(),
    ensures
        next == lcg_next(old(cell).value()),
        *final(cell) == Lazy::Ready(next),
{
    match cell {
        Lazy::Ready(state) => {
            *state = lcg_step(*state);
            *state
        },
        Lazy::Uninitialized => unreached(),
    }
}

/// Advances the lazy process-wide LCG state by one step and reduces it to a bit.
pub fn lcg_static_lazy_do_something(cell: &mut Lazy<u64>) -> (bit: u64)
    requires
        old(cell).ready(),
    ensures
        *final(cell) == Lazy::Ready(lcg_next(old(cell).value())),
        bit == reduce_spec(lcg_next(old(cell).value())),
{
    reduce(lcg_static_lazy_next_state(cell))
}

/// Seeds the lazy process-wide xoshiro256+ generator from ambient entropy,
/// unless it has been seeded before.
pub fn xoshiro_static_lazy_init(cell: &mut Lazy<XoshiroStruct>)
    ensures
        final(cell).ready(),
        old(cell).ready() ==> *final(cell) == *old(cell),
{
    if !cell.is_initialized() {
        cell.init_with(XoshiroStruct::new());
    }
}

/// Advances the lazy process-wide xoshiro256+ generator and returns its output.
pub fn xoshiro_static_lazy_next_state(cell: &mut Lazy<XoshiroStruct>) -> (out: u64)
    requires
        old(cell).ready(),
    ensures
        final(cell).ready(),
        out == xoshiro_output(old(cell).value()@),
        final(cell).value()@ == xoshiro_advance(old(cell).value()@),
{
    match cell {
        Lazy::Ready(rng) => rng.next_state(),
        Lazy::Uninitialized => unreached(),
    }
}

/// Advances the lazy process-wide xoshiro256+ generator and reduces its output
/// to a bit.
pub fn xoshiro_static_lazy_do_something(cell: &mut Lazy<XoshiroStruct>) -> (bit: u64)
    requires
        old(cell).ready(),
    ensures
        final(cell).ready(),
        bit == reduce_spec(xoshiro_output(old(cell).value()@)),
        final(cell).value()@ == xoshiro_advance(old(cell).value()@),
{
    reduce(xoshiro_static_lazy_next_state(cell))
}

} // verus!
