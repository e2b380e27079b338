//! State-ownership strategies for pseudorandom bit generation.
//!
//! Two deterministic engines (a 64-bit linear congruential generator and
//! xoshiro256+) are offered behind one operation, `do_something`, which
//! advances the generator and reduces its 64-bit output to a single bit.
//! The state of an engine lives either in an instance ([`LCGStruct`],
//! [`XoshiroStruct`]) or in process-wide storage that the caller owns and
//! hands in: eagerly allocated and seeded later, or lazily constructed
//! ([`Lazy`]).

pub mod bench;
mod entropy;
pub mod global;
pub mod lcg;
pub mod period;
pub mod reduce;
pub mod xoshiro;

pub use crate::bench::{
    bench_lcg_static, bench_lcg_static_lazy, bench_lcg_struct, bench_xoshiro_static_lazy,
    bench_xoshiro_struct, BENCH_SIZE,
};
pub use crate::global::{
    lcg_static_do_something, lcg_static_init, lcg_static_lazy_do_something, lcg_static_lazy_init,
    lcg_static_lazy_next_state, lcg_static_next_state, lcg_static_seed,
    xoshiro_static_lazy_do_something, xoshiro_static_lazy_init, xoshiro_static_lazy_next_state,
    Lazy, LCG_STATIC_UNSEEDED,
};
pub use crate::lcg::{lcg_step, LCGStruct, INCREMENT, MULTIPLIER};
pub use crate::reduce::{reduce, HALF};
pub use crate::xoshiro::{xoshiro_step, XoshiroStruct};
