//! Random sampling.
//!
//! Rendering threads an explicit deterministic generator through every
//! sampling decision, so a render is a pure function of its seed. The one
//! call into the outside world draws an operating-system-seeded value for
//! callers that want a fresh seed.

use vstd::prelude::*;
use crate::fixed::{Fx, FX_ONE};

verus! {

/// Relies on rand::random: a value drawn from the thread-local generator;
/// nothing is promised of it.
pub assume_specification<T>[ rand::random::<T> ]() -> (r: T)
    where
        rand::distributions::Standard: rand::distributions::Distribution<T>,
;

/// One xorshift step: the next generator state.
pub open spec fn spec_next_state(s: u64) -> u64 {
    let a = s ^ (s << 13);
    let b = a ^ (a >> 7);
    b ^ (b << 17)
}

/// An explicit deterministic generator (xorshift on 64 bits).
#[derive(Clone, Copy, Debug, PartialEq, Eq, Structural)]
pub struct Rng {
    pub state: u64,
}

impl Rng {
    /// A generator for a chosen seed; a zero seed is replaced, since the
    /// all-zero state is a fixed point of xorshift.
    pub fn new(seed: u64) -> (r: Rng)
        ensures
            r.state == if seed == 0 { 0x9e3779b97f4a7c15u64 } else { seed },
    {
        if seed == 0 {
            Rng { state: 0x9e3779b97f4a7c15u64 }
        } else {
            Rng { state: seed }
        }
    }

    /// A generator seeded from the operating system's randomness. Whatever
    /// value comes back, the resulting state is nonzero, so the generator
    /// never sits on the all-zero fixed point.
    pub fn from_entropy() -> (r: Rng)
        ensures
            r.state != 0,
    {
        let seed: u64 = rand::random();
        Rng::new(seed)
    }

    /// Advances the generator and returns the raw 64-bit draw.
    pub fn next_u64(&mut self) -> (r: u64)
        ensures
            final(self).state == spec_next_state(old(self).state),
            r == spec_next_state(old(self).state),
    {
        let s = self.state;
        let a = s ^ (s << 13u64);
        let b = a ^ (a >> 7u64);
        let c = b ^ (b << 17u64);
        self.state = c;
        c
    }

    /// A scalar uniform over `[0, 1)`, on the fixed-point grid.
    pub fn random(&mut self) -> (r: Fx)
        ensures
            final(self).state == spec_next_state(old(self).state),
            r == spec_unit_sample(spec_next_state(old(self).state)),
            0 <= r.val() < FX_ONE as int,
    {
        let d = self.next_u64();
        Fx { raw: (d % 65536u64) as i64 }
    }

    /// A scalar uniform over `[min, max)` on the fixed-point grid.
    pub fn random_range(&mut self, min: Fx, max: Fx) -> (r: Fx)
        ensures
            final(self).state == spec_next_state(old(self).state),
            r == spec_range_sample(min, max, spec_next_state(old(self).state)),
    {
        let u = self.random();
        min.add(max.sub(min).mul(u))
    }

    /// An integer uniform over the inclusive range `min..=max`.
    pub fn random_int(&mut self, min: i32, max: i32) -> (r: i32)
        requires
            min <= max,
        ensures
            final(self).state == spec_next_state(old(self).state),
            min <= r <= max,
            r == spec_int_sample(min, max, spec_next_state(old(self).state)),
    {
        let d = self.next_u64();
        let span: u64 = (max as i64 - min as i64 + 1) as u64;
        let off: u64 = d % span;
        (min as i64 + off as i64) as i32
    }
}

/// The `[0, 1)` sample a raw draw maps to.
pub open spec fn spec_unit_sample(d: u64) -> Fx {
    Fx { raw: (d % 65536) as i64 }
}

/// The `[min, max)` sample a raw draw maps to.
pub open spec fn spec_range_sample(min: Fx, max: Fx, d: u64) -> Fx {
    crate::vec3::fxv(
        crate::fixed::fx_add(
            min.val(),
            crate::fixed::fx_mul(
                crate::fixed::fx_sub(max.val(), min.val()),
                spec_unit_sample(d).val(),
            ),
        ),
    )
}

/// The integer in `min..=max` a raw draw maps to.
pub open spec fn spec_int_sample(min: i32, max: i32, d: u64) -> int
    recommends
        min <= max,
{
    min as int + (d as int % (max as int - min as int + 1))
}

/// An integer drawn uniformly from `min..=max` using fresh entropy.
pub fn random_int(min: i32, max: i32) -> (r: i32)
    requires
        min <= max,
    ensures
        min <= r <= max,
{
    let seed: u64 = rand::random();
    let mut g = Rng::new(seed);
    g.random_int(min, max)
}

} // verus!
