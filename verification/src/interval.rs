//! Closed numeric intervals over fixed-point scalars.

use vstd::prelude::*;
use crate::fixed::{Fx, FX_INF, FX_NEG_INF, fx_sub, fx_add, fx_div};

verus! {

/// A closed interval; `min > max` means the empty interval.
#[derive(Clone, Copy, Debug, PartialEq, Eq, Structural)]
pub struct Interval {
    pub min: Fx,
    pub max: Fx,
}

pub open spec fn spec_interval(min: int, max: int) -> Interval {
    Interval { min: crate::vec3::fxv(min), max: crate::vec3::fxv(max) }
}

/// The component-wise union of two intervals.
pub open spec fn spec_interval_union(a: Interval, b: Interval) -> Interval {
    Interval {
        min: if a.min.val() <= b.min.val() { a.min } else { b.min },
        max: if a.max.val() >= b.max.val() { a.max } else { b.max },
    }
}

impl Interval {
    pub fn new(min: Fx, max: Fx) -> (r: Interval)
        ensures
            r == (Interval { min, max }),
    {
        Interval { min, max }
    }

    /// The empty interval: nothing is contained in it.
    pub fn empty() -> (r: Interval)
        ensures
            r.min.val() == FX_INF as int,
            r.max.val() == FX_NEG_INF as int,
    {
        Interval { min: Fx::infinity(), max: Fx::neg_infinity() }
    }

    /// The interval holding every representable scalar.
    pub fn universe() -> (r: Interval)
        ensures
            r.min.val() == FX_NEG_INF as int,
            r.max.val() == FX_INF as int,
    {
        Interval { min: Fx::neg_infinity(), max: Fx::infinity() }
    }

    /// The smallest interval containing both arguments.
    pub fn from_intervals(a: Interval, b: Interval) -> (r: Interval)
        ensures
            r == spec_interval_union(a, b),
    {
        let min = if a.min.raw <= b.min.raw { a.min } else { b.min };
        let max = if a.max.raw >= b.max.raw { a.max } else { b.max };
        Interval { min, max }
    }

    pub fn size(&self) -> (r: Fx)
        ensures
            r.val() == fx_sub(self.max.val(), self.min.val()),
    {
        self.max.sub(self.min)
    }

    pub fn contains(&self, x: Fx) -> (r: bool)
        ensures
            r == (self.min.val() <= x.val() <= self.max.val()),
    {
        self.min.raw <= x.raw && x.raw <= self.max.raw
    }

    pub fn surrounds(&self, x: Fx) -> (r: bool)
        ensures
            r == (self.min.val() < x.val() < self.max.val()),
    {
        self.min.raw < x.raw && x.raw < self.max.raw
    }

    pub fn clamp(&self, x: Fx) -> (r: Fx)
        ensures
            r.val() == if x.val() < self.min.val() {
                self.min.val()
            } else if x.val() > self.max.val() {
                self.max.val()
            } else {
                x.val()
            },
    {
        if x.raw < self.min.raw {
            self.min
        } else if x.raw > self.max.raw {
            self.max
        } else {
            x
        }
    }

    /// Widens the interval by half the given amount on each side.
    pub fn expand(&self, delta: Fx) -> (r: Interval)
        ensures
            r == spec_interval(
                fx_sub(self.min.val(), fx_div(delta.val(), 2 * crate::fixed::FX_ONE as int)),
                fx_add(self.max.val(), fx_div(delta.val(), 2 * crate::fixed::FX_ONE as int)),
            ),
    {
        let padding = delta.div(Fx::from_raw(2 * crate::fixed::FX_ONE));
        Interval { min: self.min.sub(padding), max: self.max.add(padding) }
    }

    /// Shifts both endpoints by a displacement.
    pub fn shift(&self, displacement: Fx) -> (r: Interval)
        ensures
            r == spec_interval(
                fx_add(self.min.val(), displacement.val()),
                fx_add(self.max.val(), displacement.val()),
            ),
    {
        Interval { min: self.min.add(displacement), max: self.max.add(displacement) }
    }
}

} // verus!
