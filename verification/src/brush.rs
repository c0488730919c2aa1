//! The brush: which kind it paints and how wide.

use vstd::prelude::*;
use crate::cell::{kind_id, kind_of, SAND, WATER};

verus! {

/// The smallest side of a brush, in cells.
pub const BRUSH_MIN: usize = 1;

/// The largest side of a brush, in cells.
pub const BRUSH_MAX: usize = 40;

/// The side a new brush has, in cells.
pub const BRUSH_START: usize = 4;

/// The side of a brush of side `size` after the wheel turned by `delta`
/// notches: a brush of side one grows by one cell a notch, any other by two,
/// and the side stays between the smallest and the largest.
pub open spec fn scrolled(size: int, delta: int) -> int {
    let moved = if size == 1 {
        size + delta
    } else {
        size + delta * 2
    };
    if moved < BRUSH_MIN {
        BRUSH_MIN as int
    } else if moved > BRUSH_MAX {
        BRUSH_MAX as int
    } else {
        moved
    }
}

/// A kind of particle and the side of the square stamped with it.
pub struct Brush {
    particle: u8,
    size: usize,
}

impl Brush {
    /// The kind the brush paints.
    pub closed spec fn spec_particle(&self) -> u8 {
        self.particle
    }

    /// The side of the brush, in cells.
    pub closed spec fn spec_size(&self) -> usize {
        self.size
    }

    /// The kind is a known one and the side is in range.
    pub open spec fn wf(&self) -> bool {
        &&& self.particle() <= WATER
        &&& BRUSH_MIN <= self.size() <= BRUSH_MAX
    }

    /// A brush for sand, four cells wide.
    pub fn new() -> (brush: Self)
        ensures
            brush.wf(),
            brush.particle() == SAND,
            brush.size() == BRUSH_START,
    {
        Self { particle: SAND, size: BRUSH_START }
    }

    /// The kind the brush paints.
    #[verifier::when_used_as_spec(spec_particle)]
    pub fn particle(&self) -> (particle: u8)
        ensures
            particle == self.particle(),
    {
        self.particle
    }

    /// The side of the brush, in cells.
    #[verifier::when_used_as_spec(spec_size)]
    pub fn size(&self) -> (size: usize)
        ensures
            size == self.size(),
    {
        self.size
    }

    /// Makes the brush paint the kind of id `particle`.
    pub fn set_particle(&mut self, particle: u8)
        ensures
            final(self).particle() == kind_of(particle),
            final(self).size() == old(self).size(),
    {
        self.particle = kind_id(particle);
    }

    /// Turns the wheel by `delta` notches.
    pub fn scroll(&mut self, delta: i32)
        requires
            old(self).wf(),
        ensures
            final(self).wf(),
            final(self).particle() == old(self).particle(),
            final(self).size() == scrolled(old(self).size() as int, delta as int),
    {
        let size: i64 = self.size as i64;
        let moved: i64 = if size == 1 {
            size + delta as i64
        } else {
            size + delta as i64 * 2
        };
        if moved < BRUSH_MIN as i64 {
            self.size = BRUSH_MIN;
        } else if moved > BRUSH_MAX as i64 {
            self.size = BRUSH_MAX;
        } else {
            self.size = moved as usize;
        }
    }
}

} // verus!
