//! The painter: it follows the pointer from frame to frame and turns each
//! move with a button held into a stroke on the world.

use vstd::prelude::*;
use crate::brush::{scrolled, Brush, BRUSH_MAX, BRUSH_MIN, BRUSH_START};
use crate::cell::{SAND, STONE, WATER};
use crate::paint::{paint, painted};
use crate::particle_handler::ParticleHandler;
use crate::stroke::COORD_MAX;

verus! {

/// The kind the held buttons paint: the first button sand, the second
/// stone, the third water; the first of them that is held counts. With no
/// button held nothing is painted.
pub open spec fn pressed_kind(left: bool, right: bool, middle: bool) -> Option<u8> {
    if left {
        Some(SAND)
    } else if right {
        Some(STONE)
    } else if middle {
        Some(WATER)
    } else {
        None
    }
}

/// The world stands still while the third button alone paints.
pub open spec fn pressed_freeze(left: bool, right: bool, middle: bool) -> bool {
    !left && !right && middle
}

/// The pointer coordinate `value` brought into a window side of `extent`
/// pixels.
pub open spec fn clamped(value: int, extent: int) -> int {
    if value < 0 {
        0
    } else if value > extent - 1 {
        extent - 1
    } else {
        value
    }
}

/// Brings a pointer coordinate into a window side of `extent` pixels.
pub fn clamp_pointer(value: i32, extent: u32) -> (p: usize)
    requires
        extent > 0,
    ensures
        p == clamped(value as int, extent as int),
        p < extent,
{
    if value < 0 {
        0
    } else if value as u32 > extent - 1 {
        (extent - 1) as usize
    } else {
        value as usize
    }
}

/// A brush and the pixel the pointer was on in the last frame.
pub struct Painter {
    brush: Brush,
    last_pos: (usize, usize),
}

impl Painter {
    /// The kind the brush paints.
    pub closed spec fn spec_particle(&self) -> u8 {
        self.brush.particle()
    }

    /// The side of the brush, in cells.
    pub closed spec fn spec_size(&self) -> usize {
        self.brush.size()
    }

    /// The pixel the pointer was on in the last frame.
    pub closed spec fn spec_last_pos(&self) -> (usize, usize) {
        self.last_pos
    }

    /// The brush is valid and the last pixel is one a stroke can start from.
    pub open spec fn wf(&self) -> bool {
        &&& self.particle() <= WATER
        &&& BRUSH_MIN <= self.size() <= BRUSH_MAX
        &&& self.last_pos().0 <= COORD_MAX
        &&& self.last_pos().1 <= COORD_MAX
    }

    /// Half the side of the brush, in pixels, for cells of `particle_size`
    /// pixels.
    pub open spec fn reach(&self, particle_size: int) -> int {
        self.size() / 2 * particle_size
    }

    /// A painter with a new brush, the pointer in the corner of the window.
    pub fn new() -> (painter: Self)
        ensures
            painter.wf(),
            painter.particle() == SAND,
            painter.size() == BRUSH_START,
            painter.last_pos() == (0usize, 0usize),
    {
        Self { brush: Brush::new(), last_pos: (0, 0) }
    }

    /// The kind the brush paints.
    #[verifier::when_used_as_spec(spec_particle)]
    pub fn particle(&self) -> (particle: u8)
        ensures
            particle == self.particle(),
    {
        self.brush.particle()
    }

    /// The side of the brush, in cells.
    #[verifier::when_used_as_spec(spec_size)]
    pub fn size(&self) -> (size: usize)
        ensures
            size == self.size(),
    {
        self.brush.size()
    }

    /// The pixel the pointer was on in the last frame.
    #[verifier::when_used_as_spec(spec_last_pos)]
    pub fn last_pos(&self) -> (pos: (usize, usize))
        ensures
            pos == self.last_pos(),
    {
        self.last_pos
    }

    /// Turns the wheel by `delta` notches: the brush grows or shrinks.
    pub fn scroll(&mut self, delta: i32)
        requires
            old(self).wf(),
        ensures
            final(self).wf(),
            final(self).particle() == old(self).particle(),
            final(self).last_pos() == old(self).last_pos(),
            final(self).size() == scrolled(old(self).size() as int, delta as int),
    {
        self.brush.scroll(delta);
    }

    /// Takes note of the buttons: the brush takes the kind of the first
    /// button that is held, and the world stands still exactly while the
    /// third button alone is held. Tells whether a button is held.
    fn press(&mut self, handler: &mut ParticleHandler, left: bool, right: bool, middle: bool) -> (held:
        bool)
        requires
            old(self).wf(),
        ensures
            final(self).wf(),
            final(self).last_pos() == old(self).last_pos(),
            final(self).size() == old(self).size(),
            final(handler)@ == old(handler)@,
            final(handler).width() == old(handler).width(),
            final(handler).height() == old(handler).height(),
            final(handler).particle_size() == old(handler).particle_size(),
            final(handler).frozen() == pressed_freeze(left, right, middle),
            held == pressed_kind(left, right, middle).is_some(),
            match pressed_kind(left, right, middle) {
                Some(kind) => final(self).particle() == kind,
                None => final(self).particle() == old(self).particle(),
            },
    {
        handler.set_freeze(false);
        if left {
            self.brush.set_particle(SAND);
        } else if right {
            self.brush.set_particle(STONE);
        } else if middle {
            self.brush.set_particle(WATER);
            handler.set_freeze(true);
        } else {
            return false;
        }
        true
    }

    /// One frame of the pointer, now on pixel `(x, y)`. With a button held,
    /// the brush takes the kind of that button and paints the stroke from
    /// the last pixel to this one, in shades drawn at random; the world
    /// stands still exactly while the third button alone is held. With no
    /// button held nothing is painted. Either way the pixel is remembered
    /// for the next frame. Pixel coordinates go up to `COORD_MAX`.
    pub fn pointer(
        &mut self,
        handler: &mut ParticleHandler,
        x: usize,
        y: usize,
        left: bool,
        right: bool,
        middle: bool,
    )
        requires
            old(self).wf(),
            old(handler).wf(),
            x <= COORD_MAX,
            y <= COORD_MAX,
        ensures
            final(self).wf(),
            final(self).last_pos() == (x, y),
            final(self).size() == old(self).size(),
            final(handler).wf(),
            final(handler).width() == old(handler).width(),
            final(handler).height() == old(handler).height(),
            final(handler).particle_size() == old(handler).particle_size(),
            final(handler).frozen() == pressed_freeze(left, right, middle),
            match pressed_kind(left, right, middle) {
                Some(kind) => {
                    &&& final(self).particle() == kind
                    &&& painted(
                        old(handler)@,
                        final(handler)@,
                        kind,
                        old(handler).stroke(
                            old(self).last_pos().0 as int,
                            old(self).last_pos().1 as int,
                            x as int,
                            y as int,
                            old(self).size() as int,
                        ),
                    )
                },
                None => {
                    &&& final(self).particle() == old(self).particle()
                    &&& final(handler)@ == old(handler)@
                },
            },
    {
        if self.press(handler, left, right, middle) {
            handler.spawn_line(
                self.last_pos.0,
                self.last_pos.1,
                x,
                y,
                self.brush.particle(),
                self.brush.size(),
            );
        }
        self.last_pos = (x, y);
    }

    /// One frame of the pointer as `pointer` takes it, with the shades
    /// given: the new particle in the cell at index `i` gets the shade of
    /// number `picks[i]`, or the first shade where `picks` is too short.
    pub fn pointer_with(
        &mut self,
        handler: &mut ParticleHandler,
        x: usize,
        y: usize,
        left: bool,
        right: bool,
        middle: bool,
        picks: &Vec<usize>,
    )
        requires
            old(self).wf(),
            old(handler).wf(),
            x <= COORD_MAX,
            y <= COORD_MAX,
        ensures
            final(self).wf(),
            final(self).last_pos() == (x, y),
            final(self).size() == old(self).size(),
            final(handler).wf(),
            final(handler).width() == old(handler).width(),
            final(handler).height() == old(handler).height(),
            final(handler).particle_size() == old(handler).particle_size(),
            final(handler).frozen() == pressed_freeze(left, right, middle),
            match pressed_kind(left, right, middle) {
                Some(kind) => {
                    &&& final(self).particle() == kind
                    &&& final(handler)@ == paint(
                        old(handler)@,
                        kind,
                        old(handler).stroke(
                            old(self).last_pos().0 as int,
                            old(self).last_pos().1 as int,
                            x as int,
                            y as int,
                            old(self).size() as int,
                        ),
                        picks@,
                    )
                },
                None => {
                    &&& final(self).particle() == old(self).particle()
                    &&& final(handler)@ == old(handler)@
                },
            },
    {
        if self.press(handler, left, right, middle) {
            handler.spawn_line_with(
                self.last_pos.0,
                self.last_pos.1,
                x,
                y,
                self.brush.particle(),
                self.brush.size(),
                picks,
            );
        }
        self.last_pos = (x, y);
    }

    /// The square that shows the brush around the last pixel, for cells of
    /// `particle_size` pixels: the pixel column and row of its corner, which
    /// is the corner of a cell, and its side.
    pub fn indicator(&self, particle_size: usize) -> (square: (usize, usize, usize))
        requires
            self.wf(),
            particle_size > 0,
            self.reach(particle_size as int) <= self.last_pos().0,
            self.reach(particle_size as int) <= self.last_pos().1,
            self.reach(particle_size as int) * 2 <= usize::MAX,
        ensures
            square.0 == (self.last_pos().0 - self.reach(particle_size as int)) / (
            particle_size as int) * particle_size,
            square.1 == (self.last_pos().1 - self.reach(particle_size as int)) / (
            particle_size as int) * particle_size,
            square.2 == self.reach(particle_size as int) * 2,
    {
        let half: usize = self.brush.size() / 2 * particle_size;
        proof {
            let side = particle_size as int;
            assert(0 <= (self.last_pos.0 - half) / side * side <= self.last_pos.0 - half)
                by (nonlinear_arith)
                requires
                    0 <= self.last_pos.0 - half,
                    0 < side,
            ;
            assert(0 <= (self.last_pos.1 - half) / side * side <= self.last_pos.1 - half)
                by (nonlinear_arith)
                requires
                    0 <= self.last_pos.1 - half,
                    0 < side,
            ;
        }
        let x: usize = (self.last_pos.0 - half) / particle_size * particle_size;
        let y: usize = (self.last_pos.1 - half) / particle_size * particle_size;
        (x, y, half * 2)
    }
}

} // verus!
