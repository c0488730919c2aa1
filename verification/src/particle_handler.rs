//! The world: the cell buffer with its dimensions. The tick that moves the
//! particles, the stamps that place them and the picture that shows them
//! are in the modules below this one.

use vstd::prelude::*;
use crate::cell::{Cell, blank, blank_cell, valid_cell};
use crate::coords::{to_index, to_coord};
use crate::rules::grid_wf;

pub mod picture;
mod spawn;
mod tick;

verus! {

/// A grid of `width` by `height` cells in one row-major buffer, the size of a
/// cell in pixels, and the switch that suspends ticking.
pub struct ParticleHandler {
    collision: Vec<Cell>,
    width: usize,
    height: usize,
    particle_size: usize,
    freeze: bool,
}

/// The cells that fit into an extent take up no more than the extent.
proof fn lemma_whole_cells(extent: int, side: int)
    requires
        0 <= extent,
        0 < side,
    ensures
        0 <= (extent / side) * side <= extent,
{
    assert(0 <= (extent / side) * side <= extent) by (nonlinear_arith)
        requires
            0 <= extent,
            0 < side,
    ;
}

/// A buffer of `len` blank cells.
fn blank_cells(len: usize) -> (cells: Vec<Cell>)
    ensures
        cells@.len() == len,
        forall|i: int| 0 <= i < len ==> cells@[i] == blank(),
{
    let mut cells: Vec<Cell> = Vec::new();
    let mut i: usize = 0;
    while i < len
        invariant
            i <= len,
            cells@.len() == i,
            forall|k: int| 0 <= k < i ==> cells@[k] == blank(),
        decreases len - i,
    {
        cells.push(blank_cell());
        i += 1;
    }
    cells
}

impl View for ParticleHandler {
    type V = Seq<Cell>;

    /// The cells, row by row.
    closed spec fn view(&self) -> Seq<Cell> {
        self.collision@
    }
}

impl ParticleHandler {
    /// Number of columns.
    pub closed spec fn spec_width(&self) -> usize {
        self.width
    }

    /// Number of rows.
    pub closed spec fn spec_height(&self) -> usize {
        self.height
    }

    /// Side of a cell, in pixels.
    pub closed spec fn spec_particle_size(&self) -> usize {
        self.particle_size
    }

    /// Ticking is suspended.
    pub closed spec fn spec_frozen(&self) -> bool {
        self.freeze
    }

    /// The buffer is that of a `width` by `height` grid, cells have a size,
    /// and the grid in pixels is no larger than a window can be.
    pub open spec fn wf(&self) -> bool {
        &&& self.particle_size() > 0
        &&& self.width() * self.particle_size() <= u32::MAX
        &&& self.height() * self.particle_size() <= u32::MAX
        &&& self@.len() <= usize::MAX
        &&& grid_wf(self@, self.width() as nat, self.height() as nat)
    }

    /// The same dimensions, cell size and freeze switch as `other`.
    pub open spec fn same_frame(&self, other: Self) -> bool {
        &&& self.width() == other.width()
        &&& self.height() == other.height()
        &&& self.particle_size() == other.particle_size()
        &&& self.frozen() == other.frozen()
    }

    /// An empty world for a window of `res` pixels with cells of
    /// `particle_size` pixels. Pixels that do not fill a whole cell are left
    /// out of the grid.
    pub fn new(res: [u32; 2], particle_size: usize) -> (handler: Self)
        requires
            particle_size > 0,
            (res[0] as int / particle_size as int) * (res[1] as int / particle_size as int)
                <= usize::MAX,
        ensures
            handler.wf(),
            handler.width() == res[0] as int / particle_size as int,
            handler.height() == res[1] as int / particle_size as int,
            handler.particle_size() == particle_size,
            !handler.frozen(),
            forall|i: int| 0 <= i < handler@.len() ==> handler@[i] == blank(),
    {
        let width: usize = res[0] as usize / particle_size;
        let height: usize = res[1] as usize / particle_size;
        proof {
            lemma_whole_cells(res[0] as int, particle_size as int);
            lemma_whole_cells(res[1] as int, particle_size as int);
        }
        let collision: Vec<Cell> = blank_cells(width * height);
        Self { collision, width, height, particle_size, freeze: false }
    }

    /// Number of columns.
    #[verifier::when_used_as_spec(spec_width)]
    pub fn width(&self) -> (w: usize)
        ensures
            w == self.width(),
    {
        self.width
    }

    /// Number of rows.
    #[verifier::when_used_as_spec(spec_height)]
    pub fn height(&self) -> (h: usize)
        ensures
            h == self.height(),
    {
        self.height
    }

    /// Side of a cell, in pixels.
    #[verifier::when_used_as_spec(spec_particle_size)]
    pub fn particle_size(&self) -> (size: usize)
        ensures
            size == self.particle_size(),
    {
        self.particle_size
    }

    /// Ticking is suspended.
    #[verifier::when_used_as_spec(spec_frozen)]
    pub fn frozen(&self) -> (frozen: bool)
        ensures
            frozen == self.frozen(),
    {
        self.freeze
    }

    /// Suspends ticking, or resumes it. The cells are not touched.
    pub fn set_freeze(&mut self, freeze: bool)
        ensures
            final(self).frozen() == freeze,
            final(self)@ == old(self)@,
            final(self).width() == old(self).width(),
            final(self).height() == old(self).height(),
            final(self).particle_size() == old(self).particle_size(),
    {
        self.freeze = freeze;
    }

    /// Number of columns and number of rows.
    pub fn dimensions(&self) -> (dims: (usize, usize))
        ensures
            dims == (self.width(), self.height()),
    {
        (self.width, self.height)
    }

    /// All cells, row by row, for display.
    pub fn cells(&self) -> (cells: &Vec<Cell>)
        ensures
            cells@ == self@,
    {
        &self.collision
    }

    /// The cell at `index`.
    pub fn particle_at(&self, index: usize) -> (cell: Cell)
        requires
            index < self@.len(),
        ensures
            cell == self@[index as int],
    {
        self.collision[index]
    }

    /// Puts `cell` at `index`.
    pub fn set_particle(&mut self, index: usize, cell: Cell)
        requires
            old(self).wf(),
            index < old(self)@.len(),
            valid_cell(cell),
        ensures
            final(self).wf(),
            final(self).same_frame(*old(self)),
            final(self)@ == old(self)@.update(index as int, cell),
    {
        self.collision.set(index, cell);
    }

    /// Buffer index of the cell in column `x` of row `y`.
    pub fn c2i(&self, x: usize, y: usize) -> (index: usize)
        requires
            to_index(self.width() as int, x as int, y as int) <= usize::MAX,
        ensures
            index == to_index(self.width() as int, x as int, y as int),
    {
        y * self.width + x
    }

    /// Column and row of the cell at `index`.
    pub fn i2c(&self, index: usize) -> (coord: (usize, usize))
        requires
            self.width() > 0,
        ensures
            (coord.0 as int, coord.1 as int) == to_coord(self.width() as int, index as int),
    {
        (index % self.width, index / self.width)
    }

    /// Empties every cell.
    pub fn clear(&mut self)
        ensures
            final(self).same_frame(*old(self)),
            final(self)@.len() == old(self)@.len(),
            forall|i: int| 0 <= i < final(self)@.len() ==> final(self)@[i] == blank(),
            old(self).wf() ==> final(self).wf(),
    {
        self.collision = blank_cells(self.collision.len());
    }
}

} // verus!
