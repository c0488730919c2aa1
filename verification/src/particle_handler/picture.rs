//! The picture of the world: one square for each particle.

use vstd::prelude::*;
use crate::cell::{Cell, Color, EMPTY};
use crate::coords::{to_coord, lemma_index_round_trip};
use crate::particle_handler::ParticleHandler;

verus! {

/// A square of the picture: pixel column and row of its corner, its side in
/// pixels, and its color.
pub struct Square {
    pub x: usize,
    pub y: usize,
    pub side: usize,
    pub color: Color,
}

/// The square that shows the cell at `index`, in the color `color`, for
/// cells of `side` pixels.
pub open spec fn cell_square(width: int, side: int, index: int, color: Color) -> Square {
    Square {
        x: (to_coord(width, index).0 * side) as usize,
        y: (to_coord(width, index).1 * side) as usize,
        side: side as usize,
        color,
    }
}

/// The squares that show the particles among the first `count` cells, in
/// the order of their indices.
pub open spec fn squares_upto(cells: Seq<Cell>, width: int, side: int, count: int) -> Seq<Square>
    decreases count,
{
    if count <= 0 {
        Seq::empty()
    } else if cells[count - 1].0 != EMPTY {
        squares_upto(cells, width, side, count - 1).push(
            cell_square(width, side, count - 1, cells[count - 1].1),
        )
    } else {
        squares_upto(cells, width, side, count - 1)
    }
}

impl ParticleHandler {
    /// The squares that show the world.
    pub open spec fn picture(&self) -> Seq<Square> {
        squares_upto(
            self@,
            self.width() as int,
            self.particle_size() as int,
            self@.len() as int,
        )
    }

    /// The picture of the world: one square for each particle, in the order
    /// of the cells, each as large as a cell and in the color of its
    /// particle. Empty cells are not drawn. Every square lies in the part of
    /// the window that the grid takes up.
    pub fn draw(&self) -> (squares: Vec<Square>)
        requires
            self.wf(),
        ensures
            squares@ == self.picture(),
            forall|k: int|
                0 <= k < squares@.len() ==> {
                    &&& (#[trigger] squares@[k]).side == self.particle_size()
                    &&& squares@[k].x + squares@[k].side <= self.width() * self.particle_size()
                    &&& squares@[k].y + squares@[k].side <= self.height() * self.particle_size()
                },
    {
        let mut squares: Vec<Square> = Vec::new();
        let len: usize = self.collision.len();
        let ghost w = self.width as int;
        let ghost h = self.height as int;
        let ghost side = self.particle_size as int;
        let mut i: usize = 0;
        while i < len
            invariant
                self.wf(),
                i <= len,
                len == self@.len(),
                w == self.width(),
                h == self.height(),
                side == self.particle_size(),
                squares@ == squares_upto(self@, w, side, i as int),
                forall|k: int|
                    0 <= k < squares@.len() ==> {
                        &&& (#[trigger] squares@[k]).side == side
                        &&& squares@[k].x + side <= w * side
                        &&& squares@[k].y + side <= h * side
                    },
            decreases len - i,
        {
            let cell: Cell = self.collision[i];
            if cell.0 != EMPTY {
                let (x, y) = self.i2c(i);
                proof {
                    lemma_index_round_trip(w as nat, h as nat, i as int);
                    assert(x * side + side <= w * side && y * side + side <= h * side)
                        by (nonlinear_arith)
                        requires
                            0 <= x < w,
                            0 <= y < h,
                            0 < side,
                    ;
                }
                squares.push(
                    Square {
                        x: x * self.particle_size,
                        y: y * self.particle_size,
                        side: self.particle_size,
                        color: cell.1,
                    },
                );
            }
            i += 1;
        }
        squares
    }
}

} // verus!
