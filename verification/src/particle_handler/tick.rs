//! The tick: every particle moves by the rule of its kind, and the grid
//! that results replaces the old one as a whole.

use vstd::prelude::*;
use crate::cell::{Cell, blank, valid_cell, EMPTY, SAND, STONE, WATER};
use crate::coords::to_coord;
use crate::laws::{
    can_fall,
    only_stone,
    lemma_free_fall,
    lemma_mass_bound,
    lemma_rests_on_floor,
    lemma_stone_unmoved,
};
use crate::particle::{Particle, Sand, Stone, Water};
use crate::particle_handler::{blank_cells, ParticleHandler};
use crate::rules::{collision_free, count_nonempty, step, step_from, lemma_step_from_extend};

verus! {

impl ParticleHandler {
    /// The cells after a tick in which the particle at index `i` uses the
    /// coin `flips[i]`, or `false` where `flips` is too short.
    pub open spec fn ticked(&self, flips: Seq<bool>) -> Seq<Cell> {
        step(self@, self.width() as int, self.height() as int, flips)
    }

    /// With the coins `flips`, no two particles have the same target.
    pub open spec fn meets_none(&self, flips: Seq<bool>) -> bool {
        collision_free(self@, self.width() as int, self.height() as int, flips)
    }

    /// The cell at `index` holds a particle and lies on the bottom row.
    pub open spec fn on_floor(&self, index: int) -> bool {
        self@[index].0 != EMPTY && to_coord(self.width() as int, index).1 == self.height() - 1
    }

    /// The cell at `index` holds a grain, and the cell below it lies in the
    /// grid and is empty.
    pub open spec fn falls(&self, index: int) -> bool {
        can_fall(self@, self.width() as int, self.height() as int, index)
    }

    /// `after` is what a tick may make of this world: no particle more; a
    /// world of stone untouched; and, unless ticking is suspended, every
    /// particle on the bottom row where it was and every grain over an empty
    /// cell in that cell, the cell it left blank.
    pub open spec fn tick_laws(&self, after: Seq<Cell>) -> bool {
        &&& count_nonempty(after) <= count_nonempty(self@)
        &&& only_stone(self@) ==> after == self@
        &&& !self.frozen() ==> forall|i: int|
            0 <= i < self@.len() && self.on_floor(i) ==> #[trigger] after[i] == self@[i]
        &&& !self.frozen() ==> forall|i: int|
            0 <= i < self@.len() && #[trigger] self.falls(i) ==> after[i + self.width()]
                == self@[i] && after[i] == blank()
    }

    /// What holds of every tick holds of the tick with the coins `flips`.
    proof fn lemma_tick_laws(&self, flips: Seq<bool>)
        requires
            self.wf(),
        ensures
            self.tick_laws(self.ticked(flips)),
            self.meets_none(flips) ==> count_nonempty(self.ticked(flips)) == count_nonempty(self@),
    {
        let width = self.width() as nat;
        let height = self.height() as nat;
        let after = self.ticked(flips);
        lemma_mass_bound(self@, width, height, flips);
        if only_stone(self@) {
            lemma_stone_unmoved(self@, width, height, flips);
        }
        assert forall|i: int| 0 <= i < self@.len() && self.on_floor(i) implies #[trigger] after[i]
            == self@[i] by {
            lemma_rests_on_floor(self@, width, height, flips, i);
        }
        assert forall|i: int| 0 <= i < self@.len() && #[trigger] self.falls(i) implies after[i
            + self.width()] == self@[i] && after[i] == blank() by {
            lemma_free_fall(self@, width, height, flips, i);
        }
    }

    /// One tick. Unless ticking is suspended, every particle moves by the
    /// rule of its kind, each grain that has to choose a side drawing its own
    /// coin; the grid that results replaces the old one as a whole. Cells
    /// are visited from the last to the first, so that of two particles with
    /// the same target the one with the lower index is kept.
    pub fn update(&mut self)
        requires
            old(self).wf(),
        ensures
            final(self).wf(),
            final(self).same_frame(*old(self)),
            old(self).frozen() ==> final(self)@ == old(self)@,
            !old(self).frozen() ==> exists|flips: Seq<bool>|
                {
                    &&& final(self)@ == #[trigger] old(self).ticked(flips)
                    &&& old(self).meets_none(flips) ==> count_nonempty(final(self)@)
                        == count_nonempty(old(self)@)
                },
            old(self).tick_laws(final(self)@),
    {
        if self.freeze {
            return ;
        }
        let len: usize = self.collision.len();
        let mut new: Vec<Cell> = blank_cells(len);
        let ghost w = self.width() as int;
        let ghost h = self.height() as int;
        let ghost mut flips: Seq<bool> = Seq::new(len as nat, |i: int| false);
        let mut index: usize = len;
        assert(new@ =~= step_from(self@, w, h, flips, len as int));
        while index > 0
            invariant
                index <= len,
                len == self@.len(),
                self.wf(),
                w == self.width(),
                h == self.height(),
                flips.len() == len,
                new@.len() == len,
                new@ == step_from(self@, w, h, flips, index as int),
                forall|k: int| 0 <= k < len ==> valid_cell(#[trigger] new@[k]),
            decreases index,
        {
            index -= 1;
            let kind: u8 = self.collision[index].0;
            let ghost before = new@;
            let ghost coins = flips;
            if kind == SAND {
                Sand::update(&*self, &mut new, index);
                proof {
                    let coin = choose|flip: bool|
                        {
                            let dest = #[trigger] Sand::target(&*self, index as int, flip);
                            &&& 0 <= dest < len
                            &&& new@ == before.update(dest, self@[index as int])
                        };
                    flips = coins.update(index as int, coin);
                }
            } else if kind == STONE {
                Stone::update(&*self, &mut new, index);
            } else if kind == WATER {
                Water::update(&*self, &mut new, index);
                proof {
                    let coin = choose|flip: bool|
                        {
                            let dest = #[trigger] Water::target(&*self, index as int, flip);
                            &&& 0 <= dest < len
                            &&& new@ == before.update(dest, self@[index as int])
                        };
                    flips = coins.update(index as int, coin);
                }
            }
            proof {
                lemma_step_from_extend(self@, w as nat, h as nat, flips, coins, index as int);
            }
        }
        proof {
            self.lemma_tick_laws(flips);
            assert(new@ == self.ticked(flips));
        }
        self.collision = new;
    }

    /// One tick with the coins given: the grain at index `i` that has to
    /// choose a side uses `flips[i]`, or `false` where `flips` is too short.
    /// While ticking is suspended nothing changes.
    pub fn update_with(&mut self, flips: &Vec<bool>)
        requires
            old(self).wf(),
        ensures
            final(self).wf(),
            final(self).same_frame(*old(self)),
            old(self).frozen() ==> final(self)@ == old(self)@,
            !old(self).frozen() ==> final(self)@ == old(self).ticked(flips@),
            old(self).meets_none(flips@) ==> count_nonempty(final(self)@) == count_nonempty(
                old(self)@,
            ),
            old(self).tick_laws(final(self)@),
    {
        if self.freeze {
            return ;
        }
        let len: usize = self.collision.len();
        let mut new: Vec<Cell> = blank_cells(len);
        let ghost w = self.width() as int;
        let ghost h = self.height() as int;
        let mut index: usize = len;
        assert(new@ =~= step_from(self@, w, h, flips@, len as int));
        while index > 0
            invariant
                index <= len,
                len == self@.len(),
                self.wf(),
                w == self.width(),
                h == self.height(),
                new@.len() == len,
                new@ == step_from(self@, w, h, flips@, index as int),
                forall|k: int| 0 <= k < len ==> valid_cell(#[trigger] new@[k]),
            decreases index,
        {
            index -= 1;
            let cell: Cell = self.collision[index];
            let flip: bool = index < flips.len() && flips[index];
            if cell.0 == SAND {
                let dest: usize = Sand::destination(&*self, index, flip);
                new.set(dest, cell);
            } else if cell.0 == STONE {
                let dest: usize = Stone::destination(&*self, index, flip);
                new.set(dest, cell);
            } else if cell.0 == WATER {
                let dest: usize = Water::destination(&*self, index, flip);
                new.set(dest, cell);
            }
            proof {
                lemma_step_from_extend(self@, w as nat, h as nat, flips@, flips@, index as int);
            }
        }
        proof {
            self.lemma_tick_laws(flips@);
        }
        self.collision = new;
    }
}

} // verus!
