//! What holds of every tick, whatever the coins: no particle is created,
//! stone stays, a particle on the floor stays, and a grain over an empty
//! cell falls into it.

use vstd::prelude::*;
use crate::cell::{Cell, blank, EMPTY, SAND, STONE, WATER};
use crate::coords::{to_index, to_coord, lemma_index_round_trip, lemma_coord_round_trip};
use crate::rules::{
    grid_wf,
    vacant,
    target_of,
    flip_at,
    sends,
    first_source,
    step_from,
    step,
    count_from,
    count_nonempty,
    collision_free,
    lemma_target_in_grid,
    lemma_first_source_bounds,
    lemma_step_from_extend,
};

verus! {

/// A particle that leaves its cell moves into a cell that was empty.
pub proof fn lemma_moves_into_empty(
    cells: Seq<Cell>,
    width: int,
    height: int,
    index: int,
    flip: bool,
)
    ensures
        target_of(cells, width, height, index, flip) == index || cells[target_of(
            cells,
            width,
            height,
            index,
            flip,
        )].0 == EMPTY,
{
}

/// Where no cell at or above `from` sends a particle to `dest`, there is no
/// first source.
proof fn lemma_no_source(
    cells: Seq<Cell>,
    width: int,
    height: int,
    flips: Seq<bool>,
    dest: int,
    from: int,
)
    requires
        0 <= from <= cells.len(),
        forall|k: int| from <= k < cells.len() ==> !sends(cells, width, height, flips, k, dest),
    ensures
        first_source(cells, width, height, flips, dest, from) == cells.len(),
    decreases cells.len() - from,
{
    if from < cells.len() {
        lemma_no_source(cells, width, height, flips, dest, from + 1);
    }
}

/// Where `source` is the only cell at or above `from` that sends a particle
/// to `dest`, it is the first source.
proof fn lemma_only_source(
    cells: Seq<Cell>,
    width: int,
    height: int,
    flips: Seq<bool>,
    dest: int,
    source: int,
    from: int,
)
    requires
        0 <= from <= source < cells.len(),
        sends(cells, width, height, flips, source, dest),
        forall|k: int|
            from <= k < cells.len() && k != source ==> !sends(cells, width, height, flips, k, dest),
    ensures
        first_source(cells, width, height, flips, dest, from) == source,
    decreases source - from,
{
    if from < source {
        lemma_only_source(cells, width, height, flips, dest, source, from + 1);
    }
}

/// The cell at `index` holds a particle that this tick leaves where it is.
pub open spec fn rests(
    cells: Seq<Cell>,
    width: int,
    height: int,
    flips: Seq<bool>,
    index: int,
) -> bool {
    sends(cells, width, height, flips, index, index)
}

/// A particle whose target is its own cell is found there after the tick,
/// with its color.
pub proof fn lemma_resting_particle_stays(
    cells: Seq<Cell>,
    width: nat,
    height: nat,
    flips: Seq<bool>,
    index: int,
)
    requires
        grid_wf(cells, width, height),
        0 <= index < cells.len(),
        rests(cells, width as int, height as int, flips, index),
    ensures
        step(cells, width as int, height as int, flips)[index] == cells[index],
{
    let w = width as int;
    let h = height as int;
    assert forall|k: int| 0 <= k < cells.len() && k != index implies !sends(
        cells,
        w,
        h,
        flips,
        k,
        index,
    ) by {
        lemma_moves_into_empty(cells, w, h, k, flip_at(flips, k));
    }
    lemma_only_source(cells, w, h, flips, index, index, 0);
}

/// A particle on the bottom row is found at the same index after the tick,
/// with its color.
pub proof fn lemma_rests_on_floor(
    cells: Seq<Cell>,
    width: nat,
    height: nat,
    flips: Seq<bool>,
    index: int,
)
    requires
        grid_wf(cells, width, height),
        0 <= index < cells.len(),
        cells[index].0 != EMPTY,
        to_coord(width as int, index).1 == height - 1,
    ensures
        step(cells, width as int, height as int, flips)[index] == cells[index],
{
    lemma_resting_particle_stays(cells, width, height, flips, index);
}

/// The cell at `index` holds a grain, and the cell below it lies in the grid
/// and is empty.
pub open spec fn can_fall(cells: Seq<Cell>, width: int, height: int, index: int) -> bool {
    &&& cells[index].0 == SAND || cells[index].0 == WATER
    &&& to_coord(width, index).1 + 1 < height
    &&& vacant(cells, width, to_coord(width, index).0, to_coord(width, index).1 + 1)
}

/// A grain over an empty cell is found in that cell after the tick, with its
/// color, and the cell it left is blank.
pub proof fn lemma_free_fall(
    cells: Seq<Cell>,
    width: nat,
    height: nat,
    flips: Seq<bool>,
    index: int,
)
    requires
        grid_wf(cells, width, height),
        0 <= index < cells.len(),
        can_fall(cells, width as int, height as int, index),
    ensures
        to_index(width as int, to_coord(width as int, index).0, to_coord(width as int, index).1 + 1)
            == index + width,
        index + width < cells.len(),
        step(cells, width as int, height as int, flips)[index + width] == cells[index],
        step(cells, width as int, height as int, flips)[index] == blank(),
{
    let w = width as int;
    let h = height as int;
    let (x, y) = to_coord(w, index);
    lemma_index_round_trip(width, height, index);
    lemma_coord_round_trip(width, height, x, y + 1);
    let below = to_index(w, x, y + 1);
    assert(below == index + w) by (nonlinear_arith)
        requires
            below == (y + 1) * w + x,
            index == y * w + x,
    ;
    assert forall|k: int| 0 <= k < cells.len() && k != index implies !sends(
        cells,
        w,
        h,
        flips,
        k,
        below,
    ) by {
        if sends(cells, w, h, flips, k, below) {
            // Only the cell above `below` can send a particle there: a
            // diagonal move needs that cell to be empty.
            let (kx, ky) = to_coord(w, k);
            let dir = if flip_at(flips, k) {
                -1int
            } else {
                1int
            };
            lemma_index_round_trip(width, height, k);
            if ky + 1 < h {
                lemma_coord_round_trip(width, height, kx, ky + 1);
                if 0 <= kx - dir < w {
                    lemma_coord_round_trip(width, height, kx - dir, ky + 1);
                    lemma_coord_round_trip(width, height, kx - dir, ky);
                }
                if 0 <= kx + dir < w {
                    lemma_coord_round_trip(width, height, kx + dir, ky + 1);
                    lemma_coord_round_trip(width, height, kx + dir, ky);
                }
            }
            assert(false);
        }
    }
    lemma_only_source(cells, w, h, flips, below, index, 0);
    assert forall|k: int| 0 <= k < cells.len() implies !sends(cells, w, h, flips, k, index) by {
        lemma_moves_into_empty(cells, w, h, k, flip_at(flips, k));
    }
    lemma_no_source(cells, w, h, flips, index, 0);
}

/// Every particle in the grid is stone.
pub open spec fn only_stone(cells: Seq<Cell>) -> bool {
    forall|i: int| 0 <= i < cells.len() ==> (#[trigger] cells[i]).0 == EMPTY || cells[i].0 == STONE
}

/// A grid whose particles are all stone is the same after a tick, cell for
/// cell, kind and color.
pub proof fn lemma_stone_unmoved(cells: Seq<Cell>, width: nat, height: nat, flips: Seq<bool>)
    requires
        grid_wf(cells, width, height),
        only_stone(cells),
    ensures
        step(cells, width as int, height as int, flips) == cells,
{
    let w = width as int;
    let h = height as int;
    let after = step(cells, w, h, flips);
    assert forall|d: int| 0 <= d < cells.len() implies after[d] == cells[d] by {
        if cells[d].0 == EMPTY {
            assert forall|k: int| 0 <= k < cells.len() implies !sends(cells, w, h, flips, k, d) by {
                assert(cells[k].0 == EMPTY || cells[k].0 == STONE);
            }
            lemma_no_source(cells, w, h, flips, d, 0);
        } else {
            lemma_resting_particle_stays(cells, width, height, flips, d);
        }
    }
    assert(after =~= cells);
}

/// The grid after one tick for each entry of `rounds`, in order, the entry
/// holding the coins of that tick.
pub open spec fn run(cells: Seq<Cell>, width: int, height: int, rounds: Seq<Seq<bool>>) -> Seq<
    Cell,
>
    decreases rounds.len(),
{
    if rounds.len() == 0 {
        cells
    } else {
        step(run(cells, width, height, rounds.drop_last()), width, height, rounds.last())
    }
}

/// A grid whose particles are all stone is the same after any number of
/// ticks.
pub proof fn lemma_stone_never_moves(
    cells: Seq<Cell>,
    width: nat,
    height: nat,
    rounds: Seq<Seq<bool>>,
)
    requires
        grid_wf(cells, width, height),
        only_stone(cells),
    ensures
        run(cells, width as int, height as int, rounds) == cells,
    decreases rounds.len(),
{
    if rounds.len() > 0 {
        lemma_stone_never_moves(cells, width, height, rounds.drop_last());
        lemma_stone_unmoved(cells, width, height, rounds.last());
    }
}

/// A buffer of blank cells holds no particle.
proof fn lemma_count_blank(cells: Seq<Cell>, from: int)
    requires
        0 <= from <= cells.len(),
        forall|i: int| from <= i < cells.len() ==> cells[i].0 == EMPTY,
    ensures
        count_from(cells, from) == 0,
    decreases cells.len() - from,
{
    if from < cells.len() {
        lemma_count_blank(cells, from + 1);
    }
}

/// Writing a cell changes the count by what the written cell adds and what
/// the cell it replaces took with it.
proof fn lemma_count_update(cells: Seq<Cell>, index: int, cell: Cell, from: int)
    requires
        0 <= from <= cells.len(),
        0 <= index < cells.len(),
    ensures
        count_from(cells.update(index, cell), from) == count_from(cells, from) + (if index
            >= from {
            (if cell.0 != EMPTY {
                1int
            } else {
                0int
            }) - (if cells[index].0 != EMPTY {
                1int
            } else {
                0int
            })
        } else {
            0int
        }),
    decreases cells.len() - from,
{
    if from < cells.len() {
        lemma_count_update(cells, index, cell, from + 1);
    }
}

/// The particles that have moved are no more than the particles they were,
/// and as many where no two of them had the same target.
proof fn lemma_mass_from(cells: Seq<Cell>, width: nat, height: nat, flips: Seq<bool>, from: int)
    requires
        grid_wf(cells, width, height),
        0 <= from <= cells.len(),
    ensures
        count_nonempty(step_from(cells, width as int, height as int, flips, from)) <= count_from(
            cells,
            from,
        ),
        collision_free(cells, width as int, height as int, flips) ==> count_nonempty(
            step_from(cells, width as int, height as int, flips, from),
        ) == count_from(cells, from),
    decreases cells.len() - from,
{
    let w = width as int;
    let h = height as int;
    let after = step_from(cells, w, h, flips, from);
    if from == cells.len() {
        assert forall|d: int| 0 <= d < after.len() implies after[d].0 == EMPTY by {}
        lemma_count_blank(after, 0);
    } else {
        let before = step_from(cells, w, h, flips, from + 1);
        lemma_mass_from(cells, width, height, flips, from + 1);
        lemma_step_from_extend(cells, width, height, flips, flips, from);
        if cells[from].0 != EMPTY {
            let target = target_of(cells, w, h, from, flip_at(flips, from));
            lemma_target_in_grid(cells, width, height, from, flip_at(flips, from));
            lemma_count_update(before, target, cells[from], 0);
            if collision_free(cells, w, h, flips) {
                let source = first_source(cells, w, h, flips, target, from + 1);
                lemma_first_source_bounds(cells, w, h, flips, target, from + 1);
                if source < cells.len() {
                    assert(cells[from].0 != EMPTY && cells[source].0 != EMPTY);
                    assert(false);
                }
                assert(before[target] == blank());
            }
        }
    }
}

/// A tick creates no particle: the grid after it holds no more particles
/// than the grid before. It holds as many where no two particles had the
/// same target.
pub proof fn lemma_mass_bound(cells: Seq<Cell>, width: nat, height: nat, flips: Seq<bool>)
    requires
        grid_wf(cells, width, height),
    ensures
        count_nonempty(step(cells, width as int, height as int, flips)) <= count_nonempty(cells),
        collision_free(cells, width as int, height as int, flips) ==> count_nonempty(
            step(cells, width as int, height as int, flips),
        ) == count_nonempty(cells),
{
    lemma_mass_from(cells, width, height, flips, 0);
}

/// A tick keeps the grid a grid: the same number of cells, each valid.
pub proof fn lemma_step_wf(cells: Seq<Cell>, width: nat, height: nat, flips: Seq<bool>)
    requires
        grid_wf(cells, width, height),
    ensures
        grid_wf(step(cells, width as int, height as int, flips), width, height),
{
    let w = width as int;
    let h = height as int;
    let after = step(cells, w, h, flips);
    assert forall|d: int| 0 <= d < after.len() implies crate::cell::valid_cell(
        #[trigger] after[d],
    ) by {
        lemma_first_source_bounds(cells, w, h, flips, d, 0);
    }
}

} // verus!
