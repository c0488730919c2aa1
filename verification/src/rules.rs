//! What one tick does, as mathematics: where each kind of particle goes, and
//! the grid that results when every particle has moved.
//!
//! A tick reads only the grid as it stood before the tick. Each particle has
//! one target cell. Where two particles have the same target, the one with the
//! lower buffer index is kept and the other is lost: cells are visited from
//! the last index down to the first, and the later write replaces the earlier.

use vstd::prelude::*;
use crate::cell::{Cell, blank, valid_cell, EMPTY, SAND, WATER};
use crate::coords::{to_index, to_coord, lemma_index_round_trip, lemma_coord_round_trip};

verus! {

/// `cells` is the buffer of a `width` by `height` grid: one valid cell for
/// each coordinate pair.
pub open spec fn grid_wf(cells: Seq<Cell>, width: nat, height: nat) -> bool {
    &&& cells.len() == width * height
    &&& forall|i: int| 0 <= i < cells.len() ==> valid_cell(#[trigger] cells[i])
}

/// The cell in column `x` of row `y` holds no particle.
pub open spec fn vacant(cells: Seq<Cell>, width: int, x: int, y: int) -> bool {
    cells[to_index(width, x, y)].0 == EMPTY
}

/// A particle in row `y` can slide down into column `x`: the column lies in
/// the grid, and both the cell beside the particle and the cell below that
/// one are empty.
pub open spec fn diagonal_open(cells: Seq<Cell>, width: int, x: int, y: int) -> bool {
    0 <= x < width && vacant(cells, width, x, y) && vacant(cells, width, x, y + 1)
}

/// The grain at `index` is above the bottom row and the cell below it holds
/// a particle: it has to choose a side, and its target depends on its coin.
pub open spec fn blocked(cells: Seq<Cell>, width: int, height: int, index: int) -> bool {
    let (x, y) = to_coord(width, index);
    y + 1 < height && !vacant(cells, width, x, y + 1)
}

/// Target of a grain at `index`: it stays on the bottom row; else it falls
/// into an empty cell below; else it slides diagonally down, trying first the
/// side the coin chose (`flip` chooses the right, otherwise the left) and
/// after it the other side; else it rests.
pub open spec fn granular_target(
    cells: Seq<Cell>,
    width: int,
    height: int,
    index: int,
    flip: bool,
) -> int {
    let (x, y) = to_coord(width, index);
    let dir = if flip {
        -1int
    } else {
        1int
    };
    if y + 1 >= height {
        index
    } else if vacant(cells, width, x, y + 1) {
        to_index(width, x, y + 1)
    } else if diagonal_open(cells, width, x - dir, y) {
        to_index(width, x - dir, y + 1)
    } else if diagonal_open(cells, width, x + dir, y) {
        to_index(width, x + dir, y + 1)
    } else {
        index
    }
}

/// Target of whatever the cell at `index` holds: sand and water move as
/// grains, anything else keeps its place.
pub open spec fn target_of(
    cells: Seq<Cell>,
    width: int,
    height: int,
    index: int,
    flip: bool,
) -> int {
    if cells[index].0 == SAND || cells[index].0 == WATER {
        granular_target(cells, width, height, index, flip)
    } else {
        index
    }
}

/// The coin of the cell at `index`; cells past the end of `flips` get `false`.
pub open spec fn flip_at(flips: Seq<bool>, index: int) -> bool {
    0 <= index < flips.len() && flips[index]
}

/// The cell at `source` holds a particle whose target is `dest`.
pub open spec fn sends(
    cells: Seq<Cell>,
    width: int,
    height: int,
    flips: Seq<bool>,
    source: int,
    dest: int,
) -> bool {
    cells[source].0 != EMPTY && target_of(cells, width, height, source, flip_at(flips, source))
        == dest
}

/// The lowest index at or above `from` whose particle has target `dest`, or
/// the length of the buffer if there is none.
pub open spec fn first_source(
    cells: Seq<Cell>,
    width: int,
    height: int,
    flips: Seq<bool>,
    dest: int,
    from: int,
) -> int
    decreases cells.len() - from,
{
    if from >= cells.len() {
        cells.len() as int
    } else if sends(cells, width, height, flips, from, dest) {
        from
    } else {
        first_source(cells, width, height, flips, dest, from + 1)
    }
}

/// The grid after the particles at indices `from` and above have moved, and
/// no others.
pub open spec fn step_from(
    cells: Seq<Cell>,
    width: int,
    height: int,
    flips: Seq<bool>,
    from: int,
) -> Seq<Cell> {
    Seq::new(
        cells.len(),
        |dest: int|
            {
                let source = first_source(cells, width, height, flips, dest, from);
                if source < cells.len() {
                    cells[source]
                } else {
                    blank()
                }
            },
    )
}

/// The grid after one tick in which the particle at index `i` uses the coin
/// `flip_at(flips, i)`.
pub open spec fn step(cells: Seq<Cell>, width: int, height: int, flips: Seq<bool>) -> Seq<Cell> {
    step_from(cells, width, height, flips, 0)
}

/// Number of cells at indices `from` and above that hold a particle.
pub open spec fn count_from(cells: Seq<Cell>, from: int) -> nat
    decreases cells.len() - from,
{
    if from >= cells.len() {
        0
    } else if cells[from].0 != EMPTY {
        1 + count_from(cells, from + 1)
    } else {
        count_from(cells, from + 1)
    }
}

/// Number of cells that hold a particle.
pub open spec fn count_nonempty(cells: Seq<Cell>) -> nat {
    count_from(cells, 0)
}

/// No two particles have the same target in this tick.
pub open spec fn collision_free(
    cells: Seq<Cell>,
    width: int,
    height: int,
    flips: Seq<bool>,
) -> bool {
    forall|a: int, b: int|
        #![trigger cells[a], cells[b]]
        0 <= a < b < cells.len() && cells[a].0 != EMPTY && cells[b].0 != EMPTY ==> target_of(
            cells,
            width,
            height,
            a,
            flip_at(flips, a),
        ) != target_of(cells, width, height, b, flip_at(flips, b))
}

/// The target of a grain lies in the grid.
pub proof fn lemma_granular_target_in_grid(
    cells: Seq<Cell>,
    width: nat,
    height: nat,
    index: int,
    flip: bool,
)
    requires
        cells.len() == width * height,
        0 <= index < cells.len(),
    ensures
        0 <= granular_target(cells, width as int, height as int, index, flip) < cells.len(),
{
    let w = width as int;
    let h = height as int;
    lemma_index_round_trip(width, height, index);
    let (x, y) = to_coord(w, index);
    let dir = if flip {
        -1int
    } else {
        1int
    };
    if y + 1 < h {
        lemma_coord_round_trip(width, height, x, y + 1);
        if 0 <= x - dir < w {
            lemma_coord_round_trip(width, height, x - dir, y + 1);
        }
        if 0 <= x + dir < w {
            lemma_coord_round_trip(width, height, x + dir, y + 1);
        }
    }
}

/// The target of any cell lies in the grid.
pub proof fn lemma_target_in_grid(
    cells: Seq<Cell>,
    width: nat,
    height: nat,
    index: int,
    flip: bool,
)
    requires
        cells.len() == width * height,
        0 <= index < cells.len(),
    ensures
        0 <= target_of(cells, width as int, height as int, index, flip) < cells.len(),
{
    lemma_granular_target_in_grid(cells, width, height, index, flip);
}

/// The first source at or above `from` is never below `from`, and where it
/// lies in the buffer it is a source.
pub proof fn lemma_first_source_bounds(
    cells: Seq<Cell>,
    width: int,
    height: int,
    flips: Seq<bool>,
    dest: int,
    from: int,
)
    requires
        0 <= from <= cells.len(),
    ensures
        from <= first_source(cells, width, height, flips, dest, from) <= cells.len(),
        first_source(cells, width, height, flips, dest, from) < cells.len() ==> sends(
            cells,
            width,
            height,
            flips,
            first_source(cells, width, height, flips, dest, from),
            dest,
        ),
    decreases cells.len() - from,
{
    if from < cells.len() && !sends(cells, width, height, flips, from, dest) {
        lemma_first_source_bounds(cells, width, height, flips, dest, from + 1);
    }
}

/// The first source at or above `from` depends only on the coins of the
/// cells at or above `from`.
pub proof fn lemma_first_source_frame(
    cells: Seq<Cell>,
    width: int,
    height: int,
    flips: Seq<bool>,
    other: Seq<bool>,
    dest: int,
    from: int,
)
    requires
        0 <= from <= cells.len(),
        forall|k: int| from <= k < cells.len() ==> flip_at(flips, k) == flip_at(other, k),
    ensures
        first_source(cells, width, height, flips, dest, from) == first_source(
            cells,
            width,
            height,
            other,
            dest,
            from,
        ),
    decreases cells.len() - from,
{
    if from < cells.len() {
        assert(flip_at(flips, from) == flip_at(other, from));
        lemma_first_source_frame(cells, width, height, flips, other, dest, from + 1);
    }
}

/// Moving the particle at `from` as well writes its cell over its target
/// and leaves every other cell as it was. A cell without a particle changes
/// nothing. Coins of cells below `from` play no part.
pub proof fn lemma_step_from_extend(
    cells: Seq<Cell>,
    width: nat,
    height: nat,
    flips: Seq<bool>,
    other: Seq<bool>,
    from: int,
)
    requires
        cells.len() == width * height,
        0 <= from < cells.len(),
        forall|k: int| from < k < cells.len() ==> flip_at(flips, k) == flip_at(other, k),
    ensures
        cells[from].0 != EMPTY ==> step_from(cells, width as int, height as int, flips, from)
            == step_from(cells, width as int, height as int, other, from + 1).update(
            target_of(cells, width as int, height as int, from, flip_at(flips, from)),
            cells[from],
        ),
        cells[from].0 == EMPTY ==> step_from(cells, width as int, height as int, flips, from)
            == step_from(cells, width as int, height as int, other, from + 1),
{
    let w = width as int;
    let h = height as int;
    let target = target_of(cells, w, h, from, flip_at(flips, from));
    lemma_target_in_grid(cells, width, height, from, flip_at(flips, from));
    let before = step_from(cells, w, h, other, from + 1);
    let after = step_from(cells, w, h, flips, from);
    assert forall|dest: int| 0 <= dest < cells.len() implies #[trigger] after[dest] == (if cells[from].0
        != EMPTY && dest == target {
        cells[from]
    } else {
        before[dest]
    }) by {
        lemma_first_source_frame(cells, w, h, flips, other, dest, from + 1);
    }
    if cells[from].0 != EMPTY {
        assert(after =~= before.update(target, cells[from]));
    } else {
        assert(after =~= before);
    }
}

} // verus!
