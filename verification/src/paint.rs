//! What painting does, as mathematics: the cells a brush stamp covers, and
//! how a grid changes when a region is painted with one kind.

use vstd::prelude::*;
use crate::cell::{Cell, is_shade, palette};
use crate::coords::{in_grid, to_coord, to_index, lemma_coord_round_trip};
use crate::stroke::{distance, lerp, lemma_lerp_ends};

verus! {

/// Column `cx`, row `cy` lies under a stamp of side `size` put down on the
/// cell `(gx, gy)`. The stamp starts `size / 2` cells before that cell on
/// each axis, so one of even side reaches one cell further toward the low
/// coordinates than toward the high ones.
pub open spec fn in_stamp(gx: int, gy: int, size: int, cx: int, cy: int) -> bool {
    &&& gx - size / 2 <= cx < gx - size / 2 + size
    &&& gy - size / 2 <= cy < gy - size / 2 + size
}

/// Indices of the cells of the grid that lie under the stamp. Cells of the
/// stamp outside the grid, on either axis, are not part of it.
pub open spec fn stamp_region(width: int, height: int, gx: int, gy: int, size: int) -> Set<int> {
    Set::new(
        |i: int|
            0 <= i < width * height && in_stamp(
                gx,
                gy,
                size,
                to_coord(width, i).0,
                to_coord(width, i).1,
            ),
    )
}

/// Indices of the cells in columns `x0` up to but not `x1` and rows `y0` up
/// to but not `y1`.
pub open spec fn block(width: int, len: int, x0: int, x1: int, y0: int, y1: int) -> Set<int> {
    Set::new(
        |i: int|
            0 <= i < len && x0 <= to_coord(width, i).0 < x1 && y0 <= to_coord(width, i).1 < y1,
    )
}

/// Pixel number `k` of the stroke from `(x1, y1)` to `(x2, y2)`. A stroke of
/// rounded length `d` has the pixels `0` to `d - 1`, spread evenly from the
/// first end to the second.
pub open spec fn line_point(x1: int, y1: int, x2: int, y2: int, k: int) -> (int, int) {
    let last = distance(x1, y1, x2, y2) - 1;
    (lerp(x1, x2, k, last), lerp(y1, y2, k, last))
}

/// Indices of the cells under the stamps put down on the first `count`
/// pixels of the stroke. `cell` is the side of a cell in pixels.
pub open spec fn stamps_upto(
    width: int,
    height: int,
    cell: int,
    x1: int,
    y1: int,
    x2: int,
    y2: int,
    size: int,
    count: int,
) -> Set<int>
    decreases count,
{
    if count <= 0 {
        Set::empty()
    } else {
        let p = line_point(x1, y1, x2, y2, count - 1);
        stamps_upto(width, height, cell, x1, y1, x2, y2, size, count - 1) + stamp_region(
            width,
            height,
            p.0 / cell,
            p.1 / cell,
            size,
        )
    }
}

/// Indices of the cells a stroke covers: those under a stamp on its first
/// pixel and, where the stroke is at least two pixels long, those under a
/// stamp on each of its pixels.
pub open spec fn line_region(
    width: int,
    height: int,
    cell: int,
    x1: int,
    y1: int,
    x2: int,
    y2: int,
    size: int,
) -> Set<int> {
    let d = distance(x1, y1, x2, y2);
    stamp_region(width, height, x1 / cell, y1 / cell, size) + (if d < 2 {
        Set::empty()
    } else {
        stamps_upto(width, height, cell, x1, y1, x2, y2, size, d)
    })
}

/// `cell` is a freshly placed particle of `kind`: the kind, in one of its
/// shades.
pub open spec fn fresh(kind: u8, cell: Cell) -> bool {
    cell.0 == kind && is_shade(kind, cell.1)
}

/// `after` is `before` with `region` painted in `kind`: each cell of the
/// region that held another kind now holds a fresh particle of `kind`; cells
/// that held `kind` already keep their color, and cells outside the region
/// are as they were.
pub open spec fn painted(before: Seq<Cell>, after: Seq<Cell>, kind: u8, region: Set<int>) -> bool {
    &&& after.len() == before.len()
    &&& forall|i: int|
        0 <= i < before.len() ==> if region.contains(i) && before[i].0 != kind {
            fresh(kind, #[trigger] after[i])
        } else {
            after[i] == before[i]
        }
}

/// The shade number of the cell at `index`; cells past the end of `picks`
/// get the first shade.
pub open spec fn pick_at(picks: Seq<usize>, index: int) -> int {
    if 0 <= index < picks.len() {
        picks[index] as int
    } else {
        0
    }
}

/// `cells` with `region` painted in `kind`, the new particle at index `i` in
/// the shade of number `pick_at(picks, i)`.
pub open spec fn paint(cells: Seq<Cell>, kind: u8, region: Set<int>, picks: Seq<usize>) -> Seq<
    Cell,
> {
    Seq::new(
        cells.len(),
        |i: int|
            if region.contains(i) && cells[i].0 != kind {
                (kind, palette(kind, pick_at(picks, i)))
            } else {
                cells[i]
            },
    )
}

/// Every shade number names a shade of the kind.
pub proof fn lemma_palette_is_shade(kind: u8, pick: int)
    ensures
        is_shade(kind, palette(kind, pick)),
{
    if pick == 0 {
        assert(palette(kind, pick) == palette(kind, 0));
    } else if pick == 1 {
        assert(palette(kind, pick) == palette(kind, 1));
    } else {
        assert(palette(kind, pick) == palette(kind, 2));
    }
}

/// Painting with given shade numbers is painting.
pub proof fn lemma_paint_is_painted(cells: Seq<Cell>, kind: u8, region: Set<int>, picks: Seq<usize>)
    ensures
        painted(cells, paint(cells, kind, region, picks), kind, region),
{
    let after = paint(cells, kind, region, picks);
    assert forall|i: int| 0 <= i < cells.len() implies if region.contains(i) && cells[i].0
        != kind {
        fresh(kind, #[trigger] after[i])
    } else {
        after[i] == cells[i]
    } by {
        lemma_palette_is_shade(kind, pick_at(picks, i));
    }
}

/// Painting one region and after it another, in the same kind and with the
/// same shade numbers, paints their union.
pub proof fn lemma_paint_twice(
    cells: Seq<Cell>,
    kind: u8,
    first: Set<int>,
    second: Set<int>,
    picks: Seq<usize>,
)
    ensures
        paint(paint(cells, kind, first, picks), kind, second, picks) == paint(
            cells,
            kind,
            first + second,
            picks,
        ),
{
    assert(paint(paint(cells, kind, first, picks), kind, second, picks) =~= paint(
        cells,
        kind,
        first + second,
        picks,
    ));
}

/// Painting one region and after it another, in the same kind, paints their
/// union: cells painted first are not painted again.
pub proof fn lemma_painted_twice(
    before: Seq<Cell>,
    between: Seq<Cell>,
    after: Seq<Cell>,
    kind: u8,
    first: Set<int>,
    second: Set<int>,
)
    requires
        painted(before, between, kind, first),
        painted(between, after, kind, second),
    ensures
        painted(before, after, kind, first + second),
{
    assert forall|i: int| 0 <= i < before.len() implies if (first + second).contains(i)
        && before[i].0 != kind {
        fresh(kind, #[trigger] after[i])
    } else {
        after[i] == before[i]
    } by {
        let middle = between[i];
    }
}

/// Painting leaves every cell that held the kind already as it was, color
/// and all.
pub proof fn lemma_painted_keeps_same_kind(
    before: Seq<Cell>,
    after: Seq<Cell>,
    kind: u8,
    region: Set<int>,
    index: int,
)
    requires
        painted(before, after, kind, region),
        0 <= index < before.len(),
        before[index].0 == kind,
    ensures
        after[index] == before[index],
{
}

/// After painting, every cell of the region holds the kind.
pub proof fn lemma_painted_holds_kind(
    before: Seq<Cell>,
    after: Seq<Cell>,
    kind: u8,
    region: Set<int>,
    index: int,
)
    requires
        painted(before, after, kind, region),
        0 <= index < before.len(),
        region.contains(index),
    ensures
        after[index].0 == kind,
{
}

/// A stamp of at least one cell covers the cell it is put down on, where
/// that cell lies in the grid.
pub proof fn lemma_stamp_covers_center(width: nat, height: nat, gx: int, gy: int, size: int)
    requires
        size >= 1,
        in_grid(width as int, height as int, gx, gy),
    ensures
        0 <= to_index(width as int, gx, gy) < width * height,
        stamp_region(width as int, height as int, gx, gy, size).contains(
            to_index(width as int, gx, gy),
        ),
{
    lemma_coord_round_trip(width, height, gx, gy);
}

/// A stroke of at least two pixels covers the cell of its first pixel and the
/// cell of its last, where they lie in the grid; a shorter one covers the
/// cell of its first pixel.
pub proof fn lemma_line_covers_ends(
    width: nat,
    height: nat,
    cell: int,
    x1: int,
    y1: int,
    x2: int,
    y2: int,
    size: int,
)
    requires
        cell > 0,
        size >= 1,
    ensures
        in_grid(width as int, height as int, x1 / cell, y1 / cell) ==> line_region(
            width as int,
            height as int,
            cell,
            x1,
            y1,
            x2,
            y2,
            size,
        ).contains(to_index(width as int, x1 / cell, y1 / cell)),
        distance(x1, y1, x2, y2) >= 2 && in_grid(width as int, height as int, x2 / cell, y2 / cell)
            ==> line_region(width as int, height as int, cell, x1, y1, x2, y2, size).contains(
            to_index(width as int, x2 / cell, y2 / cell),
        ),
{
    let w = width as int;
    let h = height as int;
    let d = distance(x1, y1, x2, y2);
    if in_grid(w, h, x1 / cell, y1 / cell) {
        lemma_stamp_covers_center(width, height, x1 / cell, y1 / cell, size);
    }
    if d >= 2 && in_grid(w, h, x2 / cell, y2 / cell) {
        lemma_lerp_ends(x1, x2, d - 1);
        lemma_lerp_ends(y1, y2, d - 1);
        assert(line_point(x1, y1, x2, y2, d - 1) == (x2, y2));
        lemma_stamp_covers_center(width, height, x2 / cell, y2 / cell, size);
        assert(stamps_upto(w, h, cell, x1, y1, x2, y2, size, d).contains(
            to_index(w, x2 / cell, y2 / cell),
        ));
    }
}

} // verus!
