//! Placing particles: one cell, a square stamp, or a stroke of stamps.
//!
//! Each new particle gets a shade of its kind. The functions named `..._with`
//! take the number of the shade from the caller; the others draw it at
//! random. Both kinds of function share their code.

use vstd::prelude::*;
use crate::cell::{
    Cell,
    Color,
    is_shade,
    kind_id,
    kind_of,
    palette,
    shade,
    EMPTY,
    SAND,
    STONE,
    WATER,
};
use crate::coords::{in_grid, to_index, lemma_coord_round_trip, lemma_index_round_trip};
use crate::paint::{
    block,
    fresh,
    line_point,
    line_region,
    paint,
    painted,
    pick_at,
    stamp_region,
    stamps_upto,
    lemma_line_covers_ends,
    lemma_paint_twice,
    lemma_painted_twice,
    lemma_palette_is_shade,
};
use crate::particle::{Particle, Sand, Stone, Water};
use crate::particle_handler::ParticleHandler;
use crate::stroke::{distance, interpolate, rounded_distance, COORD_MAX, DIST_MAX};

verus! {

/// The part of a stamp's span along one axis that lies in `0..limit`: the
/// stamp has side `size` and is put down on cell `center`.
fn clip(center: usize, size: usize, limit: usize) -> (span: (usize, usize))
    ensures
        span.0 <= span.1 <= limit,
        span.1 == if center - size / 2 + size <= limit {
            center - size / 2 + size
        } else {
            limit as int
        },
        span.0 == if center - size / 2 <= 0 {
            0
        } else if center - size / 2 <= span.1 {
            center - size / 2
        } else {
            span.1 as int
        },
{
    let half: usize = size / 2;
    if center >= half {
        let start: usize = center - half;
        if start >= limit {
            (limit, limit)
        } else if size >= limit - start {
            (start, limit)
        } else {
            (start, start + size)
        }
    } else {
        let reach: usize = size - (half - center);
        if reach >= limit {
            (0, limit)
        } else {
            (0, reach)
        }
    }
}

/// The shade of a new particle of `kind` at `index`: the one `picks` names
/// for that cell, or one drawn at random where no picks are given.
fn new_color(kind: u8, picks: Option<&Vec<usize>>, index: usize) -> (color: Color)
    requires
        kind <= WATER,
    ensures
        is_shade(kind, color),
        picks matches Some(given) ==> color == palette(kind, pick_at(given@, index as int)),
{
    match picks {
        Some(given) => {
            let pick: usize = if index < given.len() {
                given[index]
            } else {
                0
            };
            proof {
                lemma_palette_is_shade(kind, pick as int);
            }
            shade(kind, pick)
        },
        None => ParticleHandler::color_by_particle(kind),
    }
}

impl ParticleHandler {
    /// The pixel `(x, y)` lies in a cell of the grid.
    pub open spec fn holds_pixel(&self, x: int, y: int) -> bool {
        in_grid(
            self.width() as int,
            self.height() as int,
            x / self.particle_size() as int,
            y / self.particle_size() as int,
        )
    }

    /// Index of the cell that holds the pixel `(x, y)`.
    pub open spec fn cell_of(&self, x: int, y: int) -> int {
        to_index(
            self.width() as int,
            x / self.particle_size() as int,
            y / self.particle_size() as int,
        )
    }

    /// Indices of the cells under a stamp of side `size` cells put down on
    /// the pixel `(x, y)`.
    pub open spec fn stamp(&self, x: int, y: int, size: int) -> Set<int> {
        stamp_region(
            self.width() as int,
            self.height() as int,
            x / self.particle_size() as int,
            y / self.particle_size() as int,
            size,
        )
    }

    /// Indices of the cells under the stroke from pixel `(x1, y1)` to pixel
    /// `(x2, y2)` with a brush of side `size` cells.
    pub open spec fn stroke(&self, x1: int, y1: int, x2: int, y2: int, size: int) -> Set<int> {
        line_region(
            self.width() as int,
            self.height() as int,
            self.particle_size() as int,
            x1,
            y1,
            x2,
            y2,
            size,
        )
    }

    /// A shade for a new particle of kind id `particle`, drawn at random from
    /// the palette of its kind. Ids that name no kind, and the empty kind,
    /// are black.
    pub fn color_by_particle(particle: u8) -> (color: Color)
        ensures
            is_shade(kind_of(particle), color),
    {
        if particle == SAND {
            Sand::var_color()
        } else if particle == STONE {
            Stone::var_color()
        } else if particle == WATER {
            Water::var_color()
        } else {
            assert(palette(EMPTY, 0) == (0u8, 0u8, 0u8));
            (0u8, 0u8, 0u8)
        }
    }

    /// Writes a particle of `kind` in the color `color` into the cell that
    /// holds the pixel `(x, y)`, if there is one.
    fn place(&mut self, kind: u8, color: Color, x: usize, y: usize)
        requires
            old(self).wf(),
            kind <= WATER,
            is_shade(kind, color),
        ensures
            final(self).wf(),
            final(self).same_frame(*old(self)),
            old(self).holds_pixel(x as int, y as int) ==> {
                &&& 0 <= old(self).cell_of(x as int, y as int) < old(self)@.len()
                &&& final(self)@ == old(self)@.update(
                    old(self).cell_of(x as int, y as int),
                    (kind, color),
                )
            },
            !old(self).holds_pixel(x as int, y as int) ==> final(self)@ == old(self)@,
    {
        let sx: usize = x / self.particle_size;
        let sy: usize = y / self.particle_size;
        if sx >= self.width || sy >= self.height {
            return ;
        }
        proof {
            lemma_coord_round_trip(self.width as nat, self.height as nat, sx as int, sy as int);
            assert(palette(EMPTY, 0) == (0u8, 0u8, 0u8));
        }
        let index: usize = self.c2i(sx, sy);
        self.collision.set(index, (kind, color));
    }

    /// Puts a new particle of kind id `particle` into the cell that holds
    /// the pixel `(x, y)`, whatever the cell held, in a shade drawn at
    /// random. A pixel outside the grid changes nothing. An id that names no
    /// kind empties the cell.
    pub fn spawn_particle(&mut self, particle: u8, x: usize, y: usize)
        requires
            old(self).wf(),
        ensures
            final(self).wf(),
            final(self).same_frame(*old(self)),
            final(self)@.len() == old(self)@.len(),
            old(self).holds_pixel(x as int, y as int) ==> {
                let index = old(self).cell_of(x as int, y as int);
                &&& 0 <= index < old(self)@.len()
                &&& fresh(kind_of(particle), final(self)@[index])
                &&& forall|i: int|
                    0 <= i < old(self)@.len() && i != index ==> #[trigger] final(self)@[i] == old(
                        self,
                    )@[i]
            },
            !old(self).holds_pixel(x as int, y as int) ==> final(self)@ == old(self)@,
    {
        let kind: u8 = kind_id(particle);
        let color: Color = Self::color_by_particle(kind);
        self.place(kind, color, x, y);
    }

    /// Puts a new particle of kind id `particle`, in the shade of number
    /// `pick`, into the cell that holds the pixel `(x, y)`, whatever the cell
    /// held. A pixel outside the grid changes nothing. An id that names no
    /// kind empties the cell.
    pub fn spawn_particle_with(&mut self, particle: u8, x: usize, y: usize, pick: usize)
        requires
            old(self).wf(),
        ensures
            final(self).wf(),
            final(self).same_frame(*old(self)),
            old(self).holds_pixel(x as int, y as int) ==> {
                &&& 0 <= old(self).cell_of(x as int, y as int) < old(self)@.len()
                &&& final(self)@ == old(self)@.update(
                    old(self).cell_of(x as int, y as int),
                    (kind_of(particle), palette(kind_of(particle), pick as int)),
                )
            },
            !old(self).holds_pixel(x as int, y as int) ==> final(self)@ == old(self)@,
    {
        let kind: u8 = kind_id(particle);
        proof {
            lemma_palette_is_shade(kind, pick as int);
        }
        self.place(kind, shade(kind, pick), x, y);
    }

    /// Stamps a square of side `width` cells in the kind of id `particle` on
    /// the cell that holds the pixel `(x, y)`, with the shades `picks` names
    /// or, without picks, shades drawn at random.
    fn stamp_cells(
        &mut self,
        particle: u8,
        x: usize,
        y: usize,
        width: usize,
        picks: Option<&Vec<usize>>,
    )
        requires
            old(self).wf(),
        ensures
            final(self).wf(),
            final(self).same_frame(*old(self)),
            painted(
                old(self)@,
                final(self)@,
                kind_of(particle),
                old(self).stamp(x as int, y as int, width as int),
            ),
            picks matches Some(given) ==> final(self)@ == paint(
                old(self)@,
                kind_of(particle),
                old(self).stamp(x as int, y as int, width as int),
                given@,
            ),
    {
        let kind: u8 = kind_id(particle);
        let sx: usize = x / self.particle_size;
        let sy: usize = y / self.particle_size;
        let (x0, x1) = clip(sx, width, self.width);
        let (y0, y1) = clip(sy, width, self.height);
        let ghost before = self@;
        let ghost w = self.width as int;
        let ghost h = self.height as int;
        let ghost len = self@.len() as int;
        let mut cx: usize = x0;
        assert(picks matches Some(given) ==> self@ =~= paint(
            before,
            kind,
            block(w, len, x0 as int, cx as int, y0 as int, y1 as int),
            given@,
        ));
        while cx < x1
            invariant
                self.wf(),
                self.same_frame(*old(self)),
                w == self.width(),
                h == self.height(),
                len == before.len(),
                kind <= WATER,
                x0 <= cx <= x1 <= w,
                y0 <= y1 <= h,
                painted(
                    before,
                    self@,
                    kind,
                    block(w, len, x0 as int, cx as int, y0 as int, y1 as int),
                ),
                picks matches Some(given) ==> self@ == paint(
                    before,
                    kind,
                    block(w, len, x0 as int, cx as int, y0 as int, y1 as int),
                    given@,
                ),
            decreases x1 - cx,
        {
            let ghost columns = block(w, len, x0 as int, cx as int, y0 as int, y1 as int);
            let mut cy: usize = y0;
            assert(columns + block(w, len, cx as int, cx + 1, y0 as int, cy as int) =~= columns);
            while cy < y1
                invariant
                    self.wf(),
                    self.same_frame(*old(self)),
                    w == self.width(),
                    h == self.height(),
                    len == before.len(),
                    kind <= WATER,
                    x0 <= cx < x1 <= w,
                    y0 <= cy <= y1 <= h,
                    columns == block(w, len, x0 as int, cx as int, y0 as int, y1 as int),
                    painted(
                        before,
                        self@,
                        kind,
                        columns + block(w, len, cx as int, cx + 1, y0 as int, cy as int),
                    ),
                    picks matches Some(given) ==> self@ == paint(
                        before,
                        kind,
                        columns + block(w, len, cx as int, cx + 1, y0 as int, cy as int),
                        given@,
                    ),
                decreases y1 - cy,
            {
                proof {
                    lemma_coord_round_trip(w as nat, h as nat, cx as int, cy as int);
                }
                let index: usize = self.c2i(cx, cy);
                let ghost earlier = self@;
                if self.collision[index].0 != kind {
                    let color: Color = new_color(kind, picks, index);
                    self.collision.set(index, (kind, color));
                }
                proof {
                    let done = columns + block(w, len, cx as int, cx + 1, y0 as int, cy as int);
                    let next = columns + block(w, len, cx as int, cx + 1, y0 as int, cy + 1);
                    assert forall|i: int| 0 <= i < len implies next.contains(i) == (done.contains(i)
                        || i == index) && !done.contains(index as int) by {
                        lemma_index_round_trip(w as nat, h as nat, i);
                    }
                    assert forall|i: int| 0 <= i < len implies if next.contains(i) && before[i].0
                        != kind {
                        fresh(kind, #[trigger] self@[i])
                    } else {
                        self@[i] == before[i]
                    } by {
                        let was = earlier[i];
                        assert(next.contains(i) == (done.contains(i) || i == index));
                    }
                    if let Some(given) = picks {
                        assert forall|i: int| 0 <= i < len implies #[trigger] self@[i] == paint(
                            before,
                            kind,
                            next,
                            given@,
                        )[i] by {
                            let was = earlier[i];
                            assert(next.contains(i) == (done.contains(i) || i == index));
                        }
                        assert(self@ =~= paint(before, kind, next, given@));
                    }
                }
                cy += 1;
            }
            assert(columns + block(w, len, cx as int, cx + 1, y0 as int, y1 as int) =~= block(
                w,
                len,
                x0 as int,
                cx + 1,
                y0 as int,
                y1 as int,
            ));
            cx += 1;
        }
        proof {
            let region = old(self).stamp(x as int, y as int, width as int);
            let done = block(w, len, x0 as int, cx as int, y0 as int, y1 as int);
            assert forall|i: int| 0 <= i < len implies region.contains(i) == done.contains(i) by {
                lemma_index_round_trip(w as nat, h as nat, i);
            }
            assert forall|i: int| 0 <= i < len implies if region.contains(i) && before[i].0
                != kind {
                fresh(kind, #[trigger] self@[i])
            } else {
                self@[i] == before[i]
            } by {
                assert(region.contains(i) == done.contains(i));
            }
            if let Some(given) = picks {
                assert forall|i: int| 0 <= i < len implies #[trigger] self@[i] == paint(
                    before,
                    kind,
                    region,
                    given@,
                )[i] by {
                    assert(region.contains(i) == done.contains(i));
                }
                assert(self@ =~= paint(before, kind, region, given@));
            }
        }
    }

    /// Stamps a square of side `width` cells, in the kind of id `particle`,
    /// on the cell that holds the pixel `(x, y)`. Cells of the square outside
    /// the grid are left out. A cell that holds the kind already keeps its
    /// color; any other cell under the stamp gets a new particle in a shade
    /// drawn at random. An id that names no kind empties the cells.
    pub fn spawn_particle_width(&mut self, particle: u8, x: usize, y: usize, width: usize)
        requires
            old(self).wf(),
        ensures
            final(self).wf(),
            final(self).same_frame(*old(self)),
            painted(
                old(self)@,
                final(self)@,
                kind_of(particle),
                old(self).stamp(x as int, y as int, width as int),
            ),
            forall|i: int|
                0 <= i < old(self)@.len() && old(self)@[i].0 == kind_of(particle)
                    ==> #[trigger] final(self)@[i] == old(self)@[i],
    {
        self.stamp_cells(particle, x, y, width, None);
    }

    /// Stamps as `spawn_particle_width` does, with the shades given: the new
    /// particle in the cell at index `i` gets the shade of number `picks[i]`,
    /// or the first shade where `picks` is too short.
    pub fn spawn_particle_width_with(
        &mut self,
        particle: u8,
        x: usize,
        y: usize,
        width: usize,
        picks: &Vec<usize>,
    )
        requires
            old(self).wf(),
        ensures
            final(self).wf(),
            final(self).same_frame(*old(self)),
            final(self)@ == paint(
                old(self)@,
                kind_of(particle),
                old(self).stamp(x as int, y as int, width as int),
                picks@,
            ),
            forall|i: int|
                0 <= i < old(self)@.len() && old(self)@[i].0 == kind_of(particle)
                    ==> #[trigger] final(self)@[i] == old(self)@[i],
    {
        self.stamp_cells(particle, x, y, width, Some(picks));
    }

    /// Paints the stroke from pixel `(x1, y1)` to pixel `(x2, y2)` with the
    /// shades `picks` names or, without picks, shades drawn at random.
    fn stroke_cells(
        &mut self,
        x1: usize,
        y1: usize,
        x2: usize,
        y2: usize,
        particle: u8,
        width: usize,
        picks: Option<&Vec<usize>>,
    )
        requires
            old(self).wf(),
            x1 <= COORD_MAX,
            y1 <= COORD_MAX,
            x2 <= COORD_MAX,
            y2 <= COORD_MAX,
        ensures
            final(self).wf(),
            final(self).same_frame(*old(self)),
            painted(
                old(self)@,
                final(self)@,
                kind_of(particle),
                old(self).stroke(x1 as int, y1 as int, x2 as int, y2 as int, width as int),
            ),
            picks matches Some(given) ==> final(self)@ == paint(
                old(self)@,
                kind_of(particle),
                old(self).stroke(x1 as int, y1 as int, x2 as int, y2 as int, width as int),
                given@,
            ),
    {
        let ghost before = self@;
        let ghost w = self.width as int;
        let ghost h = self.height as int;
        let ghost cell = self.particle_size as int;
        let ghost kind = kind_of(particle);
        let ghost start = self.stamp(x1 as int, y1 as int, width as int);
        let ghost (ax, ay, bx, by) = (x1 as int, y1 as int, x2 as int, y2 as int);
        let dist: u64 = rounded_distance(x1, y1, x2, y2);
        self.stamp_cells(particle, x1, y1, width, picks);
        if dist < 2 {
            assert(start + Set::<int>::empty() =~= start);
            return ;
        }
        let last: u64 = dist - 1;
        let mut i: u64 = 0;
        assert(start + stamps_upto(w, h, cell, ax, ay, bx, by, width as int, 0) =~= start);
        while i < dist
            invariant
                self.wf(),
                self.same_frame(*old(self)),
                w == self.width(),
                h == self.height(),
                cell == self.particle_size(),
                (ax, ay, bx, by) == (x1 as int, y1 as int, x2 as int, y2 as int),
                x1 <= COORD_MAX,
                y1 <= COORD_MAX,
                x2 <= COORD_MAX,
                y2 <= COORD_MAX,
                i <= dist,
                last == dist - 1,
                2 <= dist <= DIST_MAX,
                dist == distance(ax, ay, bx, by),
                kind == kind_of(particle),
                start == stamp_region(w, h, ax / cell, ay / cell, width as int),
                painted(
                    before,
                    self@,
                    kind,
                    start + stamps_upto(w, h, cell, ax, ay, bx, by, width as int, i as int),
                ),
                picks matches Some(given) ==> self@ == paint(
                    before,
                    kind,
                    start + stamps_upto(w, h, cell, ax, ay, bx, by, width as int, i as int),
                    given@,
                ),
            decreases dist - i,
        {
            let ix: usize = interpolate(x1, x2, i, last);
            let iy: usize = interpolate(y1, y2, i, last);
            let ghost between = self@;
            self.stamp_cells(particle, ix, iy, width, picks);
            proof {
                let done = stamps_upto(w, h, cell, ax, ay, bx, by, width as int, i as int);
                let p = line_point(ax, ay, bx, by, i as int);
                let stamp = stamp_region(w, h, p.0 / cell, p.1 / cell, width as int);
                lemma_painted_twice(before, between, self@, kind, start + done, stamp);
                assert((start + done) + stamp =~= start + stamps_upto(
                    w,
                    h,
                    cell,
                    ax,
                    ay,
                    bx,
                    by,
                    width as int,
                    i + 1,
                ));
                if let Some(given) = picks {
                    lemma_paint_twice(before, kind, start + done, stamp, given@);
                }
            }
            i += 1;
        }
    }

    /// What painting a stroke makes sure of besides the painting itself: a
    /// stroke shorter than two pixels paints one stamp; a brush of at least
    /// one cell paints the cell of the first pixel and, in a stroke of two
    /// pixels or more, the cell of the last.
    pub open spec fn stroke_covers(
        &self,
        after: Seq<Cell>,
        x1: int,
        y1: int,
        x2: int,
        y2: int,
        kind: u8,
        size: int,
    ) -> bool {
        &&& distance(x1, y1, x2, y2) < 2 ==> self.stroke(x1, y1, x2, y2, size) == self.stamp(
            x1,
            y1,
            size,
        )
        &&& size >= 1 && self.holds_pixel(x1, y1) ==> after[self.cell_of(x1, y1)].0 == kind
        &&& size >= 1 && distance(x1, y1, x2, y2) >= 2 && self.holds_pixel(x2, y2)
            ==> after[self.cell_of(x2, y2)].0 == kind
    }

    /// A painted stroke covers what a stroke has to cover.
    proof fn lemma_stroke_covers(
        &self,
        after: Seq<Cell>,
        x1: int,
        y1: int,
        x2: int,
        y2: int,
        kind: u8,
        size: int,
    )
        requires
            self.wf(),
            painted(self@, after, kind, self.stroke(x1, y1, x2, y2, size)),
        ensures
            self.stroke_covers(after, x1, y1, x2, y2, kind, size),
    {
        let w = self.width() as nat;
        let h = self.height() as nat;
        let cell = self.particle_size() as int;
        if distance(x1, y1, x2, y2) < 2 {
            assert(self.stroke(x1, y1, x2, y2, size) =~= self.stamp(x1, y1, size));
        }
        if size >= 1 {
            lemma_line_covers_ends(w, h, cell, x1, y1, x2, y2, size);
            if self.holds_pixel(x1, y1) {
                lemma_coord_round_trip(w, h, x1 / cell, y1 / cell);
            }
            if self.holds_pixel(x2, y2) {
                lemma_coord_round_trip(w, h, x2 / cell, y2 / cell);
            }
        }
    }

    /// Paints the stroke from pixel `(x1, y1)` to pixel `(x2, y2)`: a stamp
    /// of side `width` on the first pixel and, where the stroke is at least
    /// two pixels long, one on each of its pixels, as many as its rounded
    /// length. A stroke shorter than that is the one stamp. New particles
    /// get shades drawn at random. Pixel coordinates go up to `COORD_MAX`.
    pub fn spawn_line(
        &mut self,
        x1: usize,
        y1: usize,
        x2: usize,
        y2: usize,
        particle: u8,
        width: usize,
    )
        requires
            old(self).wf(),
            x1 <= COORD_MAX,
            y1 <= COORD_MAX,
            x2 <= COORD_MAX,
            y2 <= COORD_MAX,
        ensures
            final(self).wf(),
            final(self).same_frame(*old(self)),
            painted(
                old(self)@,
                final(self)@,
                kind_of(particle),
                old(self).stroke(x1 as int, y1 as int, x2 as int, y2 as int, width as int),
            ),
            old(self).stroke_covers(
                final(self)@,
                x1 as int,
                y1 as int,
                x2 as int,
                y2 as int,
                kind_of(particle),
                width as int,
            ),
            forall|i: int|
                0 <= i < old(self)@.len() && old(self)@[i].0 == kind_of(particle)
                    ==> #[trigger] final(self)@[i] == old(self)@[i],
    {
        let ghost before = *self;
        self.stroke_cells(x1, y1, x2, y2, particle, width, None);
        proof {
            before.lemma_stroke_covers(
                self@,
                x1 as int,
                y1 as int,
                x2 as int,
                y2 as int,
                kind_of(particle),
                width as int,
            );
        }
    }

    /// Paints a stroke as `spawn_line` does, with the shades given: the new
    /// particle in the cell at index `i` gets the shade of number `picks[i]`,
    /// or the first shade where `picks` is too short.
    pub fn spawn_line_with(
        &mut self,
        x1: usize,
        y1: usize,
        x2: usize,
        y2: usize,
        particle: u8,
        width: usize,
        picks: &Vec<usize>,
    )
        requires
            old(self).wf(),
            x1 <= COORD_MAX,
            y1 <= COORD_MAX,
            x2 <= COORD_MAX,
            y2 <= COORD_MAX,
        ensures
            final(self).wf(),
            final(self).same_frame(*old(self)),
            final(self)@ == paint(
                old(self)@,
                kind_of(particle),
                old(self).stroke(x1 as int, y1 as int, x2 as int, y2 as int, width as int),
                picks@,
            ),
            old(self).stroke_covers(
                final(self)@,
                x1 as int,
                y1 as int,
                x2 as int,
                y2 as int,
                kind_of(particle),
                width as int,
            ),
            forall|i: int|
                0 <= i < old(self)@.len() && old(self)@[i].0 == kind_of(particle)
                    ==> #[trigger] final(self)@[i] == old(self)@[i],
    {
        let ghost before = *self;
        self.stroke_cells(x1, y1, x2, y2, particle, width, Some(picks));
        proof {
            before.lemma_stroke_covers(
                self@,
                x1 as int,
                y1 as int,
                x2 as int,
                y2 as int,
                kind_of(particle),
                width as int,
            );
        }
    }
}

} // verus!
