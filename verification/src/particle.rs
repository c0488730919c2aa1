//! The kinds of particle and the rule each one moves by.

use vstd::prelude::*;
use crate::cell::{Cell, Color, is_shade, palette, shade, EMPTY, SAND, STONE, WATER, SHADES};
use crate::coords::{to_index, lemma_index_round_trip, lemma_coord_round_trip};
use crate::particle_handler::ParticleHandler;
use crate::random::{coin_flip, pick_below};
use crate::rules::{blocked, diagonal_open, granular_target};

verus! {

/// A kind of particle: where it goes in a tick, and the shades it may have.
///
/// A rule reads the grid as it stood before the tick and writes one cell of
/// the buffer that becomes the next grid. It never reads that buffer.
pub trait Particle {
    /// The tag of this kind.
    spec fn kind() -> u8;

    /// The target of a particle of this kind at `index`, given its coin.
    spec fn target(handler: &ParticleHandler, index: int, flip: bool) -> int;

    /// The target of the particle at `index` for a given coin.
    fn destination(handler: &ParticleHandler, index: usize, flip: bool) -> (dest: usize)
        requires
            handler.wf(),
            index < handler@.len(),
        ensures
            dest == Self::target(handler, index as int, flip),
            dest < handler@.len(),
    ;

    /// Moves the particle at `index`: copies its cell to its target in `new`,
    /// drawing a coin where the rule needs one. No other cell of `new`
    /// changes.
    fn update(handler: &ParticleHandler, new: &mut Vec<Cell>, index: usize)
        requires
            handler.wf(),
            index < handler@.len(),
            old(new)@.len() == handler@.len(),
        ensures
            exists|flip: bool|
                {
                    let dest = #[trigger] Self::target(handler, index as int, flip);
                    &&& 0 <= dest < handler@.len()
                    &&& final(new)@ == old(new)@.update(dest, handler@[index as int])
                },
    ;

    /// One of the shades of this kind, drawn at random.
    fn var_color() -> (color: Color)
        ensures
            is_shade(Self::kind(), color),
    ;
}

/// Sand: falls, and slides off slopes.
pub struct Sand;

/// Stone: never moves.
pub struct Stone;

/// Water: for now it moves as sand does.
pub struct Water;

/// Looks at the column beside `x`, to the right or to the left: gives the
/// index of the cell diagonally below if a grain in row `y` can slide there.
fn diagonal(handler: &ParticleHandler, x: usize, y: usize, right: bool) -> (dest: Option<usize>)
    requires
        handler.wf(),
        x < handler.width(),
        y + 1 < handler.height(),
    ensures
        ({
            let side = if right {
                x + 1
            } else {
                x - 1
            };
            match dest {
                Some(d) => diagonal_open(handler@, handler.width() as int, side, y as int) && d
                    == to_index(handler.width() as int, side, y + 1) && d < handler@.len(),
                None => !diagonal_open(handler@, handler.width() as int, side, y as int),
            }
        }),
{
    let column: usize = if right {
        if x + 1 >= handler.width() {
            return None;
        }
        x + 1
    } else {
        if x == 0 {
            return None;
        }
        x - 1
    };
    proof {
        lemma_coord_round_trip(
            handler.width() as nat,
            handler.height() as nat,
            column as int,
            y as int,
        );
        lemma_coord_round_trip(
            handler.width() as nat,
            handler.height() as nat,
            column as int,
            y + 1,
        );
    }
    let beside: usize = handler.c2i(column, y);
    let below: usize = handler.c2i(column, y + 1);
    if handler.particle_at(beside).0 == EMPTY && handler.particle_at(below).0 == EMPTY {
        Some(below)
    } else {
        None
    }
}

/// The target of a grain at `index` that needs no coin: its own cell on the
/// bottom row, or the cell below it where that one is empty. A grain that is
/// blocked has none.
fn straight(handler: &ParticleHandler, index: usize) -> (dest: Option<usize>)
    requires
        handler.wf(),
        index < handler@.len(),
    ensures
        dest is None <==> blocked(
            handler@,
            handler.width() as int,
            handler.height() as int,
            index as int,
        ),
        dest matches Some(d) ==> d < handler@.len() && forall|flip: bool|
            d == #[trigger] granular_target(
                handler@,
                handler.width() as int,
                handler.height() as int,
                index as int,
                flip,
            ),
{
    proof {
        lemma_index_round_trip(handler.width() as nat, handler.height() as nat, index as int);
    }
    let (x, y) = handler.i2c(index);
    if !(y + 1 < handler.height()) {
        return Some(index);
    }
    proof {
        lemma_coord_round_trip(
            handler.width() as nat,
            handler.height() as nat,
            x as int,
            y + 1,
        );
    }
    let below: usize = handler.c2i(x, y + 1);
    if handler.particle_at(below).0 == EMPTY {
        Some(below)
    } else {
        None
    }
}

/// The target of a blocked grain at `index`: the cell diagonally below on
/// the side the coin prefers if the grain can slide there, else the one on
/// the other side, else its own cell.
fn slide(handler: &ParticleHandler, index: usize, flip: bool) -> (dest: usize)
    requires
        handler.wf(),
        index < handler@.len(),
        blocked(handler@, handler.width() as int, handler.height() as int, index as int),
    ensures
        dest == granular_target(
            handler@,
            handler.width() as int,
            handler.height() as int,
            index as int,
            flip,
        ),
        dest < handler@.len(),
{
    proof {
        lemma_index_round_trip(handler.width() as nat, handler.height() as nat, index as int);
    }
    let (x, y) = handler.i2c(index);
    match diagonal(handler, x, y, flip) {
        Some(dest) => dest,
        None => match diagonal(handler, x, y, !flip) {
            Some(dest) => dest,
            None => index,
        },
    }
}

/// The target of a grain at `index` for a given coin.
fn granular_destination(handler: &ParticleHandler, index: usize, flip: bool) -> (dest: usize)
    requires
        handler.wf(),
        index < handler@.len(),
    ensures
        dest == granular_target(
            handler@,
            handler.width() as int,
            handler.height() as int,
            index as int,
            flip,
        ),
        dest < handler@.len(),
{
    match straight(handler, index) {
        Some(dest) => dest,
        None => slide(handler, index, flip),
    }
}

/// Moves the grain at `index` into `new`. The coin is drawn only where the
/// grain is blocked and has to choose a side.
fn granular_update(handler: &ParticleHandler, new: &mut Vec<Cell>, index: usize) -> (coin: Ghost<
    bool,
>)
    requires
        handler.wf(),
        index < handler@.len(),
        old(new)@.len() == handler@.len(),
    ensures
        ({
            let dest = granular_target(
                handler@,
                handler.width() as int,
                handler.height() as int,
                index as int,
                coin@,
            );
            &&& 0 <= dest < handler@.len()
            &&& final(new)@ == old(new)@.update(dest, handler@[index as int])
        }),
{
    let particle: Cell = handler.particle_at(index);
    match straight(handler, index) {
        Some(dest) => {
            new.set(dest, particle);
            Ghost(false)
        },
        None => {
            let flip: bool = coin_flip();
            let dest: usize = slide(handler, index, flip);
            new.set(dest, particle);
            Ghost(flip)
        },
    }
}

impl Particle for Sand {
    open spec fn kind() -> u8 {
        SAND
    }

    open spec fn target(handler: &ParticleHandler, index: int, flip: bool) -> int {
        granular_target(handler@, handler.width() as int, handler.height() as int, index, flip)
    }

    fn destination(handler: &ParticleHandler, index: usize, flip: bool) -> (dest: usize) {
        granular_destination(handler, index, flip)
    }

    fn update(handler: &ParticleHandler, new: &mut Vec<Cell>, index: usize) {
        let coin = granular_update(handler, new, index);
        assert(Self::target(handler, index as int, coin@) < handler@.len());
    }

    fn var_color() -> (color: Color) {
        let pick: usize = pick_below(SHADES);
        let color: Color = shade(SAND, pick);
        assert(color == palette(SAND, pick as int));
        color
    }
}

impl Particle for Stone {
    open spec fn kind() -> u8 {
        STONE
    }

    open spec fn target(handler: &ParticleHandler, index: int, flip: bool) -> int {
        index
    }

    fn destination(handler: &ParticleHandler, index: usize, flip: bool) -> (dest: usize) {
        index
    }

    fn update(handler: &ParticleHandler, new: &mut Vec<Cell>, index: usize) {
        new.set(index, handler.particle_at(index));
        assert(Self::target(handler, index as int, false) == index);
    }

    fn var_color() -> (color: Color) {
        let pick: usize = pick_below(SHADES);
        let color: Color = shade(STONE, pick);
        assert(color == palette(STONE, pick as int));
        color
    }
}

impl Particle for Water {
    open spec fn kind() -> u8 {
        WATER
    }

    open spec fn target(handler: &ParticleHandler, index: int, flip: bool) -> int {
        granular_target(handler@, handler.width() as int, handler.height() as int, index, flip)
    }

    fn destination(handler: &ParticleHandler, index: usize, flip: bool) -> (dest: usize) {
        granular_destination(handler, index, flip)
    }

    fn update(handler: &ParticleHandler, new: &mut Vec<Cell>, index: usize) {
        let coin = granular_update(handler, new, index);
        assert(Self::target(handler, index as int, coin@) < handler@.len());
    }

    fn var_color() -> (color: Color) {
        let pick: usize = pick_below(SHADES);
        let color: Color = shade(WATER, pick);
        assert(color == palette(WATER, pick as int));
        color
    }
}

} // verus!
