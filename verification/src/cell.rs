//! Cells, kind tags and the fixed palette of each kind.

use vstd::prelude::*;

verus! {

/// An RGB triple of 8-bit channels.
pub type Color = (u8, u8, u8);

/// A grid slot: a kind tag and the color the particle was given when placed.
pub type Cell = (u8, Color);

/// Tag of a slot that holds no particle.
pub const EMPTY: u8 = 0;

/// Tag of a sand particle.
pub const SAND: u8 = 1;

/// Tag of a stone particle.
pub const STONE: u8 = 2;

/// Tag of a water particle.
pub const WATER: u8 = 3;

/// Number of shades in the palette of each kind.
pub const SHADES: usize = 3;

/// The cell that holds nothing: the empty tag, colored black.
pub open spec fn blank() -> Cell {
    (EMPTY, (0u8, 0u8, 0u8))
}

/// The tag a kind id stands for: ids that name no kind count as empty.
pub open spec fn kind_of(id: u8) -> u8 {
    if id <= WATER {
        id
    } else {
        EMPTY
    }
}

/// Shade number `pick` of the palette of `kind`, counted from zero; a number
/// past the last shade gives the last. The empty kind is black.
pub open spec fn palette(kind: u8, pick: int) -> Color {
    if kind == SAND {
        if pick == 0 {
            (182u8, 160u8, 113u8)
        } else if pick == 1 {
            (220u8, 193u8, 136u8)
        } else {
            (255u8, 230u8, 157u8)
        }
    } else if kind == STONE {
        if pick == 0 {
            (65u8, 65u8, 65u8)
        } else if pick == 1 {
            (60u8, 60u8, 60u8)
        } else {
            (75u8, 75u8, 75u8)
        }
    } else if kind == WATER {
        if pick == 0 {
            (28u8, 163u8, 236u8)
        } else if pick == 1 {
            (21u8, 127u8, 185u8)
        } else {
            (28u8, 175u8, 255u8)
        }
    } else {
        (0u8, 0u8, 0u8)
    }
}

/// `color` is one of the shades of `kind`.
pub open spec fn is_shade(kind: u8, color: Color) -> bool {
    exists|pick: int| 0 <= pick < SHADES && color == #[trigger] palette(kind, pick)
}

/// A cell a grid may hold: blank, or a known kind in one of its shades.
pub open spec fn valid_cell(c: Cell) -> bool {
    if c.0 == EMPTY {
        c == blank()
    } else {
        c.0 <= WATER && is_shade(c.0, c.1)
    }
}

/// The blank cell.
pub fn blank_cell() -> (c: Cell)
    ensures
        c == blank(),
{
    (EMPTY, (0u8, 0u8, 0u8))
}

/// The tag a kind id stands for.
pub fn kind_id(particle: u8) -> (kind: u8)
    ensures
        kind == kind_of(particle),
{
    if particle <= WATER {
        particle
    } else {
        EMPTY
    }
}

/// Shade number `pick` of the palette of kind id `particle`, counted from
/// zero; a number past the last shade gives the last. Ids that name no kind,
/// and the empty kind, are black.
pub fn shade(particle: u8, pick: usize) -> (color: Color)
    ensures
        color == palette(kind_of(particle), pick as int),
{
    if particle == SAND {
        if pick == 0 {
            (182u8, 160u8, 113u8)
        } else if pick == 1 {
            (220u8, 193u8, 136u8)
        } else {
            (255u8, 230u8, 157u8)
        }
    } else if particle == STONE {
        if pick == 0 {
            (65u8, 65u8, 65u8)
        } else if pick == 1 {
            (60u8, 60u8, 60u8)
        } else {
            (75u8, 75u8, 75u8)
        }
    } else if particle == WATER {
        if pick == 0 {
            (28u8, 163u8, 236u8)
        } else if pick == 1 {
            (21u8, 127u8, 185u8)
        } else {
            (28u8, 175u8, 255u8)
        }
    } else {
        (0u8, 0u8, 0u8)
    }
}

/// Whether a grid may hold `cell`.
pub fn is_valid(cell: Cell) -> (valid: bool)
    ensures
        valid == valid_cell(cell),
{
    if cell.0 == EMPTY {
        cell.1.0 == 0 && cell.1.1 == 0 && cell.1.2 == 0
    } else if cell.0 <= WATER {
        let first: Color = shade(cell.0, 0);
        let second: Color = shade(cell.0, 1);
        let third: Color = shade(cell.0, 2);
        let found: bool = same_color(cell.1, first) || same_color(cell.1, second) || same_color(
            cell.1,
            third,
        );
        proof {
            if found {
                assert(cell.1 == palette(cell.0, 0) || cell.1 == palette(cell.0, 1) || cell.1
                    == palette(cell.0, 2));
            }
        }
        found
    } else {
        false
    }
}

/// Whether two colors are the same, channel for channel.
fn same_color(a: Color, b: Color) -> (same: bool)
    ensures
        same == (a == b),
{
    a.0 == b.0 && a.1 == b.1 && a.2 == b.2
}

} // verus!
