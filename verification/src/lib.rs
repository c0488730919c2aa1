//! A falling-sand world: a grid of cells, the rules that move each kind of
//! particle, the tick that applies them, and the brush that paints strokes.

pub mod cell;
pub mod coords;
pub mod rules;
mod random;
pub mod particle_handler;
pub mod particle;
pub mod laws;
pub mod paint;
pub mod stroke;
pub mod brush;
pub mod painter;
