//! Factory for the render information of tiles.

use vstd::prelude::*;
use crate::components::Renderable;
use crate::swatch;

verus! {

/// The glyph of a character in code page 437, as `rltk::to_cp437` gives it.
pub uninterp spec fn cp437(c: char) -> u16;

/// Calls `rltk::to_cp437`, which looks the character up in the table of
/// code page 437. Trusted: the result is a function of the character alone.
#[verifier::external_body]
pub(crate) fn glyph(c: char) -> (g: u16)
    ensures
        g == cp437(c),
{
    rltk::to_cp437(c)
}

/// Factory for the render information of tiles, which are no entities.
pub struct TileFactory {}

impl TileFactory {
    /// The render information of a floor tile.
    pub fn new_floor() -> (tile: Renderable)
        ensures
            tile.symbol == cp437('.'),
            tile.fg == swatch::FLOOR.0,
            tile.bg == swatch::FLOOR.1,
            tile.order == -1,
    {
        let c = swatch::Pallet::of(swatch::FLOOR).colors();
        Renderable { symbol: glyph('.'), fg: c.0, bg: c.1, order: -1 }
    }

    /// The render information of a wall tile.
    pub fn new_wall() -> (tile: Renderable)
        ensures
            tile.symbol == cp437('#'),
            tile.fg == swatch::WALL.0,
            tile.bg == swatch::WALL.1,
            tile.order == -1,
    {
        let c = swatch::Pallet::of(swatch::WALL).colors();
        Renderable { symbol: glyph('#'), fg: c.0, bg: c.1, order: -1 }
    }
}

} // verus!
