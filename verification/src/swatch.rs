//! The colours of the game.

use vstd::prelude::*;
use crate::components::U8Color;

verus! {

/// The default background colour for entities and tiles.
pub const DEFAULT_BG_COLOR: U8Color = (0, 0, 0);

/// Gold.
pub const GOLD: U8Color = (255, 215, 0);

/// Goldenrod.
pub const GOLDENROD: U8Color = (218, 165, 32);

/// White.
pub const WHITE: U8Color = (255, 255, 255);

/// Red.
pub const RED: U8Color = (255, 0, 0);

/// Blue.
pub const BLUE: U8Color = (0, 0, 255);

/// Green.
pub const GREEN: U8Color = (0, 255, 0);

/// Pink.
pub const PINK: U8Color = (255, 192, 203);

/// Dim gray.
pub const DIM_GRAY: U8Color = (105, 105, 105);

/// Pale goldenrod.
pub const PALEGOLDENROD: U8Color = (238, 232, 170);

/// A foreground and a background colour, in this order.
pub type ColorPair = (U8Color, U8Color);

/// The foreground and the background colour of an entity or tile.
#[derive(Clone, Copy, Debug)]
pub struct Pallet(pub U8Color, pub U8Color);

impl Pallet {
    /// The pallet with the colours of `pair`.
    pub fn of(pair: ColorPair) -> (pallet: Pallet)
        ensures
            pallet.0 == pair.0,
            pallet.1 == pair.1,
    {
        Pallet(pair.0, pair.1)
    }

    /// The colours of the pallet in the order `(fg, bg)`.
    pub fn colors(&self) -> (c: (U8Color, U8Color))
        ensures
            c == (self.0, self.1),
    {
        (self.0, self.1)
    }
}

/// The player entity's colour.
pub const PLAYER: ColorPair = ((255, 215, 0), (0, 0, 0));

/// The goblin entity's colour.
pub const GOBLIN: ColorPair = ((169, 169, 169), (0, 0, 0));

/// The gremlin entity's colour.
pub const GREMLIN: ColorPair = ((124, 252, 0), (0, 0, 0));

/// The floor tile's colour.
pub const FLOOR: ColorPair = ((141, 163, 153), (0, 0, 0));

/// The wall tile's colour.
pub const WALL: ColorPair = ((218, 165, 32), (0, 0, 0));

/// The colour of the message box.
pub const MESSAGE_BOX: ColorPair = ((255, 255, 255), (0, 0, 0));

/// The colour of the player's health text.
pub const PLAYER_HEALTH_TEXT: ColorPair = ((255, 215, 0), (0, 0, 0));

/// The colour of the player's mana text.
pub const PLAYER_MANA_TEXT: ColorPair = ((255, 215, 0), (0, 0, 0));

/// The colour of the player's health bar.
pub const PLAYER_HEALTH_BAR: ColorPair = ((255, 0, 0), (0, 0, 0));

/// The colour of the player's mana bar.
pub const PLAYER_MANA_BAR: ColorPair = ((0, 0, 255), (0, 0, 0));

/// The colour of the tile under the mouse.
pub const MOUSE_CURSOR: U8Color = GOLD;

/// The colour of the tooltips.
pub const TOOLTIP: ColorPair = ((255, 215, 0), (105, 105, 105));

/// The colour of the health potion.
pub const POTION_HEALTH: ColorPair = ((255, 192, 203), (0, 0, 0));

/// The colour of dialog titles.
pub const DIALOG_TITLE: ColorPair = ((255, 255, 255), (0, 0, 0));

/// The colour of the button that closes a dialog.
pub const DIALOG_DISMISS_BUTTON: ColorPair = ((255, 215, 0), (0, 0, 0));

/// The colour of dialog frames.
pub const DIALOG_FRAME: ColorPair = ((255, 255, 255), (0, 0, 0));

/// The colour of dialog options.
pub const DIALOG_OPTION: ColorPair = ((255, 215, 0), (0, 0, 0));

/// The colour of the scroll of magic missile.
pub const SCROLL_MAGIC_MISSILE: ColorPair = ((255, 255, 255), (0, 0, 0));

/// The colour of the tiles in range of the item that the player aims.
pub const TILE_SELECTION: U8Color = PALEGOLDENROD;

/// The colour of the tile under the mouse when it is in range.
pub const TILE_SELECTION_SUCCESS: U8Color = GREEN;

/// The colour of the tile under the mouse when it is out of range.
pub const TILE_SELECTION_FAILED: U8Color = RED;

} // verus!
