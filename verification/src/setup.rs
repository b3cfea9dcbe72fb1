//! The two steps of setting a game up: making the deck, and making and placing
//! the starting tiles.

use crate::catalog::{parse_catalog, spec_catalog};
use crate::json::JsonValue;
use crate::placement::{assembled, canonical_layout, place_starting, PlacementError, StartingLayout};
use crate::board::Board;
use crate::tile::{
    expand, spec_expand, tiles_model, ArityModel, TileInstance, TileModel, VariationArityError,
};
use vstd::prelude::*;

verus! {

/// The tiles that are not on the board yet. They lie face down.
#[derive(Debug, PartialEq, Eq)]
pub struct Deck {
    pub tiles: Vec<TileInstance>,
}

impl View for Deck {
    type V = Seq<TileModel>;

    open spec fn view(&self) -> Seq<TileModel> {
        tiles_model(self.tiles@)
    }
}

impl Deck {
    /// The number of tiles in the deck.
    pub fn len(&self) -> (n: usize)
        ensures
            n == self@.len(),
    {
        self.tiles.len()
    }
}

/// The values of a list of failures.
pub open spec fn failures_model(failures: Seq<VariationArityError>) -> Seq<ArityModel> {
    failures.map_values(|failure: VariationArityError| failure@)
}

/// The starting tiles and the board that they were placed on. The cell of tile
/// `i` of `tiles` holds `i`.
#[derive(Debug, PartialEq, Eq)]
pub struct StartingTiles {
    pub tiles: Vec<TileInstance>,
    pub failures: Vec<VariationArityError>,
    pub board: Board,
}

/// Makes the deck: the tiles of the section `tiles` of the catalog, face down,
/// in the order of the catalog. With the deck come the failures: the archetypes
/// that were not expanded because one of their variation rows is too short.
pub fn spawn_all_tiles(root: &JsonValue) -> (r: (Deck, Vec<VariationArityError>))
    ensures
        r.0@ == spec_expand(spec_catalog(*root, "tiles"@), false).tiles,
        failures_model(r.1@) == spec_expand(spec_catalog(*root, "tiles"@), false).failures,
{
    let catalog = parse_catalog(root, "tiles");
    let expansion = expand(&catalog, false);
    (Deck { tiles: expansion.tiles }, expansion.failures)
}

/// Makes the starting tiles and places them: the tiles of the section
/// `starting_tile` of the catalog, face up, each on the cell that the layout of
/// the game gives to its name, on a board with room for them and for a deck of
/// `deck_size` tiles.
///
/// Two starting tiles that map to one cell are an error, and so is a board of
/// more than `usize::MAX` rows.
pub fn spawn_starting_tiles(root: &JsonValue, deck_size: usize) -> (r: Result<
    StartingTiles,
    PlacementError,
>)
    ensures
        ({
            let made = spec_expand(spec_catalog(*root, "starting_tile"@), true);
            let coords = canonical_layout().coords_of(made.tiles);
            match r {
                Ok(start) => {
                    &&& tiles_model(start.tiles@) == made.tiles
                    &&& failures_model(start.failures@) == made.failures
                    &&& assembled(coords, deck_size, Ok(start.board))
                },
                Err(error) => assembled(coords, deck_size, Err(error)),
            }
        }),
{
    let catalog = parse_catalog(root, "starting_tile");
    let expansion = expand(&catalog, true);
    let layout = StartingLayout::canonical();
    match place_starting(&expansion.tiles, &layout, deck_size) {
        Ok(board) => Ok(
            StartingTiles { tiles: expansion.tiles, failures: expansion.failures, board },
        ),
        Err(error) => Err(error),
    }
}

} // verus!
