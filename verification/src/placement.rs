//! The board assembler: places the starting tiles on an empty board, each at the
//! cell of its coordinate.

use crate::board::{pos_to_matrix_index, spec_index, Board};
use crate::tile::{tiles_model, TileInstance, TileModel};
use vstd::prelude::*;

verus! {

/// Why a board could not be assembled.
#[derive(Copy, Clone, Debug, PartialEq, Eq, Structural)]
pub enum PlacementError {
    /// The deck and the starting tiles together are more than `usize::MAX`.
    BoardTooLarge,
    /// Tiles `first` and `second` of the starting tiles map to one cell.
    PlacementCollision { first: usize, second: usize },
}

/// Whether no two of `coords` map to one cell of a board of size `n`.
pub open spec fn collision_free(coords: Seq<(i32, i32)>, n: usize) -> bool {
    forall|i: int, j: int|
        0 <= i < j < coords.len() ==> spec_index(#[trigger] coords[i], n) != spec_index(
            #[trigger] coords[j],
            n,
        )
}

/// Whether coordinate `i` of `coords` maps to the cell in row `row` and column
/// `col` of a board of size `n`.
pub open spec fn placed_at(coords: Seq<(i32, i32)>, n: usize, i: usize, row: int, col: int) -> bool {
    i < coords.len() && spec_index(coords[i as int], n) == (row, col)
}

/// Whether `r` is what assembling gives for the starting coordinates `coords`
/// and a deck of `deck_size` tiles.
///
/// The board has one row and one column for every tile, deck and starting tiles
/// together. Where no two coordinates map to one cell, the result is the board
/// on which the cell of coordinate `i` holds `i` and every other cell is empty.
/// Otherwise it is the collision of the first coordinate, `second`, whose cell
/// was taken, with the one that took it, `first`.
pub open spec fn assembled(
    coords: Seq<(i32, i32)>,
    deck_size: usize,
    r: Result<Board, PlacementError>,
) -> bool {
    let n = deck_size + coords.len();
    match r {
        Ok(board) => {
            &&& n <= usize::MAX
            &&& board.wf()
            &&& board.spec_size() == n
            &&& collision_free(coords, n as usize)
            &&& forall|row: int, col: int, i: usize|
                board.spec_cell(row, col) == Some(i) <==> #[trigger] placed_at(
                    coords,
                    n as usize,
                    i,
                    row,
                    col,
                )
        },
        Err(PlacementError::BoardTooLarge) => n > usize::MAX,
        Err(PlacementError::PlacementCollision { first, second }) => {
            &&& n <= usize::MAX
            &&& first < second < coords.len()
            &&& spec_index(coords[first as int], n as usize) == spec_index(
                coords[second as int],
                n as usize,
            )
            &&& collision_free(coords.take(second as int), n as usize)
        },
    }
}

/// Assembles the board for a deck of `deck_size` tiles and the starting tiles
/// with the coordinates `coords`: tile `i` goes to the cell of `coords[i]`.
///
/// Two tiles that map to one cell are an error, reported with their numbers, and
/// so is a board of more than `usize::MAX` rows.
pub fn assemble(coords: &Vec<(i32, i32)>, deck_size: usize) -> (r: Result<Board, PlacementError>)
    ensures
        assembled(coords@, deck_size, r),
{
    let n: usize = match deck_size.checked_add(coords.len()) {
        Some(n) => n,
        None => {
            return Err(PlacementError::BoardTooLarge);
        },
    };
    let mut board = Board::empty(n);
    let mut k: usize = 0;
    while k < coords.len()
        invariant
            k <= coords.len(),
            n == deck_size + coords.len(),
            board.wf(),
            board.spec_size() == n,
            collision_free(coords@.take(k as int), n),
            forall|row: int, col: int, i: usize|
                board.spec_cell(row, col) == Some(i) <==> #[trigger] placed_at(
                    coords@.take(k as int),
                    n,
                    i,
                    row,
                    col,
                ),
        decreases coords.len() - k,
    {
        let (row, col) = pos_to_matrix_index(coords[k], n);
        let ghost before = board;
        let ghost done = coords@.take(k as int);
        let ghost next = coords@.take(k + 1);
        match board.get(row, col) {
            Some(first) => {
                assert(placed_at(done, n, first, row as int, col as int));
                return Err(PlacementError::PlacementCollision { first, second: k });
            },
            None => {
                board.set(row, col, k);
            },
        }
        proof {
            assert forall|i: int, j: int| 0 <= i < j < next.len() implies spec_index(
                #[trigger] next[i],
                n,
            ) != spec_index(#[trigger] next[j], n) by {
                if j < k {
                    assert(spec_index(done[i], n) != spec_index(done[j], n));
                } else {
                    assert(!placed_at(done, n, i as usize, row as int, col as int));
                }
            }
            assert forall|r: int, c: int, i: usize|
                board.spec_cell(r, c) == Some(i) <==> #[trigger] placed_at(next, n, i, r, c) by {
                if i < k {
                    assert(placed_at(next, n, i, r, c) == placed_at(done, n, i, r, c));
                    assert(!placed_at(done, n, i, row as int, col as int));
                } else {
                    assert(!placed_at(done, n, i, r, c));
                }
            }
        }
        k += 1;
    }
    assert(coords@.take(k as int) =~= coords@);
    Ok(board)
}

/// The table that gives each starting tile its coordinate by the name of its
/// archetype. A name that the table does not list gets `fallback`.
#[derive(Debug, PartialEq, Eq)]
pub struct StartingLayout {
    pub places: Vec<(String, (i32, i32))>,
    pub fallback: (i32, i32),
}

/// The mathematical value of a `StartingLayout`.
pub struct LayoutModel {
    pub places: Seq<(Seq<char>, (i32, i32))>,
    pub fallback: (i32, i32),
}

impl View for StartingLayout {
    type V = LayoutModel;

    open spec fn view(&self) -> LayoutModel {
        LayoutModel {
            places: self.places@.map_values(|place: (String, (i32, i32))| (place.0@, place.1)),
            fallback: self.fallback,
        }
    }
}

/// The coordinate of the first of `places` with the name `name`, or `fallback`
/// where there is none.
pub open spec fn spec_place(
    places: Seq<(Seq<char>, (i32, i32))>,
    name: Seq<char>,
    fallback: (i32, i32),
) -> (i32, i32)
    decreases places.len(),
{
    if places.len() == 0 {
        fallback
    } else if places[0].0 == name {
        places[0].1
    } else {
        spec_place(places.drop_first(), name, fallback)
    }
}

impl LayoutModel {
    /// The coordinate that the table gives to a tile of the name `name`.
    pub open spec fn coord_of(self, name: Seq<char>) -> (i32, i32) {
        spec_place(self.places, name, self.fallback)
    }

    /// The coordinates that the table gives to `tiles`, in their order.
    pub open spec fn coords_of(self, tiles: Seq<TileModel>) -> Seq<(i32, i32)> {
        Seq::new(tiles.len(), |i: int| self.coord_of(tiles[i].name))
    }
}

/// The layout of the game: `CSS1` west of the center, `CSS2` on the center, and
/// every other starting tile east of the center.
pub open spec fn canonical_layout() -> LayoutModel {
    LayoutModel {
        places: seq![("CSS1"@, (-1i32, 0i32)), ("CSS2"@, (0i32, 0i32))],
        fallback: (1i32, 0i32),
    }
}

impl StartingLayout {
    /// The layout of the game.
    pub fn canonical() -> (layout: StartingLayout)
        ensures
            layout@ == canonical_layout(),
    {
        let mut places: Vec<(String, (i32, i32))> = Vec::new();
        places.push(("CSS1".to_owned(), (-1, 0)));
        places.push(("CSS2".to_owned(), (0, 0)));
        let layout = StartingLayout { places, fallback: (1, 0) };
        assert(layout@.places =~= canonical_layout().places);
        layout
    }

    /// The coordinate of a tile of the name `name`: that of the first place of
    /// that name, or the fallback where the table has none.
    pub fn coord_of(&self, name: &String) -> (coord: (i32, i32))
        ensures
            coord == self@.coord_of(name@),
    {
        let ghost places = self@.places;
        let mut i: usize = 0;
        assert(places.skip(0) =~= places);
        while i < self.places.len()
            invariant
                i <= self.places.len(),
                places == self@.places,
                places.len() == self.places@.len(),
                spec_place(places, name@, self.fallback) == spec_place(
                    places.skip(i as int),
                    name@,
                    self.fallback,
                ),
            decreases self.places.len() - i,
        {
            assert(places.skip(i as int)[0] == places[i as int]);
            assert(places[i as int] == (self.places@[i as int].0@, self.places@[i as int].1));
            if self.places[i].0 == *name {
                return self.places[i].1;
            }
            assert(places.skip(i as int).drop_first() =~= places.skip(i + 1));
            i += 1;
        }
        self.fallback
    }
}

/// The three places of the game never collide: west of the center, the center
/// and east of the center are three cells of every board that has room for the
/// three tiles.
pub proof fn lemma_canonical_places_are_free(deck_size: usize)
    requires
        deck_size + 3 <= usize::MAX,
    ensures
        collision_free(seq![(-1i32, 0i32), (0i32, 0i32), (1i32, 0i32)], (deck_size + 3) as usize),
{
}

/// Places the starting tiles: each goes to the cell of the coordinate that
/// `layout` gives to its name, on a board with room for them and for a deck of
/// `deck_size` tiles. The cell of tile `i` then holds `i`.
pub fn place_starting(tiles: &Vec<TileInstance>, layout: &StartingLayout, deck_size: usize) -> (r:
    Result<Board, PlacementError>)
    ensures
        assembled(layout@.coords_of(tiles_model(tiles@)), deck_size, r),
{
    let mut coords: Vec<(i32, i32)> = Vec::new();
    let mut i: usize = 0;
    while i < tiles.len()
        invariant
            i <= tiles.len(),
            coords@.len() == i,
            forall|t: int|
                0 <= t < i ==> #[trigger] coords@[t] == layout@.coord_of(tiles@[t]@.name),
        decreases tiles.len() - i,
    {
        coords.push(layout.coord_of(&tiles[i].name.0));
        i += 1;
    }
    assert(coords@ =~= layout@.coords_of(tiles_model(tiles@)));
    assemble(&coords, deck_size)
}

} // verus!
