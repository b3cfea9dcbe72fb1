//! The vocabulary of a tile: its four sides, the land on an edge and the animals.

use vstd::prelude::*;
use vstd::string::*;

verus! {

/// One of the four edges of a tile.
#[derive(Copy, Clone, PartialEq, Eq, Structural, Debug)]
pub enum Sides {
    North,
    East,
    South,
    West,
}

/// The terrain on an edge of a tile.
#[derive(Copy, Clone, PartialEq, Eq, Structural, Debug)]
pub enum Land {
    Trail,
    Bush,
    Savanna,
}

/// The animal that lives on a trail or in a bush.
#[derive(Copy, Clone, PartialEq, Eq, Structural, Debug)]
pub enum Animal {
    Monkey,
    Elephant,
    Giraffe,
    Lion,
    Zebra,
    NoAnimal,
}

/// Whether `code` is the one-letter code `letter`.
pub open spec fn is_code(code: Seq<char>, letter: char) -> bool {
    code.len() == 1 && code[0] == letter
}

/// The side that a side code stands for: `N`, `E` and `S` are north, east and
/// south; every other code, `W` among them, is west.
pub open spec fn spec_side(code: Seq<char>) -> Sides {
    if is_code(code, 'N') {
        Sides::North
    } else if is_code(code, 'E') {
        Sides::East
    } else if is_code(code, 'S') {
        Sides::South
    } else {
        Sides::West
    }
}

/// The animal that an animal code stands for: `M`, `E`, `G`, `L` and `Z` are the
/// five animals; every other code is no animal.
pub open spec fn spec_animal(code: Seq<char>) -> Animal {
    if is_code(code, 'M') {
        Animal::Monkey
    } else if is_code(code, 'E') {
        Animal::Elephant
    } else if is_code(code, 'G') {
        Animal::Giraffe
    } else if is_code(code, 'L') {
        Animal::Lion
    } else if is_code(code, 'Z') {
        Animal::Zebra
    } else {
        Animal::NoAnimal
    }
}

/// The only character of `s`, if `s` has exactly one.
fn single_char(s: &str) -> (r: Option<char>)
    ensures
        match r {
            Some(c) => s@.len() == 1 && s@[0] == c,
            None => s@.len() != 1,
        },
{
    if s.unicode_len() == 1 {
        Some(s.get_char(0))
    } else {
        None
    }
}

impl Sides {
    /// The slot of this side in an array of four edges.
    pub open spec fn spec_to_index(self) -> int {
        match self {
            Sides::North => 0,
            Sides::East => 1,
            Sides::South => 2,
            Sides::West => 3,
        }
    }

    /// Reads a side code. The fallback is deliberate: a code that is none of
    /// `N`, `E`, `S` reads as west.
    pub fn from_string(s: &String) -> (side: Sides)
        ensures
            side == spec_side(s@),
    {
        match single_char(s.as_str()) {
            Some('N') => Sides::North,
            Some('E') => Sides::East,
            Some('S') => Sides::South,
            _ => Sides::West,
        }
    }

    /// The slot of this side in an array of four edges: north 0, east 1, south 2,
    /// west 3.
    pub fn to_index(&self) -> (i: usize)
        ensures
            i == self.spec_to_index(),
            i < 4,
    {
        match self {
            Sides::North => 0,
            Sides::East => 1,
            Sides::South => 2,
            Sides::West => 3,
        }
    }
}

impl Animal {
    /// Reads an animal code. The fallback is deliberate: a code that names none of
    /// the five animals reads as `Animal::NoAnimal`, never as an error.
    pub fn from_string(s: String) -> (animal: Animal)
        ensures
            animal == spec_animal(s@),
    {
        match single_char(s.as_str()) {
            Some('M') => Animal::Monkey,
            Some('E') => Animal::Elephant,
            Some('G') => Animal::Giraffe,
            Some('L') => Animal::Lion,
            Some('Z') => Animal::Zebra,
            _ => Animal::NoAnimal,
        }
    }
}

} // verus!
