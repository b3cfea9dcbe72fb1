//! Tile archetypes: the catalog-level definition of a family of tiles, and the
//! reader that takes archetypes out of a JSON catalog.

use crate::json::{spec_member, JsonValue};
use crate::terrain::{spec_side, Sides};
use vstd::prelude::*;

verus! {

/// A group of sides that one bush covers, with the number of birds in the bush.
#[derive(Debug, PartialEq, Eq)]
pub struct BushGroup {
    pub sides: Vec<Sides>,
    pub birds: u32,
}

/// The mathematical value of a `BushGroup`.
pub struct BushGroupModel {
    pub sides: Seq<Sides>,
    pub birds: u32,
}

impl View for BushGroup {
    type V = BushGroupModel;

    open spec fn view(&self) -> BushGroupModel {
        BushGroupModel { sides: self.sides@, birds: self.birds }
    }
}

/// A family of tiles as the catalog defines it.
///
/// Each row of `variations` holds one animal code for every trail group, in the
/// order of `trails`, and after them one for every bush group, in the order of
/// `bushes`.
#[derive(Debug, PartialEq, Eq)]
pub struct TileArchetype {
    pub trails: Vec<Vec<Sides>>,
    pub bushes: Vec<BushGroup>,
    pub baobab: bool,
    pub variations: Vec<Vec<String>>,
}

/// The mathematical value of a `TileArchetype`.
pub struct ArchetypeModel {
    pub trails: Seq<Seq<Sides>>,
    pub bushes: Seq<BushGroupModel>,
    pub baobab: bool,
    pub variations: Seq<Seq<Seq<char>>>,
}

/// The groups of sides that a list of vectors holds.
pub open spec fn groups_model(groups: Seq<Vec<Sides>>) -> Seq<Seq<Sides>> {
    groups.map_values(|group: Vec<Sides>| group@)
}

/// The codes that a list of strings holds.
pub open spec fn codes_model(codes: Seq<String>) -> Seq<Seq<char>> {
    codes.map_values(|code: String| code@)
}

/// The rows of codes that a list of vectors of strings holds.
pub open spec fn rows_model(rows: Seq<Vec<String>>) -> Seq<Seq<Seq<char>>> {
    rows.map_values(|row: Vec<String>| codes_model(row@))
}

/// The bush groups that a list of `BushGroup` holds.
pub open spec fn bushes_model(bushes: Seq<BushGroup>) -> Seq<BushGroupModel> {
    bushes.map_values(|bush: BushGroup| bush@)
}

impl View for TileArchetype {
    type V = ArchetypeModel;

    open spec fn view(&self) -> ArchetypeModel {
        ArchetypeModel {
            trails: groups_model(self.trails@),
            bushes: bushes_model(self.bushes@),
            baobab: self.baobab,
            variations: rows_model(self.variations@),
        }
    }
}

impl ArchetypeModel {
    /// The groups of sides that the bushes cover, in the order of `bushes`.
    pub open spec fn bush_sides(self) -> Seq<Seq<Sides>> {
        self.bushes.map_values(|bush: BushGroupModel| bush.sides)
    }

    /// The number of animal codes that every row of `variations` has to supply.
    pub open spec fn slots(self) -> nat {
        self.trails.len() + self.bushes.len()
    }
}

/// The value of a JSON array whose every item `item` reads; `None` for anything
/// else.
pub open spec fn json_list<T>(value: JsonValue, item: spec_fn(JsonValue) -> Option<T>) -> Option<
    Seq<T>,
> {
    match value {
        JsonValue::Array(items) => {
            if forall|i: int| 0 <= i < items@.len() ==> item(#[trigger] items@[i]) is Some {
                Some(Seq::new(items@.len(), |i: int| item(items@[i]).unwrap()))
            } else {
                None
            }
        },
        _ => None,
    }
}

/// The characters of a JSON string.
pub open spec fn json_text(value: JsonValue) -> Option<Seq<char>> {
    match value {
        JsonValue::Text(text) => Some(text@),
        _ => None,
    }
}

/// The side that a JSON string names.
pub open spec fn json_side(value: JsonValue) -> Option<Sides> {
    match value {
        JsonValue::Text(code) => Some(spec_side(code@)),
        _ => None,
    }
}

/// A JSON array of side codes.
pub open spec fn json_sides(value: JsonValue) -> Option<Seq<Sides>> {
    json_list(value, |item: JsonValue| json_side(item))
}

/// A JSON array of arrays of side codes.
pub open spec fn json_trails(value: JsonValue) -> Option<Seq<Seq<Sides>>> {
    json_list(value, |item: JsonValue| json_sides(item))
}

/// A JSON array of strings.
pub open spec fn json_codes(value: JsonValue) -> Option<Seq<Seq<char>>> {
    json_list(value, |item: JsonValue| json_text(item))
}

/// A JSON array of arrays of strings.
pub open spec fn json_variations(value: JsonValue) -> Option<Seq<Seq<Seq<char>>>> {
    json_list(value, |item: JsonValue| json_codes(item))
}

/// A JSON boolean.
pub open spec fn json_flag(value: JsonValue) -> Option<bool> {
    match value {
        JsonValue::Bool(flag) => Some(flag),
        _ => None,
    }
}

/// A JSON number that is a whole number from 0 up to `u32::MAX`.
pub open spec fn json_count(value: JsonValue) -> Option<u32> {
    match value {
        JsonValue::Number(Some(n)) => if n <= u32::MAX {
            Some(n as u32)
        } else {
            None
        },
        _ => None,
    }
}

/// A JSON object with a member `sides`, an array of side codes, and a member
/// `birds`, a count. Other members are passed over.
pub open spec fn json_bush(value: JsonValue) -> Option<BushGroupModel> {
    match (value.spec_get("sides"@), value.spec_get("birds"@)) {
        (Some(sides), Some(birds)) => match (json_sides(sides), json_count(birds)) {
            (Some(sides), Some(birds)) => Some(BushGroupModel { sides, birds }),
            _ => None,
        },
        _ => None,
    }
}

/// A JSON array of bush objects.
pub open spec fn json_bushes(value: JsonValue) -> Option<Seq<BushGroupModel>> {
    json_list(value, |item: JsonValue| json_bush(item))
}

/// The archetype that a JSON value defines: an object with the members `trails`,
/// `bushes`, `baobab` and `variations`, each of its own shape. Other members are
/// passed over. `None` where a member is missing or of another shape.
pub open spec fn json_archetype(value: JsonValue) -> Option<ArchetypeModel> {
    match (
        value.spec_get("trails"@),
        value.spec_get("bushes"@),
        value.spec_get("baobab"@),
        value.spec_get("variations"@),
    ) {
        (Some(trails), Some(bushes), Some(baobab), Some(variations)) => match (
            json_trails(trails),
            json_bushes(bushes),
            json_flag(baobab),
            json_variations(variations),
        ) {
            (Some(trails), Some(bushes), Some(baobab), Some(variations)) => Some(
                ArchetypeModel { trails, bushes, baobab, variations },
            ),
            _ => None,
        },
        _ => None,
    }
}

/// Reads a JSON array of side codes.
#[verifier::loop_isolation(false)]
fn read_sides(value: &JsonValue) -> (r: Option<Vec<Sides>>)
    ensures
        match r {
            Some(sides) => json_sides(*value) == Some(sides@),
            None => json_sides(*value) is None,
        },
{
    match value {
        JsonValue::Array(items) => {
            let mut sides: Vec<Sides> = Vec::new();
            let mut i: usize = 0;
            while i < items.len()
                invariant
                    i <= items.len(),
                    sides@.len() == i,
                    forall|j: int| 0 <= j < i ==> json_side(#[trigger] items@[j]) == Some(sides@[j]),
                decreases items.len() - i,
            {
                match &items[i] {
                    JsonValue::Text(code) => {
                        sides.push(Sides::from_string(code));
                    },
                    _ => {
                        assert(json_side(items@[i as int]) is None);
                        return None;
                    },
                }
                i += 1;
            }
            assert(json_sides(*value).unwrap() =~= sides@);
            Some(sides)
        },
        _ => None,
    }
}

/// Reads a JSON array of arrays of side codes.
#[verifier::loop_isolation(false)]
fn read_trails(value: &JsonValue) -> (r: Option<Vec<Vec<Sides>>>)
    ensures
        match r {
            Some(trails) => json_trails(*value) == Some(groups_model(trails@)),
            None => json_trails(*value) is None,
        },
{
    match value {
        JsonValue::Array(items) => {
            let mut trails: Vec<Vec<Sides>> = Vec::new();
            let mut i: usize = 0;
            while i < items.len()
                invariant
                    i <= items.len(),
                    trails@.len() == i,
                    forall|j: int| 0 <= j < i ==> json_sides(#[trigger] items@[j]) == Some(trails@[j]@),
                decreases items.len() - i,
            {
                match read_sides(&items[i]) {
                    Some(group) => {
                        trails.push(group);
                    },
                    None => {
                        assert(json_sides(items@[i as int]) is None);
                        return None;
                    },
                }
                i += 1;
            }
            assert(json_trails(*value).unwrap() =~= groups_model(trails@));
            Some(trails)
        },
        _ => None,
    }
}

/// Reads a JSON array of strings.
#[verifier::loop_isolation(false)]
fn read_codes(value: &JsonValue) -> (r: Option<Vec<String>>)
    ensures
        match r {
            Some(codes) => json_codes(*value) == Some(codes_model(codes@)),
            None => json_codes(*value) is None,
        },
{
    match value {
        JsonValue::Array(items) => {
            let mut codes: Vec<String> = Vec::new();
            let mut i: usize = 0;
            while i < items.len()
                invariant
                    i <= items.len(),
                    codes@.len() == i,
                    forall|j: int| 0 <= j < i ==> json_text(#[trigger] items@[j]) == Some(codes@[j]@),
                decreases items.len() - i,
            {
                match &items[i] {
                    JsonValue::Text(code) => {
                        codes.push(code.clone());
                    },
                    _ => {
                        assert(json_text(items@[i as int]) is None);
                        return None;
                    },
                }
                i += 1;
            }
            assert(json_codes(*value).unwrap() =~= codes_model(codes@));
            Some(codes)
        },
        _ => None,
    }
}

/// Reads a JSON array of arrays of strings.
#[verifier::loop_isolation(false)]
fn read_variations(value: &JsonValue) -> (r: Option<Vec<Vec<String>>>)
    ensures
        match r {
            Some(rows) => json_variations(*value) == Some(rows_model(rows@)),
            None => json_variations(*value) is None,
        },
{
    match value {
        JsonValue::Array(items) => {
            let mut rows: Vec<Vec<String>> = Vec::new();
            let mut i: usize = 0;
            while i < items.len()
                invariant
                    i <= items.len(),
                    rows@.len() == i,
                    forall|j: int|
                        0 <= j < i ==> json_codes(#[trigger] items@[j]) == Some(
                            codes_model(rows@[j]@),
                        ),
                decreases items.len() - i,
            {
                match read_codes(&items[i]) {
                    Some(row) => {
                        rows.push(row);
                    },
                    None => {
                        assert(json_codes(items@[i as int]) is None);
                        return None;
                    },
                }
                i += 1;
            }
            assert(json_variations(*value).unwrap() =~= rows_model(rows@));
            Some(rows)
        },
        _ => None,
    }
}

/// Reads a count that fits 32 bits.
fn read_count(value: &JsonValue) -> (r: Option<u32>)
    ensures
        r == json_count(*value),
{
    match value {
        JsonValue::Number(Some(n)) => {
            if *n <= 0xffff_ffff {
                Some(*n as u32)
            } else {
                None
            }
        },
        _ => None,
    }
}

/// Reads a JSON boolean.
fn read_flag(value: &JsonValue) -> (r: Option<bool>)
    ensures
        r == json_flag(*value),
{
    match value {
        JsonValue::Bool(flag) => Some(*flag),
        _ => None,
    }
}

/// Reads a bush object.
fn read_bush(value: &JsonValue) -> (r: Option<BushGroup>)
    ensures
        match r {
            Some(bush) => json_bush(*value) == Some(bush@),
            None => json_bush(*value) is None,
        },
{
    let sides_key = "sides".to_owned();
    let birds_key = "birds".to_owned();
    let sides = match value.get(&sides_key) {
        Some(member) => read_sides(member),
        None => None,
    };
    let birds = match value.get(&birds_key) {
        Some(member) => read_count(member),
        None => None,
    };
    match (sides, birds) {
        (Some(sides), Some(birds)) => Some(BushGroup { sides, birds }),
        _ => None,
    }
}

/// Reads a JSON array of bush objects.
#[verifier::loop_isolation(false)]
fn read_bushes(value: &JsonValue) -> (r: Option<Vec<BushGroup>>)
    ensures
        match r {
            Some(bushes) => json_bushes(*value) == Some(bushes_model(bushes@)),
            None => json_bushes(*value) is None,
        },
{
    match value {
        JsonValue::Array(items) => {
            let mut bushes: Vec<BushGroup> = Vec::new();
            let mut i: usize = 0;
            while i < items.len()
                invariant
                    i <= items.len(),
                    bushes@.len() == i,
                    forall|j: int| 0 <= j < i ==> json_bush(#[trigger] items@[j]) == Some(bushes@[j]@),
                decreases items.len() - i,
            {
                match read_bush(&items[i]) {
                    Some(bush) => {
                        bushes.push(bush);
                    },
                    None => {
                        assert(json_bush(items@[i as int]) is None);
                        return None;
                    },
                }
                i += 1;
            }
            assert(json_bushes(*value).unwrap() =~= bushes_model(bushes@));
            Some(bushes)
        },
        _ => None,
    }
}

impl TileArchetype {
    /// Reads one archetype from its JSON definition. The result is `None`
    /// exactly where the value does not have the shape of an archetype: where it
    /// is no object, where one of `trails`, `bushes`, `baobab`, `variations` is
    /// missing, or where one of them has another shape than its own.
    pub fn from_json(json: &JsonValue) -> (r: Option<TileArchetype>)
        ensures
            match r {
                Some(archetype) => json_archetype(*json) == Some(archetype@),
                None => json_archetype(*json) is None,
            },
    {
        let trails_key = "trails".to_owned();
        let bushes_key = "bushes".to_owned();
        let baobab_key = "baobab".to_owned();
        let variations_key = "variations".to_owned();
        let trails = match json.get(&trails_key) {
            Some(member) => read_trails(member),
            None => None,
        };
        let bushes = match json.get(&bushes_key) {
            Some(member) => read_bushes(member),
            None => None,
        };
        let baobab = match json.get(&baobab_key) {
            Some(member) => read_flag(member),
            None => None,
        };
        let variations = match json.get(&variations_key) {
            Some(member) => read_variations(member),
            None => None,
        };
        match (trails, bushes, baobab, variations) {
            (Some(trails), Some(bushes), Some(baobab), Some(variations)) => Some(
                TileArchetype { trails, bushes, baobab, variations },
            ),
            _ => None,
        }
    }
}

} // verus!
