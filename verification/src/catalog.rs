//! The catalog: the archetypes of one section of the JSON catalog, by name.

use crate::archetype::{json_archetype, ArchetypeModel, TileArchetype};
use crate::json::{
    lemma_member_is_wf, member_names, parse_json, parsed_json, FatalParse, JsonValue,
};
use vstd::prelude::*;

verus! {

/// The archetypes of one section of the catalog, each under the name of its
/// member, in the order of the members.
#[derive(Debug, PartialEq, Eq)]
pub struct Catalog {
    pub entries: Vec<(String, TileArchetype)>,
}

impl View for Catalog {
    type V = Seq<(Seq<char>, ArchetypeModel)>;

    open spec fn view(&self) -> Seq<(Seq<char>, ArchetypeModel)> {
        self.entries@.map_values(|entry: (String, TileArchetype)| (entry.0@, entry.1@))
    }
}

/// The names of the entries of a catalog, in their order.
pub open spec fn entry_names(entries: Seq<(Seq<char>, ArchetypeModel)>) -> Seq<Seq<char>> {
    entries.map_values(|entry: (Seq<char>, ArchetypeModel)| entry.0)
}

/// The entries that the members of a section give: every member that has the
/// shape of an archetype, under its name and in its place; the others are left
/// out.
pub open spec fn spec_entries(members: Seq<(String, JsonValue)>) -> Seq<(Seq<char>, ArchetypeModel)>
    decreases members.len(),
{
    if members.len() == 0 {
        Seq::empty()
    } else {
        let before = spec_entries(members.drop_last());
        match json_archetype(members.last().1) {
            Some(archetype) => before.push((members.last().0@, archetype)),
            None => before,
        }
    }
}

/// The catalog of the section `section` of `root`: empty where `root` has no
/// such member or the member is no object.
pub open spec fn spec_catalog(root: JsonValue, section: Seq<char>) -> Seq<(Seq<char>, ArchetypeModel)> {
    match root.spec_get(section) {
        Some(JsonValue::Object(members)) => spec_entries(members@),
        _ => Seq::empty(),
    }
}

/// Every entry of a section has the name of one of its members.
pub proof fn lemma_entry_names_are_member_names(members: Seq<(String, JsonValue)>, k: int)
    requires
        0 <= k < spec_entries(members).len(),
    ensures
        exists|j: int| 0 <= j < members.len() && (#[trigger] members[j]).0@ == spec_entries(members)[k].0,
    decreases members.len(),
{
    let before = spec_entries(members.drop_last());
    if k < before.len() {
        lemma_entry_names_are_member_names(members.drop_last(), k);
        let j = choose|j: int|
            0 <= j < members.drop_last().len() && (#[trigger] members.drop_last()[j]).0@
                == before[k].0;
        assert(members[j].0@ == spec_entries(members)[k].0);
    } else {
        assert(members[members.len() - 1].0@ == spec_entries(members)[k].0);
    }
}

/// A section whose members have distinct names gives a catalog whose entries
/// have distinct names: the catalog is then a mapping from names to archetypes.
pub proof fn lemma_distinct_names_stay_distinct(members: Seq<(String, JsonValue)>)
    requires
        member_names(members).no_duplicates(),
    ensures
        entry_names(spec_entries(members)).no_duplicates(),
    decreases members.len(),
{
    if members.len() > 0 {
        let front = members.drop_last();
        let before = spec_entries(front);
        assert forall|i: int, j: int|
            0 <= i < front.len() && 0 <= j < front.len() && i != j implies member_names(front)[i]
            != member_names(front)[j] by {
            assert(member_names(members)[i] != member_names(members)[j]);
        }
        lemma_distinct_names_stay_distinct(front);
        let all = spec_entries(members);
        assert forall|i: int, j: int|
            0 <= i < all.len() && 0 <= j < all.len() && i != j implies entry_names(all)[i]
            != entry_names(all)[j] by {
            if i < before.len() && j < before.len() {
                assert(entry_names(before)[i] != entry_names(before)[j]);
            } else {
                let low = if i < j {
                    i
                } else {
                    j
                };
                lemma_entry_names_are_member_names(front, low);
                let m = choose|m: int|
                    0 <= m < front.len() && (#[trigger] front[m]).0@ == before[low].0;
                assert(member_names(members)[m] != member_names(members)[members.len() - 1]);
            }
        }
    }
}

/// Reads the members of a section.
fn read_entries(members: &Vec<(String, JsonValue)>) -> (entries: Vec<(String, TileArchetype)>)
    ensures
        entries@.map_values(|entry: (String, TileArchetype)| (entry.0@, entry.1@)) == spec_entries(
            members@,
        ),
{
    let mut entries: Vec<(String, TileArchetype)> = Vec::new();
    let mut i: usize = 0;
    assert(members@.take(0) =~= Seq::empty());
    while i < members.len()
        invariant
            i <= members.len(),
            entries@.map_values(|entry: (String, TileArchetype)| (entry.0@, entry.1@))
                =~= spec_entries(members@.take(i as int)),
        decreases members.len() - i,
    {
        assert(members@.take(i + 1).drop_last() =~= members@.take(i as int));
        assert(members@.take(i + 1).last() == members@[i as int]);
        match TileArchetype::from_json(&members[i].1) {
            Some(archetype) => {
                entries.push((members[i].0.clone(), archetype));
            },
            None => {},
        }
        i += 1;
    }
    assert(members@.take(i as int) =~= members@);
    entries
}

/// Takes the archetypes of the section `section_key` out of the catalog `root`.
///
/// Where `root` has no member of that name, or the member is no object, the
/// catalog is empty. A member of the section that does not have the shape of an
/// archetype is left out; the others are read whatever it holds.
///
/// Where no object of `root` has two members of one name, no two entries of the
/// catalog have one name: the catalog is then a mapping from names to
/// archetypes.
pub fn parse_catalog(root: &JsonValue, section_key: &str) -> (catalog: Catalog)
    ensures
        catalog@ == spec_catalog(*root, section_key@),
        root.wf() ==> entry_names(catalog@).no_duplicates(),
{
    let key = section_key.to_owned();
    match root.get(&key) {
        Some(JsonValue::Object(members)) => {
            proof {
                if root.wf() {
                    lemma_member_is_wf(*root, key@);
                    lemma_distinct_names_stay_distinct(members@);
                }
            }
            Catalog { entries: read_entries(members) }
        },
        _ => Catalog { entries: Vec::new() },
    }
}

/// Reads the JSON text of a catalog and takes the archetypes of one section out
/// of it. The text is read by `serde_json`; where it is not well-formed JSON the
/// result is `FatalParse`. No two entries of the catalog have one name.
pub fn load_catalog(text: &str, section_key: &str) -> (r: Result<Catalog, FatalParse>)
    ensures
        match r {
            Ok(catalog) => {
                &&& parsed_json(text@) matches Some(root) && catalog@ == spec_catalog(
                    root,
                    section_key@,
                )
                &&& entry_names(catalog@).no_duplicates()
            },
            Err(_) => parsed_json(text@) is None,
        },
{
    match parse_json(text) {
        Ok(root) => Ok(parse_catalog(&root, section_key)),
        Err(error) => Err(error),
    }
}

} // verus!
