//! JSON values as the catalog reader sees them, and the bridge to `serde_json`,
//! which reads the text.

use vstd::prelude::*;

verus! {

/// A JSON value.
///
/// An object is the list of its members; where a name occurs more than once,
/// lookups find the first member of that name. A number keeps its value only
/// when it is a whole number from 0 up to `u64::MAX`; a negative or fractional
/// number is `Number(None)`.
#[derive(Debug, PartialEq, Eq)]
pub enum JsonValue {
    Null,
    Bool(bool),
    Number(Option<u64>),
    Text(String),
    Array(Vec<JsonValue>),
    Object(Vec<(String, JsonValue)>),
}

/// The names of the members of an object, in their order.
pub open spec fn member_names(members: Seq<(String, JsonValue)>) -> Seq<Seq<char>> {
    members.map_values(|member: (String, JsonValue)| member.0@)
}

/// The first member of the name `name` among `members`, if there is one.
pub open spec fn spec_member(members: Seq<(String, JsonValue)>, name: Seq<char>) -> Option<
    JsonValue,
>
    decreases members.len(),
{
    if members.len() == 0 {
        None
    } else if members[0].0@ == name {
        Some(members[0].1)
    } else {
        spec_member(members.drop_first(), name)
    }
}

impl JsonValue {
    /// No object in this value, at any depth, has two members of one name.
    pub open spec fn wf(self) -> bool
        decreases self,
    {
        match self {
            JsonValue::Array(items) => forall|i: int|
                0 <= i < items@.len() ==> (#[trigger] items@[i]).wf(),
            JsonValue::Object(members) => {
                &&& member_names(members@).no_duplicates()
                &&& forall|i: int| 0 <= i < members@.len() ==> (#[trigger] members@[i]).1.wf()
            },
            _ => true,
        }
    }

    /// The member of the name `name`, where this value is an object that has one.
    pub open spec fn spec_get(self, name: Seq<char>) -> Option<JsonValue> {
        match self {
            JsonValue::Object(members) => spec_member(members@, name),
            _ => None,
        }
    }

    /// Looks a member up by name. The result is `None` where this value is no
    /// object or has no member of that name.
    pub fn get(&self, name: &String) -> (r: Option<&JsonValue>)
        ensures
            match r {
                Some(member) => self.spec_get(name@) == Some(*member),
                None => self.spec_get(name@) is None,
            },
    {
        match self {
            JsonValue::Object(members) => find_member(members, name),
            _ => None,
        }
    }
}

/// The first member of the name `name` among `members`.
fn find_member<'a>(members: &'a Vec<(String, JsonValue)>, name: &String) -> (r: Option<
    &'a JsonValue,
>)
    ensures
        match r {
            Some(member) => spec_member(members@, name@) == Some(*member),
            None => spec_member(members@, name@) is None,
        },
{
    let mut i: usize = 0;
    assert(members@.skip(0) =~= members@);
    while i < members.len()
        invariant
            i <= members.len(),
            spec_member(members@, name@) == spec_member(members@.skip(i as int), name@),
        decreases members.len() - i,
    {
        assert(members@.skip(i as int)[0] == members@[i as int]);
        if members[i].0 == *name {
            return Some(&members[i].1);
        }
        assert(members@.skip(i as int).drop_first() =~= members@.skip(i + 1));
        i += 1;
    }
    None
}

/// A member of a well-formed value is well formed.
pub proof fn lemma_member_is_wf(value: JsonValue, name: Seq<char>)
    requires
        value.wf(),
    ensures
        value.spec_get(name) matches Some(member) ==> member.wf(),
{
    if let JsonValue::Object(members) = value {
        lemma_found_member_is_wf(members@, name);
    }
}

/// The member that a lookup finds among well-formed members is well formed.
proof fn lemma_found_member_is_wf(members: Seq<(String, JsonValue)>, name: Seq<char>)
    requires
        forall|i: int| 0 <= i < members.len() ==> (#[trigger] members[i]).1.wf(),
    ensures
        spec_member(members, name) matches Some(member) ==> member.wf(),
    decreases members.len(),
{
    if members.len() > 0 && members[0].0@ != name {
        let rest = members.drop_first();
        assert forall|i: int| 0 <= i < rest.len() implies (#[trigger] rest[i]).1.wf() by {
            assert(rest[i] == members[i + 1]);
        }
        lemma_found_member_is_wf(rest, name);
    }
}

/// The text is not well-formed JSON.
#[derive(Copy, Clone, Debug, PartialEq, Eq, Structural)]
pub struct FatalParse;

/// `serde_json::Value`, carried from the reader to the copy; nothing is known of
/// what is inside.
#[verifier::external_type_specification]
#[verifier::external_body]
pub struct ExValue(serde_json::Value);

/// `serde_json::Error`, the error of the reader; nothing is known of what is
/// inside.
#[verifier::external_type_specification]
#[verifier::external_body]
pub struct ExError(serde_json::Error);

/// What `serde_json::from_str` reads from a text: the value, or `None` where it
/// reports an error.
pub uninterp spec fn parsed_json(text: Seq<char>) -> Option<JsonValue>;

/// What a `serde_json::Value` holds, as a `JsonValue`.
pub uninterp spec fn json_tree(value: serde_json::Value) -> JsonValue;

/// `serde_json::from_str`, reading a `serde_json::Value`. Nothing is proved of
/// it; the contract only says that the outcome depends on the text alone and
/// gives it the name `parsed_json`.
#[verifier::external_body]
fn read_value(text: &str) -> (r: Result<serde_json::Value, serde_json::Error>)
    ensures
        match r {
            Ok(value) => parsed_json(text@) == Some(json_tree(value)),
            Err(_) => parsed_json(text@) is None,
        },
{
    serde_json::from_str::<serde_json::Value>(text)
}

/// Copies a `serde_json::Value` into a `JsonValue`, variant by variant: members
/// in the order of `serde_json::Map::iter`, numbers through
/// `serde_json::Number::as_u64`. Nothing is proved of it. The contract gives the
/// copy the name `json_tree`, and claims that no object of the copy has two
/// members of one name: a `serde_json::Map` holds one value for each key.
#[verifier::external_body]
fn lower(value: &serde_json::Value) -> (r: JsonValue)
    ensures
        r == json_tree(*value),
        r.wf(),
{
    match value {
        serde_json::Value::Null => JsonValue::Null,
        serde_json::Value::Bool(b) => JsonValue::Bool(*b),
        serde_json::Value::Number(n) => JsonValue::Number(n.as_u64()),
        serde_json::Value::String(s) => JsonValue::Text(s.clone()),
        serde_json::Value::Array(items) => JsonValue::Array(items.iter().map(lower).collect()),
        serde_json::Value::Object(members) => JsonValue::Object(
            members.iter().map(|(name, member)| (name.clone(), lower(member))).collect(),
        ),
    }
}

/// Reads a JSON text. The result is the value that `serde_json` reads from the
/// text, and `FatalParse` where `serde_json` rejects the text. In the value no
/// object has two members of one name.
pub fn parse_json(text: &str) -> (r: Result<JsonValue, FatalParse>)
    ensures
        r == match parsed_json(text@) {
            Some(value) => Ok::<JsonValue, FatalParse>(value),
            None => Err::<JsonValue, FatalParse>(FatalParse),
        },
        r matches Ok(value) ==> value.wf(),
{
    match read_value(text) {
        Ok(value) => Ok(lower(&value)),
        Err(_) => Err(FatalParse),
    }
}

} // verus!
