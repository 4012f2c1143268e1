use indexmap::IndexMap;
use vstd::prelude::*;
use vstd::string::StringExecFns;

verus! {

/// The members of a JSON object, by name, in the order in which they were added.
#[verifier::external_body]
#[derive(Debug)]
pub struct JsonMembers {
    members: IndexMap<String, JObject>,
}

/// The members that a `JsonMembers` holds: name and value, in insertion order.
pub uninterp spec fn json_members(m: JsonMembers) -> Seq<(Seq<char>, JObject)>;

impl JsonMembers {
    /// `IndexMap::new`: a map that holds no entries.
    #[verifier::external_body]
    fn new() -> (r: Self)
        ensures
            json_members(r) == Seq::<(Seq<char>, JObject)>::empty(),
    {
        JsonMembers { members: IndexMap::new() }
    }
}

/// A JSON array: its items, and whether its closing bracket was seen.
#[derive(Debug)]
pub struct Array {
    pub items: Vec<JObject>,
    pub is_closed: bool,
}

/// A JSON object: its members, and whether its closing brace was seen.
#[derive(Debug)]
pub struct JsonMap {
    pub items: JsonMembers,
    pub is_closed: bool,
}

/// A JSON value.
#[derive(Debug)]
pub enum JObject {
    KARRAY(Array),
    KMap(JsonMap),
    KValue(String),
}

/// `o` is an object that has no members and is still open.
pub open spec fn is_open_empty_map(o: JObject) -> bool {
    &&& o matches JObject::KMap(m)
    &&& json_members(m.items).len() == 0
    &&& !m.is_closed
}

impl Default for JObject {
    /// An open object with no members.
    fn default() -> (r: Self)
        ensures
            is_open_empty_map(r),
    {
        JObject::new_map()
    }
}

impl JObject {
    /// An open array with no items.
    pub fn new_array() -> (r: Self)
        ensures
            r matches JObject::KARRAY(a) && a.items@.len() == 0 && !a.is_closed,
    {
        JObject::KARRAY(Array { items: Vec::new(), is_closed: false })
    }

    /// An open object with no members.
    pub fn new_map() -> (r: Self)
        ensures
            is_open_empty_map(r),
    {
        JObject::KMap(JsonMap { items: JsonMembers::new(), is_closed: false })
    }

    /// A plain value.
    pub fn new_value(value: &str) -> (r: Self)
        ensures
            r matches JObject::KValue(s) && s@ == value@,
    {
        JObject::KValue(String::from_str(value))
    }
}

} // verus!
