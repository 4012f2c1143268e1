use indexmap::IndexMap;
use vstd::prelude::*;

verus! {

/// `indexmap::IndexMap`, an insertion-ordered hash map.
#[verifier::external_type_specification]
#[verifier::external_body]
#[verifier::reject_recursive_types(K)]
#[verifier::reject_recursive_types(V)]
#[verifier::reject_recursive_types(S)]
pub struct ExIndexMap<K, V, S>(indexmap::IndexMap<K, V, S>);

/// The entries of a map of strings: key and value, in the map's order.
pub uninterp spec fn string_entries(m: IndexMap<String, String>) -> Seq<(Seq<char>, Seq<char>)>;

/// The index of the first entry of `s` with key `k`, if any.
pub open spec fn key_index(s: Seq<(Seq<char>, Seq<char>)>, k: Seq<char>) -> Option<int>
    decreases s.len(),
{
    if s.len() == 0 {
        None
    } else {
        match key_index(s.drop_last(), k) {
            Some(i) => Some(i),
            None => if s.last().0 == k {
                Some(s.len() - 1)
            } else {
                None
            },
        }
    }
}

/// The entries after inserting `k` with `v`: an entry with key `k` keeps its
/// place and takes the value `v`; otherwise the entry is added last.
pub open spec fn insert_entry(s: Seq<(Seq<char>, Seq<char>)>, k: Seq<char>, v: Seq<char>) -> Seq<
    (Seq<char>, Seq<char>),
> {
    match key_index(s, k) {
        Some(i) => s.update(i, (k, v)),
        None => s.push((k, v)),
    }
}

/// `IndexMap::new`: a map with no entries.
#[verifier::external_body]
pub(crate) fn new_string_map() -> (r: IndexMap<String, String>)
    ensures
        string_entries(r) == Seq::<(Seq<char>, Seq<char>)>::empty(),
{
    IndexMap::new()
}

/// `IndexMap::insert`: the value of an entry with an equal key is replaced
/// in place, else the entry is added last (keys of an `IndexMap` are unique).
#[verifier::external_body]
pub(crate) fn insert_string(m: &mut IndexMap<String, String>, key: String, value: String)
    ensures
        string_entries(*final(m)) == insert_entry(string_entries(*old(m)), key@, value@),
{
    m.insert(key, value);
}

/// `IndexMap::len`: the number of entries.
#[verifier::external_body]
pub(crate) fn string_map_len(m: &IndexMap<String, String>) -> (r: usize)
    ensures
        r == string_entries(*m).len(),
{
    m.len()
}

/// `IndexMap::get_index`: the entry at an index, if there is one.
#[verifier::external_body]
pub(crate) fn string_entry_at(m: &IndexMap<String, String>, index: usize) -> (r: Option<
    (&String, &String),
>)
    ensures
        r is Some <==> index < string_entries(*m).len(),
        r matches Some(e) ==> e.0@ == string_entries(*m)[index as int].0 && e.1@
            == string_entries(*m)[index as int].1,
{
    m.get_index(index)
}

} // verus!
