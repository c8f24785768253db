//! The JSON texts that the library reads and writes through serde_json.
use vstd::prelude::*;

verus! {

/// The JSON string literal that stands for a text, quotes and escapes
/// included.
pub uninterp spec fn json_quoted(s: Seq<char>) -> Seq<char>;

/// The entries of a JSON object whose values are all strings, in key order;
/// `None` for a text that is no such object.
pub uninterp spec fn json_string_object(s: Seq<char>) -> Option<Seq<(Seq<char>, Seq<char>)>>;

/// The objects of a JSON array of objects whose values are all strings, each
/// as its entries in key order; `None` for a text that is no such array.
pub uninterp spec fn json_string_object_list(s: Seq<char>) -> Option<
    Seq<Seq<(Seq<char>, Seq<char>)>>,
>;

/// The entries of a string map, as values.
pub open spec fn entries_view(v: Seq<(String, String)>) -> Seq<(Seq<char>, Seq<char>)> {
    v.map_values(|e: (String, String)| (e.0@, e.1@))
}

/// A list of string maps, as values.
pub open spec fn entry_lists_view(v: Seq<Vec<(String, String)>>) -> Seq<
    Seq<(Seq<char>, Seq<char>)>,
> {
    v.map_values(|m: Vec<(String, String)>| entries_view(m@))
}

/// Relies on `serde_json::to_string` applied to a `str`: it returns the JSON
/// string literal for the text. The serializer writes into an in-memory
/// buffer, which cannot fail, so a string always comes back.
#[verifier::external_body]
pub(crate) fn quote(s: &str) -> (r: Option<String>)
    ensures
        r is Some,
        r matches Some(q) ==> q@ == json_quoted(s@),
{
    serde_json::to_string(s).ok()
}

/// Relies on `serde_json::from_str` into a `BTreeMap<String, String>`: it
/// reads a JSON object whose values are all strings; the map yields its
/// entries in key order.
#[verifier::external_body]
pub(crate) fn parse_string_object(s: &str) -> (r: Option<Vec<(String, String)>>)
    ensures
        match r {
            Some(v) => json_string_object(s@) == Some(entries_view(v@)),
            None => json_string_object(s@) is None,
        },
{
    serde_json::from_str::<std::collections::BTreeMap<String, String>>(s).ok().map(
        |m| m.into_iter().collect(),
    )
}

/// Relies on `serde_json::from_str` into a `Vec<BTreeMap<String, String>>`:
/// it reads a JSON array of objects whose values are all strings; each map
/// yields its entries in key order.
#[verifier::external_body]
pub(crate) fn parse_string_object_list(s: &str) -> (r: Option<Vec<Vec<(String, String)>>>)
    ensures
        match r {
            Some(v) => json_string_object_list(s@) == Some(entry_lists_view(v@)),
            None => json_string_object_list(s@) is None,
        },
{
    serde_json::from_str::<Vec<std::collections::BTreeMap<String, String>>>(s).ok().map(
        |v| v.into_iter().map(|m| m.into_iter().collect()).collect(),
    )
}

/// The value of the first entry under `key`, if any.
pub open spec fn lookup(entries: Seq<(Seq<char>, Seq<char>)>, key: Seq<char>) -> Option<Seq<char>>
    decreases entries.len(),
{
    if entries.len() == 0 {
        None
    } else if entries[0].0 == key {
        Some(entries[0].1)
    } else {
        lookup(entries.drop_first(), key)
    }
}

/// The value of the first entry of `entries` under `key`, if any.
pub fn find_entry(entries: &Vec<(String, String)>, key: &str) -> (r: Option<String>)
    ensures
        match r {
            Some(v) => lookup(entries_view(entries@), key@) == Some(v@),
            None => lookup(entries_view(entries@), key@) is None,
        },
{
    let wanted = String::from_str(key);
    let mut i: usize = 0;
    assert(entries_view(entries@).subrange(0, entries@.len() as int) =~= entries_view(entries@));
    while i < entries.len()
        invariant
            i <= entries@.len(),
            wanted@ == key@,
            lookup(entries_view(entries@), key@) == lookup(
                entries_view(entries@).subrange(i as int, entries@.len() as int),
                key@,
            ),
        decreases entries@.len() - i,
    {
        let ghost rest = entries_view(entries@).subrange(i as int, entries@.len() as int);
        assert(rest[0] == (entries@[i as int].0@, entries@[i as int].1@));
        if entries[i].0 == wanted {
            return Some(entries[i].1.clone());
        }
        assert(rest.drop_first() =~= entries_view(entries@).subrange(i + 1, entries@.len() as int));
        i += 1;
    }
    None
}

} // verus!
