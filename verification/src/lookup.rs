//! The data that a template is rendered with: values found by name.
use crate::text::Text;
use std::collections::HashMap;
use vstd::prelude::*;

verus! {

/// Whether one of the keys of `entries` reads as `name`.
pub open spec fn has_name<K: Text, V>(entries: Map<K, V>, name: Seq<char>) -> bool {
    exists|key: K| #[trigger] entries.contains_key(key) && key.text() == name
}

/// The value that `entries` holds under the key that reads as `name`.
pub open spec fn value_named<K: Text, V>(entries: Map<K, V>, name: Seq<char>) -> V
    recommends
        has_name(entries, name),
{
    entries[choose|key: K| #[trigger] entries.contains_key(key) && key.text() == name]
}

/// A map of text keys and text values, each read as its characters.
pub open spec fn as_texts<K: Text, V: Text>(entries: Map<K, V>) -> Map<Seq<char>, Seq<char>> {
    Map::new(
        |name: Seq<char>| has_name(entries, name),
        |name: Seq<char>| value_named(entries, name).text(),
    )
}

/// Data in which a value is found by the name of a placeholder.
pub trait Lookup {
    /// The data as a map from names to values.
    spec fn data(&self) -> Map<Seq<char>, Seq<char>>;

    /// The value under `name`, if the data has one.
    fn lookup(&self, name: &str) -> (value: Option<&str>)
        ensures
            value matches Some(text) ==> self.data().contains_key(name@) && self.data()[name@]
                == text@,
            value is None ==> !self.data().contains_key(name@),
    ;
}

/// Looks a name up in a map keyed by string slices.
///
/// Calls `HashMap::get`, of which vstd says nothing for keys that are
/// strings. Keys of this type are equal exactly when they hold the same
/// characters, so at most one key reads as `name`; the contract claims that
/// the value under that key is returned, and `None` where no key reads as
/// `name`.
#[verifier::external_body]
fn get_by_slice<'a, 'k, V>(entries: &'a HashMap<&'k str, V>, name: &str) -> (found: Option<&'a V>)
    ensures
        found matches Some(value) ==> has_name(entries@, name@) && *value == value_named(
            entries@,
            name@,
        ),
        found is None ==> !has_name(entries@, name@),
{
    entries.get(name)
}

/// Looks a name up in a map keyed by owned strings.
///
/// Calls `HashMap::get`, of which vstd says nothing for keys that are
/// strings. Keys of this type are equal exactly when they hold the same
/// characters, so at most one key reads as `name`; the contract claims that
/// the value under that key is returned, and `None` where no key reads as
/// `name`.
#[verifier::external_body]
fn get_by_string<'a, V>(entries: &'a HashMap<String, V>, name: &str) -> (found: Option<&'a V>)
    ensures
        found matches Some(value) ==> has_name(entries@, name@) && *value == value_named(
            entries@,
            name@,
        ),
        found is None ==> !has_name(entries@, name@),
{
    entries.get(name)
}

impl<'k, V: Text> Lookup for HashMap<&'k str, V> {
    open spec fn data(&self) -> Map<Seq<char>, Seq<char>> {
        as_texts(self@)
    }

    fn lookup(&self, name: &str) -> (value: Option<&str>) {
        match get_by_slice(self, name) {
            Some(found) => Some(found.as_text()),
            None => None,
        }
    }
}

impl<V: Text> Lookup for HashMap<String, V> {
    open spec fn data(&self) -> Map<Seq<char>, Seq<char>> {
        as_texts(self@)
    }

    fn lookup(&self, name: &str) -> (value: Option<&str>) {
        match get_by_string(self, name) {
            Some(found) => Some(found.as_text()),
            None => None,
        }
    }
}

} // verus!
