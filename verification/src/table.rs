//! Lookup tables of the worker: hash maps from a key to the index of a slot in
//! one of the worker's arenas.
//!
//! The maps themselves are `bevy::utils::HashMap`s. Nothing in this module is
//! proved: each function states what the map's method does to the entries, and
//! the rest of the crate is verified against these statements.

use bevy::utils::HashMap;
use vstd::prelude::*;

verus! {

/// A `bevy::utils::HashMap<String, usize>`: a slot index for each registered
/// resource name. The map is hidden from the verifier; `name_entries` stands
/// for what it holds.
#[verifier::external_body]
pub struct NameTable {
    entries: HashMap<String, usize>,
}

/// The entries of a `NameTable`, keyed by the characters of each name.
pub uninterp spec fn name_entries(table: NameTable) -> Map<Seq<char>, usize>;

/// A `bevy::utils::HashMap<u128, usize>`: a slot index for each registered
/// program identity. The map is hidden from the verifier; `id_entries` stands
/// for what it holds.
#[verifier::external_body]
pub struct IdTable {
    entries: HashMap<u128, usize>,
}

/// The entries of an `IdTable`.
pub uninterp spec fn id_entries(table: IdTable) -> Map<u128, usize>;

/// The entries of a table of names that holds nothing.
pub open spec fn no_names() -> Map<Seq<char>, usize> {
    Map::empty()
}

/// The entries of a table of program identities that holds nothing.
pub open spec fn no_ids() -> Map<u128, usize> {
    Map::empty()
}

impl NameTable {
    /// `HashMap::default`: the new map holds no entry.
    #[verifier::external_body]
    pub(crate) fn new() -> (table: NameTable)
        ensures
            name_entries(table) == no_names(),
    {
        NameTable { entries: HashMap::default() }
    }

    /// `HashMap::insert`: afterwards `key` maps to `value`, whether or not it
    /// was present before, and every other entry is as it was.
    #[verifier::external_body]
    pub(crate) fn insert(&mut self, key: &str, value: usize)
        ensures
            name_entries(*final(self)) == name_entries(*old(self)).insert(key@, value),
    {
        self.entries.insert(key.to_owned(), value);
    }

    /// `HashMap::get`: the value stored under `key`, or `None` where the map
    /// has no such key.
    #[verifier::external_body]
    pub(crate) fn get(&self, key: &str) -> (found: Option<usize>)
        ensures
            found == (if name_entries(*self).contains_key(key@) {
                Some(name_entries(*self)[key@])
            } else {
                None
            }),
    {
        self.entries.get(key).copied()
    }
}

impl IdTable {
    /// `HashMap::default`: the new map holds no entry.
    #[verifier::external_body]
    pub(crate) fn new() -> (table: IdTable)
        ensures
            id_entries(table) == no_ids(),
    {
        IdTable { entries: HashMap::default() }
    }

    /// `HashMap::insert`: afterwards `key` maps to `value`, whether or not it
    /// was present before, and every other entry is as it was.
    #[verifier::external_body]
    pub(crate) fn insert(&mut self, key: u128, value: usize)
        ensures
            id_entries(*final(self)) == id_entries(*old(self)).insert(key, value),
    {
        self.entries.insert(key, value);
    }

    /// `HashMap::get`: the value stored under `key`, or `None` where the map
    /// has no such key.
    #[verifier::external_body]
    pub(crate) fn get(&self, key: u128) -> (found: Option<usize>)
        ensures
            found == (if id_entries(*self).contains_key(key) {
                Some(id_entries(*self)[key])
            } else {
                None
            }),
    {
        self.entries.get(&key).copied()
    }
}

} // verus!
