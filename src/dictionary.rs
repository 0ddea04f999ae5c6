//! The name-to-index dictionary behind a lexicon, kept in a hashbrown map.
use vstd::prelude::*;

use crate::name::WordName;

verus! {

/// A dictionary from word names to word indices.
#[verifier::external_body]
pub struct Dictionary {
    map: hashbrown::HashMap<WordName, usize>,
}

/// The entries that a dictionary holds.
pub uninterp spec fn dictionary_entries(d: Dictionary) -> Map<WordName, usize>;

impl Dictionary {
    /// Relies on hashbrown::HashMap::new: a new map holds no entry.
    #[verifier::external_body]
    pub(crate) fn new() -> (r: Dictionary)
        ensures
            dictionary_entries(r).dom() == Set::<WordName>::empty(),
    {
        Dictionary { map: hashbrown::HashMap::new() }
    }

    /// Relies on hashbrown::HashMap::insert: the key maps to the new value
    /// afterwards, whether or not it was present, and no other entry changes.
    #[verifier::external_body]
    pub(crate) fn insert(&mut self, name: WordName, index: usize)
        ensures
            dictionary_entries(*final(self)) == dictionary_entries(*old(self)).insert(name, index),
    {
        self.map.insert(name, index);
    }

    /// Relies on hashbrown::HashMap::get: the value stored under the key, if any.
    #[verifier::external_body]
    pub(crate) fn get(&self, name: &WordName) -> (r: Option<usize>)
        ensures
            r == (if dictionary_entries(*self).contains_key(*name) {
                Some(dictionary_entries(*self)[*name])
            } else {
                None
            }),
    {
        self.map.get(name).copied()
    }
}

} // verus!
