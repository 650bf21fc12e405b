//! The known-set store: every record that was ever accepted, by identifier.
//! It only grows: nothing is removed from it and nothing in it is replaced.

use vstd::prelude::*;
use vstd::hash_map::StringHashMap;
use crate::record::{Record, RecordId, RecordView};

verus! {

/// The records accepted so far, each under its identifier.
pub struct KnownSet {
    entries: StringHashMap<Record>,
}

impl View for KnownSet {
    type V = Map<Seq<char>, RecordView>;

    closed spec fn view(&self) -> Map<Seq<char>, RecordView> {
        self.entries@.map_values(|record: Record| record@)
    }
}

impl KnownSet {
    /// A store that knows no record.
    pub fn new() -> (store: KnownSet)
        ensures
            store@ == Map::<Seq<char>, RecordView>::empty(),
    {
        let store = KnownSet { entries: StringHashMap::new() };
        assert(store@ =~= Map::<Seq<char>, RecordView>::empty());
        store
    }

    /// Whether a record is known under `id`.
    pub fn contains(&self, id: &RecordId) -> (present: bool)
        ensures
            present == self@.contains_key(id@),
    {
        self.entries.contains_key(id.as_str())
    }

    /// The record known under `id`, if there is one.
    pub fn get(&self, id: &RecordId) -> (found: Option<&Record>)
        ensures
            match found {
                Some(record) => self@.contains_key(id@) && record@ == self@[id@],
                None => !self@.contains_key(id@),
            },
    {
        self.entries.get(id.as_str())
    }

    /// Stores `record` under `id` unless a record is already known under
    /// `id`, and says whether it stored it. A known record stays as it is.
    pub fn insert_if_absent(&mut self, id: &RecordId, record: Record) -> (inserted: bool)
        ensures
            inserted == !old(self)@.contains_key(id@),
            final(self)@ == if inserted {
                old(self)@.insert(id@, record@)
            } else {
                old(self)@
            },
    {
        if self.entries.contains_key(id.as_str()) {
            false
        } else {
            self.entries.insert(id.as_str().to_owned(), record);
            assert(self@ =~= old(self)@.insert(id@, record@));
            true
        }
    }
}

} // verus!
