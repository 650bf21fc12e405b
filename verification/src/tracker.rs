//! A tracker takes in one fetch after the other. The first fetch it takes in
//! seeds its store without announcing anything; every later one announces
//! what is new.

use vstd::prelude::*;
use crate::diff::{diff_cycle, known_after, reported, seed, Known};
use crate::eligibility::{Rules, RulesView};
use crate::record::{Record, RecordView};
use crate::store::KnownSet;

verus! {

/// What a tracker holds, as plain values.
pub struct TrackerView {
    pub known: Known,
    pub seeded: bool,
    pub rules: RulesView,
}

/// The tracker before any fetch: it knows nothing and is unseeded.
pub open spec fn fresh_tracker(rules: RulesView) -> TrackerView {
    TrackerView { known: Map::empty(), seeded: false, rules }
}

/// The tracker `state` once it has taken in the records `fresh`.
pub open spec fn taken_in(state: TrackerView, fresh: Seq<RecordView>) -> TrackerView {
    TrackerView {
        known: known_after(state.known, fresh, state.rules),
        seeded: true,
        rules: state.rules,
    }
}

/// What the tracker `state` announces as new when it takes in `fresh`:
/// nothing while it is unseeded, and afterwards what the diff reports.
pub open spec fn announced(state: TrackerView, fresh: Seq<RecordView>) -> Seq<RecordView> {
    if state.seeded {
        reported(state.known, fresh, state.rules)
    } else {
        Seq::empty()
    }
}

/// The store, the rules that guard it, and whether it has been seeded.
pub struct Tracker {
    store: KnownSet,
    rules: Rules,
    seeded: bool,
}

impl View for Tracker {
    type V = TrackerView;

    closed spec fn view(&self) -> TrackerView {
        TrackerView { known: self.store@, seeded: self.seeded, rules: self.rules@ }
    }
}

impl Tracker {
    /// A tracker that knows nothing yet and applies `rules`.
    pub fn new(rules: Rules) -> (tracker: Tracker)
        ensures
            tracker@ == fresh_tracker(rules@),
    {
        Tracker { store: KnownSet::new(), rules, seeded: false }
    }

    /// Takes in the records of one successful fetch and returns those to
    /// announce as new, in the order of the fetch.
    pub fn take_in(&mut self, fresh: &Vec<Record>) -> (new_records: Vec<Record>)
        ensures
            final(self)@ == taken_in(old(self)@, fresh.deep_view()),
            new_records.deep_view() == announced(old(self)@, fresh.deep_view()),
    {
        if self.seeded {
            diff_cycle(fresh, &mut self.store, &self.rules)
        } else {
            seed(fresh, &mut self.store, &self.rules);
            self.seeded = true;
            let nothing: Vec<Record> = Vec::new();
            assert(nothing.deep_view() =~= Seq::<RecordView>::empty());
            nothing
        }
    }

    /// The store.
    pub fn store(&self) -> (store: &KnownSet)
        ensures
            store@ == self@.known,
    {
        &self.store
    }

    /// The rules.
    pub fn rules(&self) -> (rules: &Rules)
        ensures
            rules@ == self@.rules,
    {
        &self.rules
    }

    /// Whether a first fetch has been taken in.
    pub fn is_seeded(&self) -> (seeded: bool)
        ensures
            seeded == self@.seeded,
    {
        self.seeded
    }
}

} // verus!
