//! The diff engine: which of the records of a fetch are new, and what the
//! store knows once it has taken them in.

use vstd::prelude::*;
use crate::eligibility::{eligible, Rules, RulesView};
use crate::record::{Record, RecordView};
use crate::store::KnownSet;

verus! {

/// What is known, as plain values: records by identifier.
pub type Known = Map<Seq<char>, RecordView>;

/// Whether `record` enters a store that knows `known`: it is eligible and
/// nothing is known under its identifier.
pub open spec fn enters(known: Known, record: RecordView, rules: RulesView) -> bool {
    eligible(record, rules) && !known.contains_key(record.id)
}

/// What a store that knew `known` knows once it has gone through `fresh` in
/// order and taken in each record that enters.
pub open spec fn known_after(known: Known, fresh: Seq<RecordView>, rules: RulesView) -> Known
    decreases fresh.len(),
{
    if fresh.len() == 0 {
        known
    } else {
        let before = known_after(known, fresh.drop_last(), rules);
        if enters(before, fresh.last(), rules) {
            before.insert(fresh.last().id, fresh.last())
        } else {
            before
        }
    }
}

/// The records of `fresh` that entered a store that knew `known`, in the
/// order in which `fresh` holds them.
pub open spec fn reported(known: Known, fresh: Seq<RecordView>, rules: RulesView) -> Seq<
    RecordView,
>
    decreases fresh.len(),
{
    if fresh.len() == 0 {
        Seq::empty()
    } else {
        let before = known_after(known, fresh.drop_last(), rules);
        let earlier = reported(known, fresh.drop_last(), rules);
        if enters(before, fresh.last(), rules) {
            earlier.push(fresh.last())
        } else {
            earlier
        }
    }
}

/// Whether `fresh` holds an eligible record with the identifier `id`.
pub open spec fn offers(fresh: Seq<RecordView>, id: Seq<char>, rules: RulesView) -> bool {
    exists|i: int| 0 <= i < fresh.len() && eligible(#[trigger] fresh[i], rules) && fresh[i].id == id
}

/// Whether each record of `known` is eligible and stands under its own
/// identifier.
pub open spec fn consistent(known: Known, rules: RulesView) -> bool {
    forall|id: Seq<char>| #[trigger]
        known.contains_key(id) ==> known[id].id == id && eligible(known[id], rules)
}

/// The store only grows: what was known stays known, unchanged.
pub proof fn lemma_known_grows(known: Known, fresh: Seq<RecordView>, rules: RulesView)
    ensures
        known.submap_of(known_after(known, fresh, rules)),
    decreases fresh.len(),
{
    if fresh.len() > 0 {
        lemma_known_grows(known, fresh.drop_last(), rules);
    }
}

/// An identifier is known afterwards exactly if it was known before or
/// `fresh` holds an eligible record with it.
pub proof fn lemma_known_keys(known: Known, fresh: Seq<RecordView>, rules: RulesView)
    ensures
        forall|id: Seq<char>| #[trigger]
            known_after(known, fresh, rules).contains_key(id) <==> known.contains_key(id) || offers(
                fresh,
                id,
                rules,
            ),
    decreases fresh.len(),
{
    let after = known_after(known, fresh, rules);
    if fresh.len() > 0 {
        let shorter = fresh.drop_last();
        let before = known_after(known, shorter, rules);
        lemma_known_keys(known, shorter, rules);
        assert forall|id: Seq<char>| #[trigger]
            after.contains_key(id) <==> known.contains_key(id) || offers(fresh, id, rules) by {
            if offers(shorter, id, rules) {
                let i = choose|i: int|
                    0 <= i < shorter.len() && eligible(#[trigger] shorter[i], rules)
                        && shorter[i].id == id;
                assert(fresh[i] == shorter[i]);
            }
            if offers(fresh, id, rules) {
                let i = choose|i: int|
                    0 <= i < fresh.len() && eligible(#[trigger] fresh[i], rules) && fresh[i].id
                        == id;
                if i < shorter.len() {
                    assert(shorter[i] == fresh[i]);
                    assert(offers(shorter, id, rules));
                }
            }
            if after.contains_key(id) && !before.contains_key(id) {
                assert(fresh[fresh.len() - 1] == fresh.last());
            }
        }
    }
}

/// What is reported is what entered: each reported record is eligible, was
/// unknown before and is known afterwards as it was reported; no two
/// reported records share an identifier; each comes from `fresh`; and every
/// identifier that became known is one that was reported.
pub proof fn lemma_reported(known: Known, fresh: Seq<RecordView>, rules: RulesView)
    ensures
        forall|p: int|
            #![trigger reported(known, fresh, rules)[p]]
            0 <= p < reported(known, fresh, rules).len() ==> {
                let record = reported(known, fresh, rules)[p];
                &&& eligible(record, rules)
                &&& !known.contains_key(record.id)
                &&& known_after(known, fresh, rules).contains_key(record.id)
                &&& known_after(known, fresh, rules)[record.id] == record
                &&& fresh.contains(record)
            },
        forall|p: int, q: int|
            #![trigger reported(known, fresh, rules)[p], reported(known, fresh, rules)[q]]
            0 <= p < q < reported(known, fresh, rules).len() ==> reported(known, fresh, rules)[p].id
                != reported(known, fresh, rules)[q].id,
        forall|id: Seq<char>| #[trigger]
            known_after(known, fresh, rules).contains_key(id) && !known.contains_key(id) ==> exists|
                p: int,
            |
                0 <= p < reported(known, fresh, rules).len() && (#[trigger] reported(
                    known,
                    fresh,
                    rules,
                )[p]).id == id,
    decreases fresh.len(),
{
    let after = known_after(known, fresh, rules);
    let report = reported(known, fresh, rules);
    if fresh.len() > 0 {
        let shorter = fresh.drop_last();
        let before = known_after(known, shorter, rules);
        let earlier = reported(known, shorter, rules);
        let last = fresh.last();
        lemma_reported(known, shorter, rules);
        assert forall|p: int| #![trigger report[p]] 0 <= p < report.len() implies {
            &&& eligible(report[p], rules)
            &&& !known.contains_key(report[p].id)
            &&& after.contains_key(report[p].id)
            &&& after[report[p].id] == report[p]
            &&& fresh.contains(report[p])
        } by {
            if p < earlier.len() {
                assert(report[p] == earlier[p]);
                let i = choose|i: int| 0 <= i < shorter.len() && shorter[i] == earlier[p];
                assert(fresh[i] == report[p]);
            } else {
                lemma_known_grows(known, shorter, rules);
                assert(fresh[fresh.len() - 1] == report[p]);
            }
        }
        assert forall|p: int, q: int|
            #![trigger report[p], report[q]]
            0 <= p < q < report.len() implies report[p].id != report[q].id by {
            assert(report[p] == earlier[p]);
            if q < earlier.len() {
                assert(report[q] == earlier[q]);
            }
        }
        assert forall|id: Seq<char>| #[trigger]
            after.contains_key(id) && !known.contains_key(id) implies exists|p: int|
            0 <= p < report.len() && (#[trigger] report[p]).id == id by {
            if before.contains_key(id) {
                let p = choose|p: int| 0 <= p < earlier.len() && (#[trigger] earlier[p]).id == id;
                assert(report[p] == earlier[p]);
            } else {
                assert(report[report.len() - 1] == last);
            }
        }
    }
}

/// Where the store already knows every eligible record of `fresh`, the
/// fetch changes nothing and reports nothing.
pub proof fn lemma_nothing_new(known: Known, fresh: Seq<RecordView>, rules: RulesView)
    requires
        forall|i: int|
            0 <= i < fresh.len() && eligible(#[trigger] fresh[i], rules) ==> known.contains_key(
                fresh[i].id,
            ),
    ensures
        known_after(known, fresh, rules) == known,
        reported(known, fresh, rules) == Seq::<RecordView>::empty(),
    decreases fresh.len(),
{
    if fresh.len() > 0 {
        let shorter = fresh.drop_last();
        assert forall|i: int|
            0 <= i < shorter.len() && eligible(#[trigger] shorter[i], rules)
            implies known.contains_key(shorter[i].id) by {
            assert(shorter[i] == fresh[i]);
        }
        lemma_nothing_new(known, shorter, rules);
        assert(fresh[fresh.len() - 1] == fresh.last());
    }
}

/// Goes through `fresh` in order, stores each eligible record whose
/// identifier the store does not know yet, and returns the records it
/// stored, in that order.
pub fn diff_cycle(fresh: &Vec<Record>, store: &mut KnownSet, rules: &Rules) -> (new_records: Vec<
    Record,
>)
    ensures
        final(store)@ == known_after(old(store)@, fresh.deep_view(), rules@),
        new_records.deep_view() == reported(old(store)@, fresh.deep_view(), rules@),
{
    let ghost all = fresh.deep_view();
    let mut new_records: Vec<Record> = Vec::new();
    assert(new_records.deep_view() =~= Seq::<RecordView>::empty());
    assert(all.take(0) =~= Seq::<RecordView>::empty());
    let mut i: usize = 0;
    while i < fresh.len()
        invariant
            i <= fresh.len(),
            all == fresh.deep_view(),
            store@ == known_after(old(store)@, all.take(i as int), rules@),
            new_records.deep_view() == reported(old(store)@, all.take(i as int), rules@),
        decreases fresh.len() - i,
    {
        let record = &fresh[i];
        let ghost earlier = new_records.deep_view();
        proof {
            assert(all.take(i + 1).drop_last() =~= all.take(i as int));
            assert(all.take(i + 1).last() == record@);
        }
        if rules.is_eligible(record) {
            let inserted = store.insert_if_absent(record.id(), record.clone());
            if inserted {
                new_records.push(record.clone());
                assert(new_records.deep_view() =~= earlier.push(record@));
            }
        }
        i = i + 1;
    }
    assert(all.take(i as int) =~= all);
    new_records
}

/// Takes in the records of the first fetch: every eligible one is stored,
/// and none of them counts as new.
pub fn seed(fresh: &Vec<Record>, store: &mut KnownSet, rules: &Rules)
    ensures
        final(store)@ == known_after(old(store)@, fresh.deep_view(), rules@),
{
    let _ = diff_cycle(fresh, store, rules);
}

} // verus!
