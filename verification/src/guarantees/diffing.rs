//! Theorems about the filter and the diff, over all rules, stores and
//! fetches.

use vstd::prelude::*;
use crate::diff::{
    consistent, enters, known_after, lemma_known_keys, lemma_nothing_new, offers, reported, Known,
};
use crate::eligibility::{admits, eligible, RulesView};
use crate::record::RecordView;

verus! {

/// The verdict of the filter depends on the category and the age alone,
/// among records that have an identifier: two records with the same
/// category and the same age get the same verdict, unless the rules admit
/// them and only one of the two has an identifier.
pub proof fn verdict_depends_on_category_and_age(a: RecordView, b: RecordView, rules: RulesView)
    requires
        a.category == b.category,
        a.age == b.age,
        (a.id.len() > 0) == (b.id.len() > 0) || !admits(a.category, a.age, rules),
    ensures
        eligible(a, rules) == eligible(b, rules),
{
}

/// Whether the record at `i` in `fresh` is the first eligible record with
/// its identifier there, and a store that knows `known` does not know it.
pub open spec fn is_first_offer(
    known: Known,
    fresh: Seq<RecordView>,
    i: int,
    rules: RulesView,
) -> bool {
    &&& 0 <= i < fresh.len()
    &&& eligible(fresh[i], rules)
    &&& !known.contains_key(fresh[i].id)
    &&& forall|j: int|
        0 <= j < i && eligible(#[trigger] fresh[j], rules) ==> fresh[j].id != fresh[i].id
}

/// Within one fetch, a record enters the store exactly if it is eligible,
/// the store did not know its identifier before the fetch, and no eligible
/// record earlier in the fetch has the same identifier.
pub proof fn first_offers_enter(known: Known, fresh: Seq<RecordView>, i: int, rules: RulesView)
    requires
        0 <= i < fresh.len(),
    ensures
        enters(known_after(known, fresh.take(i), rules), fresh[i], rules) <==> is_first_offer(
            known,
            fresh,
            i,
            rules,
        ),
{
    let earlier = fresh.take(i);
    let id = fresh[i].id;
    lemma_known_keys(known, earlier, rules);
    if offers(earlier, id, rules) {
        let j = choose|j: int|
            0 <= j < earlier.len() && eligible(#[trigger] earlier[j], rules) && earlier[j].id == id;
        assert(fresh[j] == earlier[j]);
    }
    if eligible(fresh[i], rules) && !is_first_offer(known, fresh, i, rules) && !known.contains_key(
        id,
    ) {
        let j = choose|j: int|
            0 <= j < i && eligible(#[trigger] fresh[j], rules) && fresh[j].id == fresh[i].id;
        assert(earlier[j] == fresh[j]);
        assert(offers(earlier, id, rules));
    }
}

/// Idempotence of the diff: once a store has taken in a fetch, the same
/// fetch again reports nothing and changes nothing.
pub proof fn second_diff_reports_nothing(known: Known, fresh: Seq<RecordView>, rules: RulesView)
    ensures
        reported(known_after(known, fresh, rules), fresh, rules) == Seq::<RecordView>::empty(),
        known_after(known_after(known, fresh, rules), fresh, rules) == known_after(
            known,
            fresh,
            rules,
        ),
{
    let after = known_after(known, fresh, rules);
    lemma_known_keys(known, fresh, rules);
    assert forall|i: int|
        0 <= i < fresh.len() && eligible(#[trigger] fresh[i], rules) implies after.contains_key(
        fresh[i].id,
    ) by {
        assert(offers(fresh, fresh[i].id, rules));
    }
    lemma_nothing_new(after, fresh, rules);
}

/// A store whose records are eligible and stand under their own
/// identifiers is still such a store after a fetch.
pub proof fn known_records_stay_eligible(known: Known, fresh: Seq<RecordView>, rules: RulesView)
    requires
        consistent(known, rules),
    ensures
        consistent(known_after(known, fresh, rules), rules),
    decreases fresh.len(),
{
    if fresh.len() > 0 {
        known_records_stay_eligible(known, fresh.drop_last(), rules);
    }
}

} // verus!
