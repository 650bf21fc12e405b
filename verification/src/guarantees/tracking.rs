//! Theorems about the tracker over a whole run: any sequence of fetches,
//! failed ones among them.

use vstd::prelude::*;
use crate::diff::{
    consistent, known_after, lemma_known_grows, lemma_known_keys, lemma_reported, offers, reported,
};
use crate::eligibility::{eligible, RulesView};
use crate::guarantees::diffing::known_records_stay_eligible;
use crate::record::RecordView;
use crate::tracker::{announced, fresh_tracker, taken_in, TrackerView};

verus! {

/// One fetch, as the tracker sees it: the records of the page, or `None`
/// where the fetch failed.
pub type Fetch = Option<Seq<RecordView>>;

/// The tracker `state` after `fetch`: a failed fetch leaves it as it is.
pub open spec fn after_fetch(state: TrackerView, fetch: Fetch) -> TrackerView {
    match fetch {
        Some(fresh) => taken_in(state, fresh),
        None => state,
    }
}

/// What the tracker `state` announces on `fetch`: nothing on a failed one.
pub open spec fn news_of(state: TrackerView, fetch: Fetch) -> Seq<RecordView> {
    match fetch {
        Some(fresh) => announced(state, fresh),
        None => Seq::empty(),
    }
}

/// The tracker after the fetches `fetches`, one after the other.
pub open spec fn tracker_after(fetches: Seq<Fetch>, rules: RulesView) -> TrackerView
    decreases fetches.len(),
{
    if fetches.len() == 0 {
        fresh_tracker(rules)
    } else {
        after_fetch(tracker_after(fetches.drop_last(), rules), fetches.last())
    }
}

/// What is announced on the fetch at `cycle` in a run over `fetches`.
pub open spec fn news_at(fetches: Seq<Fetch>, rules: RulesView, cycle: int) -> Seq<RecordView> {
    news_of(tracker_after(fetches.take(cycle), rules), fetches[cycle])
}

/// Whatever was fetched, every record that the tracker knows is eligible
/// and stands under its own identifier.
pub proof fn tracker_knows_only_the_eligible(fetches: Seq<Fetch>, rules: RulesView)
    ensures
        consistent(tracker_after(fetches, rules).known, rules),
        tracker_after(fetches, rules).rules == rules,
    decreases fetches.len(),
{
    if fetches.len() > 0 {
        tracker_knows_only_the_eligible(fetches.drop_last(), rules);
        match fetches.last() {
            Some(fresh) => {
                known_records_stay_eligible(
                    tracker_after(fetches.drop_last(), rules).known,
                    fresh,
                    rules,
                );
            },
            None => {},
        }
    }
}

/// Over a run, the tracker never forgets and never goes back to unseeded:
/// what it knows after `earlier` fetches it knows, unchanged, after `later`.
pub proof fn tracker_only_grows(fetches: Seq<Fetch>, rules: RulesView, earlier: int, later: int)
    requires
        0 <= earlier <= later <= fetches.len(),
    ensures
        tracker_after(fetches.take(earlier), rules).known.submap_of(
            tracker_after(fetches.take(later), rules).known,
        ),
        tracker_after(fetches.take(earlier), rules).seeded ==> tracker_after(
            fetches.take(later),
            rules,
        ).seeded,
        tracker_after(fetches.take(later), rules).rules == rules,
    decreases later,
{
    if later > 0 {
        let before = tracker_after(fetches.take(later - 1), rules);
        let after = tracker_after(fetches.take(later), rules);
        assert(fetches.take(later).drop_last() =~= fetches.take(later - 1));
        assert(fetches.take(later).last() == fetches[later - 1]);
        assert(after == after_fetch(before, fetches[later - 1]));
        let lower = if earlier < later {
            earlier
        } else {
            later - 1
        };
        tracker_only_grows(fetches, rules, lower, later - 1);
        match fetches[later - 1] {
            Some(fresh) => {
                lemma_known_grows(before.known, fresh, rules);
            },
            None => {},
        }
        assert(before.known.submap_of(after.known));
        if earlier < later {
            let start = tracker_after(fetches.take(earlier), rules).known;
            assert forall|id: Seq<char>| #[trigger] start.dom().contains(id) implies #[trigger]
                after.known.dom().contains(id) && start[id] == after.known[id] by {
                assert(before.known.dom().contains(id));
            }
        }
    }
}

/// Until a fetch succeeds, the tracker stays unseeded and knows nothing.
pub proof fn tracker_waits_for_first_success(fetches: Seq<Fetch>, rules: RulesView, count: int)
    requires
        0 <= count <= fetches.len(),
        forall|e: int| 0 <= e < count ==> fetches[e] is None,
    ensures
        tracker_after(fetches.take(count), rules) == fresh_tracker(rules),
    decreases count,
{
    if count > 0 {
        assert(fetches.take(count).drop_last() =~= fetches.take(count - 1));
        tracker_waits_for_first_success(fetches, rules, count - 1);
    }
}

proof fn announced_once_in_order(
    fetches: Seq<Fetch>,
    rules: RulesView,
    i: int,
    p: int,
    j: int,
    q: int,
)
    requires
        0 <= i <= j < fetches.len(),
        0 <= p < news_at(fetches, rules, i).len(),
        0 <= q < news_at(fetches, rules, j).len(),
        news_at(fetches, rules, i)[p].id == news_at(fetches, rules, j)[q].id,
    ensures
        i == j && p == q,
{
    let state_i = tracker_after(fetches.take(i), rules);
    let state_j = tracker_after(fetches.take(j), rules);
    let fresh_i = fetches[i]->0;
    let fresh_j = fetches[j]->0;
    tracker_only_grows(fetches, rules, i, i);
    tracker_only_grows(fetches, rules, j, j);
    lemma_reported(state_i.known, fresh_i, rules);
    lemma_reported(state_j.known, fresh_j, rules);
    if i < j {
        assert(fetches.take(i + 1).drop_last() =~= fetches.take(i));
        assert(tracker_after(fetches.take(i + 1), rules).known == known_after(
            state_i.known,
            fresh_i,
            rules,
        ));
        tracker_only_grows(fetches, rules, i + 1, j);
        let id = news_at(fetches, rules, i)[p].id;
        assert(tracker_after(fetches.take(i + 1), rules).known.contains_key(id));
        assert(state_j.known.contains_key(id));
    } else if p < q {
        assert(reported(state_i.known, fresh_i, rules)[p].id != reported(
            state_i.known,
            fresh_i,
            rules,
        )[q].id);
    } else if q < p {
        assert(reported(state_i.known, fresh_i, rules)[q].id != reported(
            state_i.known,
            fresh_i,
            rules,
        )[p].id);
    }
}

/// No identifier is announced twice: over any run, two announcements with
/// the same identifier are one and the same announcement, in one cycle and
/// at one place in it.
pub proof fn each_identifier_is_announced_once(
    fetches: Seq<Fetch>,
    rules: RulesView,
    i: int,
    p: int,
    j: int,
    q: int,
)
    requires
        0 <= i < fetches.len(),
        0 <= j < fetches.len(),
        0 <= p < news_at(fetches, rules, i).len(),
        0 <= q < news_at(fetches, rules, j).len(),
        news_at(fetches, rules, i)[p].id == news_at(fetches, rules, j)[q].id,
    ensures
        i == j && p == q,
{
    if i <= j {
        announced_once_in_order(fetches, rules, i, p, j, q);
    } else {
        announced_once_in_order(fetches, rules, j, q, i, p);
    }
}

/// Seeding: a record of the first fetch that succeeds is never announced,
/// in no cycle of the run; and where it is eligible, so that it entered the
/// store, no record with its identifier is ever announced.
pub proof fn seed_records_are_never_announced(
    fetches: Seq<Fetch>,
    rules: RulesView,
    first: int,
    k: int,
    j: int,
    q: int,
)
    requires
        0 <= first < fetches.len(),
        fetches[first] is Some,
        forall|e: int| 0 <= e < first ==> fetches[e] is None,
        0 <= k < fetches[first]->0.len(),
        0 <= j < fetches.len(),
        0 <= q < news_at(fetches, rules, j).len(),
    ensures
        news_at(fetches, rules, j)[q] != fetches[first]->0[k],
        eligible(fetches[first]->0[k], rules) ==> news_at(fetches, rules, j)[q].id
            != fetches[first]->0[k].id,
        eligible(fetches[first]->0[k], rules) ==> tracker_after(
            fetches.take(first + 1),
            rules,
        ).known.contains_key(fetches[first]->0[k].id),
{
    let seed = fetches[first]->0;
    let record = seed[k];
    let state_j = tracker_after(fetches.take(j), rules);
    tracker_waits_for_first_success(fetches, rules, first);
    assert(fetches.take(first + 1).drop_last() =~= fetches.take(first));
    let seeded = tracker_after(fetches.take(first + 1), rules);
    assert(seeded.known == known_after(Map::empty(), seed, rules));
    lemma_known_keys(Map::empty(), seed, rules);
    if eligible(record, rules) {
        assert(offers(seed, record.id, rules));
    }
    if j <= first {
        if j < first {
            assert(fetches[j] is None);
        } else {
            assert(state_j == fresh_tracker(rules));
        }
        assert(news_at(fetches, rules, j).len() == 0);
    } else {
        tracker_only_grows(fetches, rules, first + 1, j);
        assert(state_j.rules == rules);
        assert(seeded.known.submap_of(state_j.known));
        let fresh = fetches[j]->0;
        lemma_reported(state_j.known, fresh, rules);
        let announcement = reported(state_j.known, fresh, rules)[q];
        assert(news_at(fetches, rules, j)[q] == announcement);
        assert(eligible(announcement, rules));
        if eligible(record, rules) {
            assert(seeded.known.contains_key(record.id));
            assert(state_j.known.contains_key(record.id));
        }
    }
}

} // verus!
