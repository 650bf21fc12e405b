//! Theorems about the scheduler: single steps, and whole runs over any
//! sequence of events.

use vstd::prelude::*;
use crate::diff::{lemma_known_grows, lemma_known_keys, lemma_reported, offers};
use crate::eligibility::{eligible, RulesView};
use crate::guarantees::tracking::{after_fetch, news_of};
use crate::record::RecordView;
use crate::scheduler::{
    exhausted, expects, initial_state, next_action, next_state, suspended, ActionView, EventView,
    Phase, SchedulerView, STATUS_OK,
};
use crate::tracker::announced;

verus! {

/// A fetch that fails, in transport or by its status, makes the cycle a
/// no-op: the tracker stays as it is, no delivery is asked for, and the
/// scheduler goes to sleep.
pub proof fn failed_fetch_changes_nothing(state: SchedulerView, event: EventView)
    requires
        state.phase == Phase::Fetching,
        event is FetchFailed || (event matches EventView::Fetched { status, .. } && status
            != STATUS_OK),
    ensures
        next_state(state, event).tracker == state.tracker,
        next_state(state, event).phase == Phase::Sleeping,
        next_action(state, event) == Some(ActionView::Sleep),
{
}

/// A cancellation is heard exactly while the scheduler waits for a fetch, a
/// delivery or the end of the interval; it ends the run and leaves the
/// tracker as it is.
pub proof fn cancellation_ends_the_run(state: SchedulerView)
    ensures
        next_state(state, EventView::Cancelled).tracker == state.tracker,
        suspended(state.phase) ==> next_state(state, EventView::Cancelled).phase == Phase::Stopped
            && next_action(state, EventView::Cancelled) == Some(ActionView::Stop),
        !suspended(state.phase) ==> next_state(state, EventView::Cancelled) == state
            && next_action(state, EventView::Cancelled) is None,
{
}

/// The records of a fetched page reach the tracker as one fetch: the
/// scheduler's tracker takes them in, and what it announces is what waits
/// for delivery.
pub proof fn fetched_page_is_one_fetch(state: SchedulerView, records: Seq<RecordView>)
    requires
        state.phase == Phase::Fetching,
    ensures
        next_state(state, EventView::Fetched { status: STATUS_OK, records }).tracker == after_fetch(
            state.tracker,
            Some(records),
        ),
        next_state(state, EventView::Fetched { status: STATUS_OK, records }).pending == news_of(
            state.tracker,
            Some(records),
        ),
        news_of(state.tracker, Some(records)).len() > 0 <==> next_state(
            state,
            EventView::Fetched { status: STATUS_OK, records },
        ).phase == Phase::Notifying,
{
}

/// Whatever happens, the scheduler's store only grows: what it knew before
/// an event it knows, unchanged, after it.
pub proof fn step_never_forgets(state: SchedulerView, event: EventView)
    ensures
        state.tracker.known.submap_of(next_state(state, event).tracker.known),
        next_state(state, event).tracker.rules == state.tracker.rules,
        state.tracker.seeded ==> next_state(state, event).tracker.seeded,
{
    match event {
        EventView::Fetched { records, .. } => {
            lemma_known_grows(state.tracker.known, records, state.tracker.rules);
        },
        _ => {},
    }
}

/// A delivery that fails is followed by what follows one that succeeds:
/// the next delivery, or sleep.
pub proof fn delivery_failure_is_isolated(state: SchedulerView)
    ensures
        next_state(state, EventView::DeliveryAttempted { succeeded: false }) == next_state(
            state,
            EventView::DeliveryAttempted { succeeded: true },
        ),
        next_action(state, EventView::DeliveryAttempted { succeeded: false }) == next_action(
            state,
            EventView::DeliveryAttempted { succeeded: true },
        ),
{
}

/// The run stops only when it is cancelled or its cycles are complete: no
/// other event stops a scheduler whose limit is not reached, and none stops
/// one without a limit.
pub proof fn run_stops_only_at_its_limit(state: SchedulerView, event: EventView)
    requires
        state.phase != Phase::Stopped,
        next_state(state, event).phase == Phase::Stopped,
        !(event is Cancelled),
    ensures
        exhausted(next_state(state, event).completed, state.limit),
        state.limit is Some,
        state.phase == Phase::Idle || state.phase == Phase::Sleeping,
{
}

/// The scheduler `start` after the events `events`, one after the other.
pub open spec fn state_after(start: SchedulerView, events: Seq<EventView>) -> SchedulerView
    decreases events.len(),
{
    if events.len() == 0 {
        start
    } else {
        next_state(state_after(start, events.drop_last()), events.last())
    }
}

/// The records whose delivery the scheduler `start` asks for over the
/// events `events`, in the order in which it asks.
pub open spec fn deliveries(start: SchedulerView, events: Seq<EventView>) -> Seq<RecordView>
    decreases events.len(),
{
    if events.len() == 0 {
        Seq::empty()
    } else {
        let earlier = deliveries(start, events.drop_last());
        match next_action(state_after(start, events.drop_last()), events.last()) {
            Some(ActionView::Deliver { record, .. }) => earlier.push(record),
            _ => earlier,
        }
    }
}

/// What holds between a scheduler and the deliveries it has asked for: each
/// is known and no two share an identifier; and while it notifies, the
/// records still to come are known, differ from each other and from every
/// delivery so far.
spec fn on_track(state: SchedulerView, delivered: Seq<RecordView>) -> bool {
    &&& forall|p: int|
        0 <= p < delivered.len() ==> state.tracker.known.contains_key(#[trigger] delivered[p].id)
    &&& forall|p: int, q: int|
        0 <= p < q < delivered.len() ==> (#[trigger] delivered[p]).id
            != (#[trigger] delivered[q]).id
    &&& state.phase == Phase::Notifying ==> {
        &&& state.attempted < state.pending.len()
        &&& forall|a: int, b: int|
            0 <= a < b < state.pending.len() ==> (#[trigger] state.pending[a]).id
                != (#[trigger] state.pending[b]).id
        &&& forall|a: int|
            0 <= a < state.pending.len() ==> state.tracker.known.contains_key(
                #[trigger] state.pending[a].id,
            )
        &&& forall|a: int, p: int|
            state.attempted < a < state.pending.len() && 0 <= p < delivered.len() ==> (
            #[trigger] state.pending[a]).id != (#[trigger] delivered[p]).id
    }
}

proof fn step_stays_on_track(state: SchedulerView, delivered: Seq<RecordView>, event: EventView)
    requires
        on_track(state, delivered),
    ensures
        on_track(
            next_state(state, event),
            match next_action(state, event) {
                Some(ActionView::Deliver { record, .. }) => delivered.push(record),
                _ => delivered,
            },
        ),
{
    let next = next_state(state, event);
    if expects(state, event) {
        match event {
            EventView::Fetched { records, .. } => {
                let known = state.tracker.known;
                let rules = state.tracker.rules;
                lemma_known_grows(known, records, rules);
                lemma_reported(known, records, rules);
                let news = announced(state.tracker, records);
                if news.len() > 0 {
                    let longer = delivered.push(news[0]);
                    assert forall|p: int, q: int| 0 <= p < q < longer.len() implies (
                    #[trigger] longer[p]).id != (#[trigger] longer[q]).id by {
                        if q == delivered.len() {
                            assert(known.contains_key(delivered[p].id));
                        }
                    }
                    assert forall|a: int, p: int|
                        0 < a < news.len() && 0 <= p < longer.len() implies (#[trigger] news[a]).id
                        != (#[trigger] longer[p]).id by {
                        if p < delivered.len() {
                            assert(known.contains_key(delivered[p].id));
                        }
                    }
                }
            },
            EventView::DeliveryAttempted { .. } => {
                if state.attempted + 1 < state.pending.len() {
                    let longer = delivered.push(state.pending[state.attempted as int + 1]);
                    assert forall|p: int, q: int| 0 <= p < q < longer.len() implies (
                    #[trigger] longer[p]).id != (#[trigger] longer[q]).id by {}
                    assert forall|a: int, p: int|
                        next.attempted < a < next.pending.len() && 0 <= p < longer.len() implies (
                    #[trigger] next.pending[a]).id != (#[trigger] longer[p]).id by {}
                }
            },
            _ => {},
        }
    }
}

proof fn run_stays_on_track(
    rules: RulesView,
    base: Seq<char>,
    limit: Option<u64>,
    events: Seq<EventView>,
)
    ensures
        on_track(
            state_after(initial_state(rules, base, limit), events),
            deliveries(initial_state(rules, base, limit), events),
        ),
    decreases events.len(),
{
    let start = initial_state(rules, base, limit);
    if events.len() > 0 {
        run_stays_on_track(rules, base, limit, events.drop_last());
        step_stays_on_track(
            state_after(start, events.drop_last()),
            deliveries(start, events.drop_last()),
            events.last(),
        );
    }
}

/// Exactly-once notification: whatever happens to a scheduler on its run,
/// no two of the deliveries it asks for carry the same identifier, and
/// every record it asks to deliver is known to its store.
pub proof fn every_delivery_has_its_own_identifier(
    rules: RulesView,
    base: Seq<char>,
    limit: Option<u64>,
    events: Seq<EventView>,
    p: int,
    q: int,
)
    requires
        0 <= p < q < deliveries(initial_state(rules, base, limit), events).len(),
    ensures
        deliveries(initial_state(rules, base, limit), events)[p].id != deliveries(
            initial_state(rules, base, limit),
            events,
        )[q].id,
        state_after(initial_state(rules, base, limit), events).tracker.known.contains_key(
            deliveries(initial_state(rules, base, limit), events)[p].id,
        ),
{
    run_stays_on_track(rules, base, limit, events);
}

/// What holds of a scheduler on its run while it is unseeded: it has asked
/// for no delivery and is not notifying. Its rules are those it began with.
spec fn quiet_until_seeded(
    state: SchedulerView,
    delivered: Seq<RecordView>,
    rules: RulesView,
) -> bool {
    &&& state.tracker.rules == rules
    &&& !state.tracker.seeded ==> delivered.len() == 0 && state.phase != Phase::Notifying
}

proof fn run_is_quiet_until_seeded(
    rules: RulesView,
    base: Seq<char>,
    limit: Option<u64>,
    events: Seq<EventView>,
)
    ensures
        quiet_until_seeded(
            state_after(initial_state(rules, base, limit), events),
            deliveries(initial_state(rules, base, limit), events),
            rules,
        ),
    decreases events.len(),
{
    if events.len() > 0 {
        run_is_quiet_until_seeded(rules, base, limit, events.drop_last());
    }
}

/// What holds of a scheduler once it has taken in a page that held
/// `record`: what it delivers is eligible, and if `record` is eligible, it
/// is known and nothing delivered or waiting has its identifier.
spec fn guards(
    state: SchedulerView,
    delivered: Seq<RecordView>,
    record: RecordView,
    rules: RulesView,
) -> bool {
    &&& state.tracker.rules == rules
    &&& forall|p: int| 0 <= p < delivered.len() ==> eligible(#[trigger] delivered[p], rules)
    &&& state.phase == Phase::Notifying ==> forall|a: int|
        0 <= a < state.pending.len() ==> eligible(#[trigger] state.pending[a], rules)
    &&& eligible(record, rules) ==> {
        &&& state.tracker.known.contains_key(record.id)
        &&& forall|p: int| 0 <= p < delivered.len() ==> (#[trigger] delivered[p]).id != record.id
        &&& state.phase == Phase::Notifying ==> forall|a: int|
            0 <= a < state.pending.len() ==> (#[trigger] state.pending[a]).id != record.id
    }
}

proof fn step_keeps_guard(
    state: SchedulerView,
    delivered: Seq<RecordView>,
    event: EventView,
    record: RecordView,
    rules: RulesView,
)
    requires
        guards(state, delivered, record, rules),
        on_track(state, delivered),
    ensures
        guards(
            next_state(state, event),
            match next_action(state, event) {
                Some(ActionView::Deliver { record, .. }) => delivered.push(record),
                _ => delivered,
            },
            record,
            rules,
        ),
{
    if expects(state, event) {
        match event {
            EventView::Fetched { records, .. } => {
                lemma_known_grows(state.tracker.known, records, rules);
                lemma_reported(state.tracker.known, records, rules);
            },
            _ => {},
        }
    }
}

proof fn run_guards_first_page(
    rules: RulesView,
    base: Seq<char>,
    limit: Option<u64>,
    events: Seq<EventView>,
    first: int,
    k: int,
    n: int,
)
    requires
        0 <= first < n <= events.len(),
        events[first] is Fetched,
        events[first]->status == STATUS_OK,
        state_after(initial_state(rules, base, limit), events.take(first)).phase == Phase::Fetching,
        !state_after(initial_state(rules, base, limit), events.take(first)).tracker.seeded,
        0 <= k < events[first]->records.len(),
    ensures
        guards(
            state_after(initial_state(rules, base, limit), events.take(n)),
            deliveries(initial_state(rules, base, limit), events.take(n)),
            events[first]->records[k],
            rules,
        ),
    decreases n,
{
    let start = initial_state(rules, base, limit);
    let before = state_after(start, events.take(n - 1));
    let delivered = deliveries(start, events.take(n - 1));
    let record = events[first]->records[k];
    assert(events.take(n).drop_last() =~= events.take(n - 1));
    assert(events.take(n).last() == events[n - 1]);
    if n == first + 1 {
        let page = events[first]->records;
        run_is_quiet_until_seeded(rules, base, limit, events.take(first));
        lemma_known_keys(before.tracker.known, page, rules);
        if eligible(record, rules) {
            assert(offers(page, record.id, rules));
        }
    } else {
        run_guards_first_page(rules, base, limit, events, first, k, n - 1);
        run_stays_on_track(rules, base, limit, events.take(n - 1));
        step_keeps_guard(before, delivered, events[n - 1], record, rules);
    }
}

/// Seeding, for the scheduler: no record of the first page that it takes in
/// is ever asked to be delivered, and where such a record is eligible, so
/// that it entered the store, no delivery ever carries its identifier.
pub proof fn first_page_is_never_delivered(
    rules: RulesView,
    base: Seq<char>,
    limit: Option<u64>,
    events: Seq<EventView>,
    first: int,
    k: int,
    d: int,
)
    requires
        0 <= first < events.len(),
        events[first] is Fetched,
        events[first]->status == STATUS_OK,
        state_after(initial_state(rules, base, limit), events.take(first)).phase == Phase::Fetching,
        !state_after(initial_state(rules, base, limit), events.take(first)).tracker.seeded,
        0 <= k < events[first]->records.len(),
        0 <= d < deliveries(initial_state(rules, base, limit), events).len(),
    ensures
        deliveries(initial_state(rules, base, limit), events)[d] != events[first]->records[k],
        eligible(events[first]->records[k], rules) ==> deliveries(
            initial_state(rules, base, limit),
            events,
        )[d].id != events[first]->records[k].id,
{
    run_guards_first_page(rules, base, limit, events, first, k, events.len() as int);
    assert(events.take(events.len() as int) =~= events);
}

} // verus!
