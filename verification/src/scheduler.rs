//! The poll scheduler: a state machine that drives one cycle after the
//! other. It decides; whoever runs it fetches, delivers and sleeps, and
//! hands back what happened. A page that was fetched it extracts and diffs
//! itself, within the step that takes the page.

use vstd::prelude::*;
use vstd::string::*;
use crate::eligibility::{Rules, RulesView};
use crate::extract::{extract, page_records};
use crate::record::{Record, RecordView};
use crate::tracker::{announced, fresh_tracker, taken_in, Tracker, TrackerView};

verus! {

/// The status with which a fetch counts as a success.
pub const STATUS_OK: u16 = 200;

/// Where the scheduler stands in its cycle.
#[derive(Clone, Copy, Debug, PartialEq, Eq, Structural)]
pub enum Phase {
    /// Nothing has begun.
    Idle,
    /// A fetch of the listing is under way.
    Fetching,
    /// A page was fetched; its records are extracted and diffed. The
    /// scheduler passes through this phase within the step that takes the
    /// page, and never rests in it.
    Diffing,
    /// A delivery of a new record is under way.
    Notifying,
    /// The cycle is over, and the interval runs.
    Sleeping,
    /// The configured number of cycles is complete.
    Stopped,
}

/// What happened outside, as the scheduler is told of it.
#[derive(Debug, PartialEq, Eq)]
pub enum Event {
    /// The run begins.
    Start,
    /// The fetch was answered, with this status and this page.
    Fetched { status: u16, content: String },
    /// The fetch failed in transport.
    FetchFailed,
    /// The delivery was attempted, and succeeded or failed.
    DeliveryAttempted { succeeded: bool },
    /// The interval is over.
    Woke,
    /// The run is to end: a shutdown was asked for.
    Cancelled,
}

/// What the scheduler asks for next.
#[derive(Debug, PartialEq, Eq)]
pub enum Action {
    /// Fetch the listing.
    Fetch,
    /// Deliver the notification of `record`, the new record at `position`
    /// among those of this cycle.
    Deliver { record: Record, position: usize },
    /// Sleep for the interval.
    Sleep,
    /// Stop: the run is over.
    Stop,
}

/// An event, as plain values. Of a page that was fetched they hold the
/// records.
pub enum EventView {
    Start,
    Fetched { status: u16, records: Seq<RecordView> },
    FetchFailed,
    DeliveryAttempted { succeeded: bool },
    Woke,
    Cancelled,
}

/// An action, as plain values.
pub enum ActionView {
    Fetch,
    Deliver { record: RecordView, position: nat },
    Sleep,
    Stop,
}

/// The event `event` as plain values, for a scheduler whose detail links
/// stand under `detail_base`.
pub open spec fn seen(event: Event, detail_base: Seq<char>) -> EventView {
    match event {
        Event::Start => EventView::Start,
        Event::Fetched { status, content } => EventView::Fetched {
            status,
            records: page_records(content@, detail_base),
        },
        Event::FetchFailed => EventView::FetchFailed,
        Event::DeliveryAttempted { succeeded } => EventView::DeliveryAttempted { succeeded },
        Event::Woke => EventView::Woke,
        Event::Cancelled => EventView::Cancelled,
    }
}

impl View for Action {
    type V = ActionView;

    open spec fn view(&self) -> ActionView {
        match *self {
            Action::Fetch => ActionView::Fetch,
            Action::Deliver { record, position } => ActionView::Deliver {
                record: record@,
                position: position as nat,
            },
            Action::Sleep => ActionView::Sleep,
            Action::Stop => ActionView::Stop,
        }
    }
}

impl DeepView for Action {
    type V = ActionView;

    open spec fn deep_view(&self) -> ActionView {
        self@
    }
}

/// What a scheduler holds, as plain values.
pub struct SchedulerView {
    pub phase: Phase,
    pub tracker: TrackerView,
    /// The address under which the detail pages stand.
    pub detail_base: Seq<char>,
    /// The new records of this cycle.
    pub pending: Seq<RecordView>,
    /// How many of them have been attempted.
    pub attempted: nat,
    /// How many cycles are complete; counted only where a limit is set.
    pub completed: nat,
    /// After how many cycles the run is over, if ever.
    pub limit: Option<u64>,
}

/// The scheduler before its run: idle, with a fresh tracker.
pub open spec fn initial_state(
    rules: RulesView,
    detail_base: Seq<char>,
    limit: Option<u64>,
) -> SchedulerView {
    SchedulerView {
        phase: Phase::Idle,
        tracker: fresh_tracker(rules),
        detail_base,
        pending: Seq::empty(),
        attempted: 0,
        completed: 0,
        limit,
    }
}

/// Whether the cycles that `limit` allows are complete.
pub open spec fn exhausted(completed: nat, limit: Option<u64>) -> bool {
    match limit {
        Some(most) => completed >= most,
        None => false,
    }
}

/// The count of complete cycles after one more cycle.
pub open spec fn counted(completed: nat, limit: Option<u64>) -> nat {
    match limit {
        Some(most) => if completed < most {
            completed + 1
        } else {
            completed
        },
        None => completed,
    }
}

/// Whether the scheduler waits for something outside in `phase`: a fetch, a
/// delivery or the end of the interval. Only then is a cancellation heard.
pub open spec fn suspended(phase: Phase) -> bool {
    phase == Phase::Fetching || phase == Phase::Notifying || phase == Phase::Sleeping
}

/// Whether the scheduler `state` expects `event`. An event that it does not
/// expect changes nothing.
pub open spec fn expects(state: SchedulerView, event: EventView) -> bool {
    match (state.phase, event) {
        (phase, EventView::Cancelled) => suspended(phase),
        (Phase::Idle, EventView::Start) => true,
        (Phase::Fetching, EventView::Fetched { .. }) => true,
        (Phase::Fetching, EventView::FetchFailed) => true,
        (Phase::Notifying, EventView::DeliveryAttempted { .. }) => true,
        (Phase::Sleeping, EventView::Woke) => true,
        _ => false,
    }
}

/// The scheduler `state` at the end of a cycle: asleep, with nothing
/// pending.
pub open spec fn asleep(state: SchedulerView) -> SchedulerView {
    SchedulerView { phase: Phase::Sleeping, pending: Seq::empty(), attempted: 0, ..state }
}

/// The scheduler `state` at the end of its run: stopped, with nothing
/// pending.
pub open spec fn stopped(state: SchedulerView) -> SchedulerView {
    SchedulerView { phase: Phase::Stopped, pending: Seq::empty(), attempted: 0, ..state }
}

/// The scheduler `state` with the page fetched and its records to come.
pub open spec fn diffing(state: SchedulerView) -> SchedulerView {
    SchedulerView { phase: Phase::Diffing, ..state }
}

/// The scheduler `state` once its tracker has taken in the records
/// `records` of the page: notifying where there is news, and else asleep.
pub open spec fn after_diff(state: SchedulerView, records: Seq<RecordView>) -> SchedulerView {
    let news = announced(state.tracker, records);
    let tracker = taken_in(state.tracker, records);
    if news.len() > 0 {
        SchedulerView { phase: Phase::Notifying, tracker, pending: news, attempted: 0, ..state }
    } else {
        asleep(SchedulerView { tracker, ..state })
    }
}

/// The state that follows `state` on `event`.
pub open spec fn next_state(state: SchedulerView, event: EventView) -> SchedulerView {
    match (state.phase, event) {
        (phase, EventView::Cancelled) => if suspended(phase) {
            stopped(state)
        } else {
            state
        },
        (Phase::Idle, EventView::Start) => if exhausted(state.completed, state.limit) {
            SchedulerView { phase: Phase::Stopped, ..state }
        } else {
            SchedulerView { phase: Phase::Fetching, ..state }
        },
        (Phase::Fetching, EventView::Fetched { status, records }) => if status == STATUS_OK {
            after_diff(diffing(state), records)
        } else {
            asleep(state)
        },
        (Phase::Fetching, EventView::FetchFailed) => asleep(state),
        (Phase::Notifying, EventView::DeliveryAttempted { .. }) => if state.attempted + 1
            < state.pending.len() {
            SchedulerView { attempted: state.attempted + 1, ..state }
        } else {
            asleep(state)
        },
        (Phase::Sleeping, EventView::Woke) => {
            let completed = counted(state.completed, state.limit);
            if exhausted(completed, state.limit) {
                SchedulerView { phase: Phase::Stopped, completed, ..state }
            } else {
                SchedulerView { phase: Phase::Fetching, completed, ..state }
            }
        },
        _ => state,
    }
}

/// The action that the scheduler asks for on coming to rest in the phase
/// of `state`; it never comes to rest in `Idle` or `Diffing`.
pub open spec fn asked(state: SchedulerView) -> Option<ActionView> {
    match state.phase {
        Phase::Idle => None,
        Phase::Fetching => Some(ActionView::Fetch),
        Phase::Diffing => None,
        Phase::Notifying => Some(
            ActionView::Deliver {
                record: state.pending[state.attempted as int],
                position: state.attempted,
            },
        ),
        Phase::Sleeping => Some(ActionView::Sleep),
        Phase::Stopped => Some(ActionView::Stop),
    }
}

/// The action that the scheduler `state` answers `event` with, if it
/// expects the event.
pub open spec fn next_action(state: SchedulerView, event: EventView) -> Option<ActionView> {
    if expects(state, event) {
        asked(next_state(state, event))
    } else {
        None
    }
}

/// The poll scheduler. It owns the tracker, and with it the store.
pub struct Scheduler {
    phase: Phase,
    tracker: Tracker,
    detail_base: String,
    pending: Vec<Record>,
    attempted: usize,
    completed: u64,
    limit: Option<u64>,
}

impl View for Scheduler {
    type V = SchedulerView;

    closed spec fn view(&self) -> SchedulerView {
        SchedulerView {
            phase: self.phase,
            tracker: self.tracker@,
            detail_base: self.detail_base@,
            pending: self.pending.deep_view(),
            attempted: self.attempted as nat,
            completed: self.completed as nat,
            limit: self.limit,
        }
    }
}

impl Scheduler {
    /// A scheduler that has not begun, applies `rules`, puts the detail
    /// links under `detail_base`, and is over after `limit` cycles, or
    /// never if `limit` is `None`.
    pub fn new(rules: Rules, detail_base: String, limit: Option<u64>) -> (scheduler: Scheduler)
        ensures
            scheduler@ == initial_state(rules@, detail_base@, limit),
    {
        let scheduler = Scheduler {
            phase: Phase::Idle,
            tracker: Tracker::new(rules),
            detail_base,
            pending: Vec::new(),
            attempted: 0,
            completed: 0,
            limit,
        };
        assert(scheduler@.pending =~= Seq::<RecordView>::empty());
        scheduler
    }

    /// Where the scheduler stands.
    pub fn phase(&self) -> (phase: Phase)
        ensures
            phase == self@.phase,
    {
        self.phase
    }

    /// The tracker, and through it the store and the rules.
    pub fn tracker(&self) -> (tracker: &Tracker)
        ensures
            tracker@ == self@.tracker,
    {
        &self.tracker
    }

    /// How many cycles are complete; counted only where a limit is set.
    pub fn completed(&self) -> (completed: u64)
        ensures
            completed == self@.completed,
    {
        self.completed
    }

    fn is_exhausted(&self) -> (done: bool)
        ensures
            done == exhausted(self@.completed, self@.limit),
    {
        match self.limit {
            Some(most) => self.completed >= most,
            None => false,
        }
    }

    fn fall_asleep(&mut self) -> (action: Action)
        ensures
            final(self)@ == asleep(old(self)@),
            action@ == ActionView::Sleep,
    {
        self.phase = Phase::Sleeping;
        self.pending = Vec::new();
        self.attempted = 0;
        assert(self@.pending =~= Seq::<RecordView>::empty());
        Action::Sleep
    }

    fn finish_diff(&mut self, records: Vec<Record>) -> (action: Action)
        ensures
            final(self)@ == after_diff(old(self)@, records.deep_view()),
            Some(action@) == asked(after_diff(old(self)@, records.deep_view())),
    {
        let news = self.tracker.take_in(&records);
        if news.len() > 0 {
            let first = news[0].clone();
            assert(first@ == news.deep_view()[0]);
            self.phase = Phase::Notifying;
            self.pending = news;
            self.attempted = 0;
            Action::Deliver { record: first, position: 0 }
        } else {
            self.fall_asleep()
        }
    }

    /// Takes `event` and answers with what to do next. A page that was
    /// fetched with success is extracted and diffed before the answer. An
    /// event that the scheduler does not expect in its phase changes
    /// nothing and is answered with `None`.
    pub fn step(&mut self, event: Event) -> (action: Option<Action>)
        ensures
            final(self)@ == next_state(old(self)@, seen(event, old(self)@.detail_base)),
            action.deep_view() == next_action(old(self)@, seen(event, old(self)@.detail_base)),
    {
        match (self.phase, event) {
            (Phase::Fetching, Event::Cancelled)
            | (Phase::Notifying, Event::Cancelled)
            | (Phase::Sleeping, Event::Cancelled) => {
                self.phase = Phase::Stopped;
                self.pending = Vec::new();
                self.attempted = 0;
                assert(self@.pending =~= Seq::<RecordView>::empty());
                Some(Action::Stop)
            },
            (Phase::Idle, Event::Start) => {
                if self.is_exhausted() {
                    self.phase = Phase::Stopped;
                    Some(Action::Stop)
                } else {
                    self.phase = Phase::Fetching;
                    Some(Action::Fetch)
                }
            },
            (Phase::Fetching, Event::Fetched { status, content }) => {
                if status == STATUS_OK {
                    self.phase = Phase::Diffing;
                    let records = extract(content.as_str(), self.detail_base.as_str());
                    Some(self.finish_diff(records))
                } else {
                    Some(self.fall_asleep())
                }
            },
            (Phase::Fetching, Event::FetchFailed) => Some(self.fall_asleep()),
            (Phase::Notifying, Event::DeliveryAttempted { succeeded: _ }) => {
                if self.pending.len() > 0 && self.attempted < self.pending.len() - 1 {
                    self.attempted = self.attempted + 1;
                    let record = self.pending[self.attempted].clone();
                    assert(record@ == self.pending.deep_view()[self.attempted as int]);
                    Some(Action::Deliver { record, position: self.attempted })
                } else {
                    Some(self.fall_asleep())
                }
            },
            (Phase::Sleeping, Event::Woke) => {
                match self.limit {
                    Some(most) => {
                        if self.completed < most {
                            self.completed = self.completed + 1;
                        }
                    },
                    None => {},
                }
                if self.is_exhausted() {
                    self.phase = Phase::Stopped;
                    Some(Action::Stop)
                } else {
                    self.phase = Phase::Fetching;
                    Some(Action::Fetch)
                }
            },
            _ => None,
        }
    }
}

} // verus!
