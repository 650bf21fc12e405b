use listing_watch::eligibility::Rules;
use listing_watch::record::{Record, RecordId};
use listing_watch::scheduler::{Action, Event, Phase, Scheduler, STATUS_OK};

fn record(id: &str, name: &str, category: &str, age: &str) -> Record {
    Record::new(
        RecordId::new(id.to_string()),
        name.to_string(),
        category.to_string(),
        age.to_string(),
        BASE,
    )
}

fn id(text: &str) -> RecordId {
    RecordId::new(text.to_string())
}

const BASE: &str = "https://example.org/details/";

fn scheduler(limit: Option<u64>) -> Scheduler {
    Scheduler::new(Rules::new(&vec!["Terrier".to_string()], 4), BASE.to_string(), limit)
}

/// A listing page that holds `records`, in order.
fn page(records: &[Record]) -> String {
    let mut markup = String::from("<main>");
    for record in records {
        markup.push_str(&format!(
            "<div data-ohssb-type=\"dog\">\
             <span class=\"name\">{}</span><span class=\"id\">{}</span>\
             <span class=\"breed\">{}</span><span class=\"age\">{}</span>\
             </div>",
            record.name(),
            record.id().as_str(),
            record.category(),
            record.age()
        ));
    }
    markup.push_str("</main>");
    markup
}

fn fetched(records: &[Record]) -> Event {
    Event::Fetched { status: 200, content: page(records) }
}

/// Runs one cycle whose fetch succeeds with `records`, every delivery
/// answered with `delivered`, up to and including the sleep; returns the
/// records whose delivery was asked for.
fn cycle(s: &mut Scheduler, records: Vec<Record>, delivered: bool) -> Vec<Record> {
    assert_eq!(s.phase(), Phase::Fetching);
    let mut asked = Vec::new();
    let mut action = s.step(fetched(&records));
    loop {
        match action {
            Some(Action::Deliver { record, position }) => {
                assert_eq!(s.phase(), Phase::Notifying);
                assert_eq!(position, asked.len());
                asked.push(record);
                action = s.step(Event::DeliveryAttempted { succeeded: delivered });
            }
            other => {
                assert_eq!(other, Some(Action::Sleep));
                assert_eq!(s.phase(), Phase::Sleeping);
                return asked;
            }
        }
    }
}

#[test]
fn status_ok_is_200() {
    assert_eq!(STATUS_OK, 200);
}

#[test]
fn new_scheduler_is_idle() {
    let s = scheduler(None);
    assert_eq!(s.phase(), Phase::Idle);
    assert_eq!(s.completed(), 0);
    assert!(!s.tracker().is_seeded());
}

#[test]
fn start_asks_for_a_fetch() {
    let mut s = scheduler(None);
    assert_eq!(s.step(Event::Start), Some(Action::Fetch));
    assert_eq!(s.phase(), Phase::Fetching);
}

#[test]
fn start_with_no_cycles_allowed_stops() {
    let mut s = scheduler(Some(0));
    assert_eq!(s.step(Event::Start), Some(Action::Stop));
    assert_eq!(s.phase(), Phase::Stopped);
}

#[test]
fn first_fetch_seeds_and_second_announces_the_newcomer() {
    let d = record("100", "D", "Hound", "1 years");
    let e = record("101", "E", "Hound", "2 years");
    let mut s = scheduler(None);
    assert_eq!(s.step(Event::Start), Some(Action::Fetch));
    assert_eq!(cycle(&mut s, vec![d.clone()], true), vec![]);
    assert!(s.tracker().store().contains(&id("100")));
    assert_eq!(s.step(Event::Woke), Some(Action::Fetch));
    assert_eq!(cycle(&mut s, vec![d, e.clone()], true), vec![e]);
    assert!(s.tracker().store().contains(&id("101")));
}

#[test]
fn seeding_run_keeps_only_the_eligible() {
    let a = record("1", "A", "Terrier Mix", "2 years");
    let b = record("2", "B", "Hound", "3 years");
    let c = record("3", "C", "Hound", "5 years");
    let mut s = scheduler(None);
    s.step(Event::Start);
    assert_eq!(cycle(&mut s, vec![a, b.clone(), c], true), vec![]);
    let store = s.tracker().store();
    assert!(!store.contains(&id("1")));
    assert_eq!(store.get(&id("2")), Some(&b));
    assert!(!store.contains(&id("3")));
}

#[test]
fn failed_fetch_is_a_cycle_without_effect() {
    let d = record("100", "D", "Hound", "1 years");
    let mut s = scheduler(None);
    s.step(Event::Start);
    cycle(&mut s, vec![d.clone()], true);
    assert_eq!(s.step(Event::Woke), Some(Action::Fetch));
    assert_eq!(s.step(Event::FetchFailed), Some(Action::Sleep));
    assert_eq!(s.phase(), Phase::Sleeping);
    assert!(s.tracker().store().contains(&id("100")));
    assert!(!s.tracker().store().contains(&id("101")));
    assert_eq!(s.tracker().store().get(&id("100")), Some(&d));
    assert_eq!(s.step(Event::Woke), Some(Action::Fetch));
    let e = record("101", "E", "Hound", "2 years");
    assert_eq!(cycle(&mut s, vec![d, e.clone()], true), vec![e]);
}

#[test]
fn failed_first_fetch_leaves_the_seeding_to_the_next() {
    let d = record("100", "D", "Hound", "1 years");
    let mut s = scheduler(None);
    s.step(Event::Start);
    assert_eq!(s.step(Event::FetchFailed), Some(Action::Sleep));
    assert!(!s.tracker().is_seeded());
    assert_eq!(s.step(Event::Woke), Some(Action::Fetch));
    assert_eq!(cycle(&mut s, vec![d], true), vec![]);
    assert!(s.tracker().is_seeded());
}

#[test]
fn status_other_than_ok_is_a_failed_fetch() {
    let d = record("100", "D", "Hound", "1 years");
    for status in [0u16, 199, 201, 204, 301, 404, 500, u16::MAX] {
        let mut s = scheduler(None);
        s.step(Event::Start);
        let answer = Event::Fetched { status, content: page(&[d.clone()]) };
        assert_eq!(s.step(answer), Some(Action::Sleep), "{}", status);
        assert_eq!(s.phase(), Phase::Sleeping);
        assert!(!s.tracker().is_seeded());
        assert!(!s.tracker().store().contains(&id("100")));
    }
}

#[test]
fn every_new_record_is_delivered_in_order() {
    let mut s = scheduler(None);
    s.step(Event::Start);
    cycle(&mut s, vec![], true);
    s.step(Event::Woke);
    let fresh = vec![
        record("1", "A", "Hound", "1 years"),
        record("2", "B", "Terrier", "1 years"),
        record("3", "C", "Beagle", "2 years"),
        record("4", "D", "Poodle", "3 years"),
    ];
    let expected = vec![fresh[0].clone(), fresh[2].clone(), fresh[3].clone()];
    assert_eq!(cycle(&mut s, fresh, true), expected);
}

#[test]
fn failed_delivery_does_not_stop_the_others() {
    let mut s = scheduler(None);
    s.step(Event::Start);
    cycle(&mut s, vec![], true);
    s.step(Event::Woke);
    let a = record("1", "A", "Hound", "1 years");
    let b = record("2", "B", "Hound", "1 years");
    assert_eq!(
        s.step(fetched(&[a.clone(), b.clone()])),
        Some(Action::Deliver { record: a.clone(), position: 0 })
    );
    assert_eq!(
        s.step(Event::DeliveryAttempted { succeeded: false }),
        Some(Action::Deliver { record: b.clone(), position: 1 })
    );
    assert_eq!(s.step(Event::DeliveryAttempted { succeeded: false }), Some(Action::Sleep));
    assert_eq!(s.phase(), Phase::Sleeping);
}

#[test]
fn failed_delivery_is_not_tried_again() {
    let mut s = scheduler(None);
    s.step(Event::Start);
    cycle(&mut s, vec![], true);
    s.step(Event::Woke);
    let a = record("1", "A", "Hound", "1 years");
    assert_eq!(cycle(&mut s, vec![a.clone()], false), vec![a.clone()]);
    s.step(Event::Woke);
    assert_eq!(cycle(&mut s, vec![a], true), vec![]);
}

#[test]
fn run_stops_after_the_configured_cycles() {
    let mut s = scheduler(Some(3));
    assert_eq!(s.step(Event::Start), Some(Action::Fetch));
    for done in 1..=2u64 {
        cycle(&mut s, vec![], true);
        assert_eq!(s.step(Event::Woke), Some(Action::Fetch));
        assert_eq!(s.completed(), done);
    }
    assert_eq!(s.step(Event::FetchFailed), Some(Action::Sleep));
    assert_eq!(s.step(Event::Woke), Some(Action::Stop));
    assert_eq!(s.phase(), Phase::Stopped);
    assert_eq!(s.completed(), 3);
}

#[test]
fn run_without_limit_goes_on() {
    let mut s = scheduler(None);
    s.step(Event::Start);
    for _ in 0..200 {
        assert_eq!(s.step(Event::FetchFailed), Some(Action::Sleep));
        assert_eq!(s.step(Event::Woke), Some(Action::Fetch));
    }
    assert_eq!(s.phase(), Phase::Fetching);
    assert_eq!(s.completed(), 0);
}

#[test]
fn stopped_scheduler_answers_nothing() {
    let mut s = scheduler(Some(1));
    s.step(Event::Start);
    s.step(Event::FetchFailed);
    assert_eq!(s.step(Event::Woke), Some(Action::Stop));
    assert_eq!(s.step(Event::Start), None);
    assert_eq!(s.step(Event::Woke), None);
    assert_eq!(s.step(Event::FetchFailed), None);
    assert_eq!(s.step(fetched(&[])), None);
    assert_eq!(s.step(Event::DeliveryAttempted { succeeded: true }), None);
    assert_eq!(s.phase(), Phase::Stopped);
}

#[test]
fn unexpected_event_changes_nothing() {
    let d = record("100", "D", "Hound", "1 years");
    let e = record("101", "E", "Hound", "1 years");
    let mut s = scheduler(Some(5));
    assert_eq!(s.step(Event::Woke), None);
    assert_eq!(s.step(fetched(&[d.clone()])), None);
    assert_eq!(s.step(Event::FetchFailed), None);
    assert_eq!(s.phase(), Phase::Idle);
    assert!(!s.tracker().is_seeded());
    assert!(!s.tracker().store().contains(&id("100")));
    s.step(Event::Start);
    assert_eq!(s.step(Event::Start), None);
    assert_eq!(s.step(Event::DeliveryAttempted { succeeded: true }), None);
    assert_eq!(s.step(Event::Woke), None);
    assert_eq!(s.phase(), Phase::Fetching);
    assert_eq!(s.step(fetched(&[])), Some(Action::Sleep));
    assert_eq!(s.step(fetched(&[d.clone()])), None);
    assert_eq!(s.step(Event::FetchFailed), None);
    assert_eq!(s.step(Event::DeliveryAttempted { succeeded: true }), None);
    assert_eq!(s.phase(), Phase::Sleeping);
    assert!(!s.tracker().store().contains(&id("100")));
    s.step(Event::Woke);
    assert_eq!(
        s.step(fetched(&[d.clone(), e])),
        Some(Action::Deliver { record: d, position: 0 })
    );
    assert_eq!(s.step(fetched(&[])), None);
    assert_eq!(s.step(Event::Woke), None);
    assert_eq!(s.step(Event::Start), None);
    assert_eq!(s.phase(), Phase::Notifying);
    assert_eq!(s.completed(), 1);
}

#[test]
fn scheduler_never_rests_while_diffing() {
    let d = record("100", "D", "Hound", "1 years");
    let mut s = scheduler(None);
    s.step(Event::Start);
    s.step(fetched(&[]));
    assert_eq!(s.phase(), Phase::Sleeping);
    s.step(Event::Woke);
    s.step(fetched(&[d]));
    assert_eq!(s.phase(), Phase::Notifying);
    assert_ne!(s.phase(), Phase::Diffing);
}

#[test]
fn page_is_read_by_the_scheduler_itself() {
    let mut s = scheduler(None);
    s.step(Event::Start);
    assert_eq!(s.step(fetched(&[])), Some(Action::Sleep));
    s.step(Event::Woke);
    let content = "<div data-ohssb-type=\"dog\">\
        <span class=\"id\">7</span><span class=\"name\">Rex &amp; Co</span>\
        <span class=\"breed\">Hound\tMix</span><span class=\"age\">300 months</span>\
        </div>\
        <div data-ohssb-type=\"dog\">\
        <span class=\"id\">8</span><span class=\"breed\">Hound</span>\
        <span class=\"age\">300 years</span>\
        </div>\
        <div data-ohssb-type=\"cat\"><span class=\"id\">9</span></div>"
        .to_string();
    let expected = record("7", "Rex &amp; Co", "Hound\tMix", "300 months");
    assert_eq!(
        s.step(Event::Fetched { status: 200, content }),
        Some(Action::Deliver { record: expected.clone(), position: 0 })
    );
    assert_eq!(expected.url(), "https://example.org/details/7/");
    assert_eq!(s.step(Event::DeliveryAttempted { succeeded: true }), Some(Action::Sleep));
    assert!(s.tracker().store().contains(&id("7")));
    assert!(!s.tracker().store().contains(&id("8")));
    assert!(!s.tracker().store().contains(&id("9")));
}

#[test]
fn page_without_markup_is_a_cycle_without_news() {
    let mut s = scheduler(None);
    s.step(Event::Start);
    let nothing = Event::Fetched { status: 200, content: String::new() };
    assert_eq!(s.step(nothing), Some(Action::Sleep));
    assert!(s.tracker().is_seeded());
    s.step(Event::Woke);
    let broken = Event::Fetched { status: 200, content: "<div data-ohssb".to_string() };
    assert_eq!(s.step(broken), Some(Action::Sleep));
    assert_eq!(s.phase(), Phase::Sleeping);
}

#[test]
fn cancellation_stops_a_waiting_scheduler() {
    let mut fetching = scheduler(None);
    fetching.step(Event::Start);
    assert_eq!(fetching.step(Event::Cancelled), Some(Action::Stop));
    assert_eq!(fetching.phase(), Phase::Stopped);

    let mut sleeping = scheduler(None);
    sleeping.step(Event::Start);
    sleeping.step(Event::FetchFailed);
    assert_eq!(sleeping.step(Event::Cancelled), Some(Action::Stop));
    assert_eq!(sleeping.phase(), Phase::Stopped);
    assert_eq!(sleeping.step(Event::Woke), None);

    let mut notifying = scheduler(None);
    notifying.step(Event::Start);
    cycle(&mut notifying, vec![], true);
    notifying.step(Event::Woke);
    let a = record("1", "A", "Hound", "1 years");
    let b = record("2", "B", "Hound", "1 years");
    notifying.step(fetched(&[a, b]));
    assert_eq!(notifying.phase(), Phase::Notifying);
    assert_eq!(notifying.step(Event::Cancelled), Some(Action::Stop));
    assert_eq!(notifying.phase(), Phase::Stopped);
    assert_eq!(notifying.step(Event::DeliveryAttempted { succeeded: true }), None);
    assert!(notifying.tracker().store().contains(&id("1")));
    assert!(notifying.tracker().store().contains(&id("2")));
}

#[test]
fn cancellation_is_not_heard_while_nothing_is_awaited() {
    let mut idle = scheduler(None);
    assert_eq!(idle.step(Event::Cancelled), None);
    assert_eq!(idle.phase(), Phase::Idle);

    let mut stopped = scheduler(Some(0));
    stopped.step(Event::Start);
    assert_eq!(stopped.step(Event::Cancelled), None);
    assert_eq!(stopped.phase(), Phase::Stopped);
}
