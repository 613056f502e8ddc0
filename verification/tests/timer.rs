use rustytime::error::StorageFailure;
use rustytime::instant::Instant;
use rustytime::ledger::Ledger;
use rustytime::models::TimeEntry;
use rustytime::services::timer::{start, start_with, stop, stop_at};
use rustytime::services::timeutil::local_date_warsaw;

fn at(unix_seconds: i64) -> Instant {
    Instant::new(unix_seconds, 0, 0).unwrap()
}

fn open_count(ledger: &Ledger) -> usize {
    ledger.entries().iter().filter(|e| e.end_time.is_none()).count()
}

fn begin(ledger: &mut Ledger, task: &str, id: &str, now: Instant) -> Result<String, StorageFailure> {
    start_with(ledger, task, id.to_string(), now, local_date_warsaw(now))
}

#[test]
fn a_new_ledger_is_empty() {
    let ledger = Ledger::new();
    assert!(ledger.entries().is_empty());
    assert_eq!(ledger.active(), None);
}

#[test]
fn start_opens_an_entry_and_the_register_names_it() {
    let mut ledger = Ledger::new();
    let now = at(1_721_044_800); // 2024-07-15T12:00:00Z
    let id = begin(&mut ledger, "T1", "E1", now).unwrap();
    assert_eq!(id, "E1");
    assert_eq!(ledger.active(), Some("E1"));
    assert_eq!(ledger.entries().len(), 1);
    let e = &ledger.entries()[0];
    assert_eq!(e.id, "E1");
    assert_eq!(e.task_id, "T1");
    assert_eq!(e.start_time, now);
    assert_eq!(e.created_at, now);
    assert_eq!(e.end_time, None);
    assert_eq!(e.duration_seconds, None);
    assert_eq!(e.local_date, "2024-07-15");
}

#[test]
fn stop_closes_the_running_entry() {
    let mut ledger = Ledger::new();
    begin(&mut ledger, "T1", "E1", at(1_000)).unwrap();
    ledger.close_running(at(1_090));
    assert_eq!(ledger.active(), None);
    let e = &ledger.entries()[0];
    assert_eq!(e.end_time, Some(at(1_090)));
    assert_eq!(e.duration_seconds, Some(90));
    assert_eq!(e.start_time, at(1_000));
    assert_eq!(open_count(&ledger), 0);
}

#[test]
fn stop_with_nothing_running_changes_nothing() {
    let mut ledger = Ledger::new();
    ledger.close_running(at(5));
    assert!(ledger.entries().is_empty());
    assert_eq!(ledger.active(), None);

    begin(&mut ledger, "T1", "E1", at(1_000)).unwrap();
    ledger.close_running(at(1_010));
    ledger.close_running(at(9_999));
    let e = &ledger.entries()[0];
    assert_eq!(e.end_time, Some(at(1_010)));
    assert_eq!(e.duration_seconds, Some(10));
    assert_eq!(ledger.entries().len(), 1);
    assert_eq!(ledger.active(), None);
}

#[test]
fn stop_reads_no_clock_when_nothing_runs() {
    let mut ledger = Ledger::new();
    assert_eq!(stop(&mut ledger), Ok(()));
    assert!(ledger.entries().is_empty());
    assert_eq!(ledger.active(), None);
}

#[test]
fn stop_at_needs_the_clock_only_when_something_runs() {
    let mut ledger = Ledger::new();
    assert_eq!(stop_at(&mut ledger, None), Ok(()));
    assert_eq!(stop_at(&mut ledger, Some(at(7))), Ok(()));
    assert!(ledger.entries().is_empty());

    begin(&mut ledger, "T1", "E1", at(1_000)).unwrap();
    assert_eq!(stop_at(&mut ledger, None), Err(StorageFailure::ClockOutOfRange));
    // The timer keeps running.
    assert_eq!(ledger.active(), Some("E1"));
    assert_eq!(ledger.entries()[0].end_time, None);
    assert_eq!(ledger.entries()[0].duration_seconds, None);

    assert_eq!(stop_at(&mut ledger, Some(at(1_045))), Ok(()));
    assert_eq!(ledger.active(), None);
    assert_eq!(ledger.entries()[0].end_time, Some(at(1_045)));
    assert_eq!(ledger.entries()[0].duration_seconds, Some(45));
    assert_eq!(stop_at(&mut ledger, None), Ok(()));
}

#[test]
fn start_while_running_stops_the_previous_timer() {
    let mut ledger = Ledger::new();
    begin(&mut ledger, "A", "E1", at(1_000)).unwrap();
    begin(&mut ledger, "B", "E2", at(1_250)).unwrap();
    assert_eq!(ledger.active(), Some("E2"));
    assert_eq!(ledger.entries().len(), 2);
    let first = &ledger.entries()[0];
    assert_eq!(first.id, "E1");
    assert_eq!(first.end_time, Some(at(1_250)));
    assert_eq!(first.duration_seconds, Some(250));
    let second = &ledger.entries()[1];
    assert_eq!(second.id, "E2");
    assert_eq!(second.task_id, "B");
    assert_eq!(second.end_time, None);
    assert_eq!(second.duration_seconds, None);
    assert_eq!(open_count(&ledger), 1);
}

#[test]
fn a_clock_that_stepped_back_gives_a_duration_of_zero() {
    let mut ledger = Ledger::new();
    begin(&mut ledger, "A", "E1", at(2_000)).unwrap();
    ledger.close_running(at(1_500));
    let e = &ledger.entries()[0];
    assert_eq!(e.duration_seconds, Some(0));
    assert_eq!(e.end_time, Some(at(1_500)));

    begin(&mut ledger, "A", "E2", at(3_000)).unwrap();
    begin(&mut ledger, "B", "E3", at(2_999)).unwrap();
    assert_eq!(ledger.entries()[1].duration_seconds, Some(0));
}

#[test]
fn durations_are_whole_seconds_rounded_down() {
    let mut ledger = Ledger::new();
    let t0 = Instant::new(1_000, 600_000_000, 0).unwrap();
    let t1 = Instant::new(1_002, 599_999_999, 0).unwrap();
    start_with(&mut ledger, "A", "E1".to_string(), t0, "1970-01-01".to_string()).unwrap();
    ledger.close_running(t1);
    assert_eq!(ledger.entries()[0].duration_seconds, Some(1));
}

#[test]
fn start_refuses_an_identifier_that_is_taken() {
    let mut ledger = Ledger::new();
    begin(&mut ledger, "A", "E1", at(1_000)).unwrap();
    let r = begin(&mut ledger, "B", "E1", at(1_100));
    assert_eq!(r, Err(StorageFailure::DuplicateId));
    // Nothing changed: the old timer still runs.
    assert_eq!(ledger.entries().len(), 1);
    assert_eq!(ledger.active(), Some("E1"));
    assert_eq!(ledger.entries()[0].end_time, None);
    assert_eq!(ledger.entries()[0].task_id, "A");

    ledger.close_running(at(1_200));
    let r = begin(&mut ledger, "B", "E1", at(1_300));
    assert_eq!(r, Err(StorageFailure::DuplicateId));
    assert_eq!(ledger.entries().len(), 1);
    assert_eq!(ledger.active(), None);
}

#[test]
fn at_most_one_entry_is_open_after_any_calls() {
    let mut ledger = Ledger::new();
    let mut now: i64 = 1_700_000_000;
    let calls = [1, 1, 0, 0, 1, 0, 1, 1, 1, 0, 1];
    for (k, call) in calls.iter().enumerate() {
        now += 37;
        if *call == 1 {
            begin(&mut ledger, "T", &format!("E{}", k), at(now)).unwrap();
            assert_eq!(ledger.active(), Some(format!("E{}", k).as_str()));
            assert_eq!(open_count(&ledger), 1);
        } else {
            ledger.close_running(at(now));
            assert_eq!(ledger.active(), None);
            assert_eq!(open_count(&ledger), 0);
        }
        for e in ledger.entries() {
            assert_eq!(e.end_time.is_some(), e.duration_seconds.is_some());
            assert_eq!(e.end_time.is_none(), ledger.active() == Some(e.id.as_str()));
        }
    }
    assert_eq!(ledger.entries().len(), 7);
}

#[test]
fn start_and_stop_on_the_clock() {
    let mut ledger = Ledger::new();
    let e1 = start(&mut ledger, "T1").unwrap();
    assert_eq!(ledger.active(), Some(e1.as_str()));
    assert_eq!(ledger.entries().len(), 1);
    assert_eq!(ledger.entries()[0].id, e1);
    assert_eq!(ledger.entries()[0].end_time, None);
    assert_eq!(ledger.entries()[0].start_time.offset_seconds(), 0);
    assert_eq!(
        ledger.entries()[0].local_date,
        local_date_warsaw(ledger.entries()[0].start_time)
    );

    assert_eq!(stop(&mut ledger), Ok(()));
    assert_eq!(ledger.active(), None);
    assert!(ledger.entries()[0].end_time.is_some());
    assert!(ledger.entries()[0].duration_seconds.unwrap() >= 0);

    let first = start(&mut ledger, "T1").unwrap();
    let second = start(&mut ledger, "T2").unwrap();
    assert_ne!(first, second);
    assert_ne!(first, e1);
    assert_eq!(ledger.entries().len(), 3);
    assert_eq!(ledger.entries()[1].id, first);
    assert!(ledger.entries()[1].end_time.is_some());
    assert!(ledger.entries()[1].duration_seconds.unwrap() >= 0);
    assert_eq!(ledger.entries()[2].id, second);
    assert_eq!(ledger.entries()[2].task_id, "T2");
    assert_eq!(ledger.entries()[2].end_time, None);
    assert_eq!(ledger.active(), Some(second.as_str()));
    assert_eq!(open_count(&ledger), 1);
}

#[test]
fn new_identifiers_are_uuids_in_order_of_time() {
    let mut ledger = Ledger::new();
    let first = start(&mut ledger, "T1").unwrap();
    let second = start(&mut ledger, "T1").unwrap();
    assert_eq!(first.len(), 36);
    assert_eq!(first.matches('-').count(), 4);
    assert_eq!(first.as_bytes()[14], b'7');
    assert!(first < second);
}

#[test]
fn from_parts_accepts_a_ledger_that_holds_together() {
    let mut source = Ledger::new();
    begin(&mut source, "A", "E1", at(1_000)).unwrap();
    begin(&mut source, "B", "E2", at(1_060)).unwrap();
    let entries: Vec<TimeEntry> = source.entries().iter().map(|e| e.duplicate()).collect();
    let ledger = Ledger::from_parts(entries, Some("E2".to_string())).unwrap();
    assert_eq!(ledger.active(), Some("E2"));
    assert_eq!(ledger.entries().len(), 2);
    assert_eq!(ledger.entries()[0].duration_seconds, Some(60));
    assert!(Ledger::from_parts(Vec::new(), None).is_some());
}

#[test]
fn from_parts_refuses_a_register_that_names_no_open_entry() {
    let mut source = Ledger::new();
    begin(&mut source, "A", "E1", at(1_000)).unwrap();
    begin(&mut source, "B", "E2", at(1_060)).unwrap();
    let copy = |l: &Ledger| -> Vec<TimeEntry> { l.entries().iter().map(|e| e.duplicate()).collect() };
    // An open entry that the register does not name.
    assert!(Ledger::from_parts(copy(&source), None).is_none());
    // The register names a closed entry.
    assert!(Ledger::from_parts(copy(&source), Some("E1".to_string())).is_none());
    // The register names an entry that is not there.
    assert!(Ledger::from_parts(copy(&source), Some("E9".to_string())).is_none());
    assert!(Ledger::from_parts(Vec::new(), Some("E1".to_string())).is_none());
}

#[test]
fn from_parts_refuses_two_open_entries() {
    let a = TimeEntry::open("E1".to_string(), "A".to_string(), at(1), "1970-01-01".to_string());
    let b = TimeEntry::open("E2".to_string(), "A".to_string(), at(2), "1970-01-01".to_string());
    assert!(Ledger::from_parts(vec![a, b], Some("E2".to_string())).is_none());
}

#[test]
fn from_parts_refuses_an_identifier_that_occurs_twice() {
    let a = TimeEntry::open("E1".to_string(), "A".to_string(), at(1), "1970-01-01".to_string())
        .stopped_at(at(5));
    let b = TimeEntry::open("E1".to_string(), "B".to_string(), at(6), "1970-01-01".to_string())
        .stopped_at(at(9));
    assert!(Ledger::from_parts(vec![a, b], None).is_none());
}

#[test]
fn from_parts_refuses_an_entry_whose_duration_is_not_its_span() {
    let good = TimeEntry::open("E1".to_string(), "A".to_string(), at(10), "1970-01-01".to_string())
        .stopped_at(at(25));
    assert!(good.check());
    let mut wrong = good.duplicate();
    wrong.duration_seconds = Some(16);
    assert!(!wrong.check());
    assert!(Ledger::from_parts(vec![wrong], None).is_none());
    let mut half = good.duplicate();
    half.duration_seconds = None;
    assert!(!half.check());
    assert!(Ledger::from_parts(vec![half], None).is_none());
    let mut other_half = good.duplicate();
    other_half.end_time = None;
    assert!(!other_half.check());
    assert!(Ledger::from_parts(vec![good], None).is_some());
}

#[test]
fn position_of_finds_an_entry_by_its_identifier() {
    let mut ledger = Ledger::new();
    begin(&mut ledger, "A", "E1", at(1_000)).unwrap();
    begin(&mut ledger, "B", "E2", at(1_060)).unwrap();
    assert_eq!(ledger.position_of("E1"), Some(0));
    assert_eq!(ledger.position_of("E2"), Some(1));
    assert_eq!(ledger.position_of("E3"), None);
    assert!(ledger.contains_id("E2"));
    assert!(!ledger.contains_id("e2"));
}

#[test]
fn failures_say_what_failed() {
    assert_eq!(
        StorageFailure::DuplicateId.message(),
        "an entry with this identifier already exists"
    );
    assert_eq!(
        StorageFailure::ClockOutOfRange.message(),
        "the clock is outside the supported years"
    );
    assert_eq!(
        StorageFailure::TotalOverflow.message(),
        "the total of durations is too large"
    );
}
