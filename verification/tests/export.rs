use rustytime::instant::Instant;
use rustytime::ledger::Ledger;
use rustytime::models::TimeEntry;
use rustytime::services::export::export_entries;
use rustytime::services::timer::start_with;

fn at(unix_seconds: i64) -> Instant {
    Instant::new(unix_seconds, 0, 0).unwrap()
}

fn ids(rows: &Vec<TimeEntry>) -> Vec<String> {
    rows.iter().map(|e| e.id.clone()).collect()
}

fn sample() -> Ledger {
    let mut ledger = Ledger::new();
    start_with(&mut ledger, "A", "E1".to_string(), at(1_000), "2024-01-01".to_string()).unwrap();
    start_with(&mut ledger, "B", "E2".to_string(), at(2_000), "2024-01-02".to_string()).unwrap();
    start_with(&mut ledger, "A", "E3".to_string(), at(3_000), "2024-01-02".to_string()).unwrap();
    start_with(&mut ledger, "C", "E4".to_string(), at(4_000), "2024-01-04".to_string()).unwrap();
    ledger
}

#[test]
fn export_without_bounds_gives_every_entry() {
    let ledger = sample();
    let rows = export_entries(&ledger, None, None);
    assert_eq!(ids(&rows), vec!["E1", "E2", "E3", "E4"]);
    assert_eq!(rows[0].duration_seconds, Some(1_000));
    assert_eq!(rows[0].end_time, Some(at(2_000)));
    assert_eq!(rows[0].task_id, "A");
    assert_eq!(rows[0].local_date, "2024-01-01");
    // The open entry is exported too.
    assert_eq!(rows[3].end_time, None);
    assert_eq!(rows[3].duration_seconds, None);
}

#[test]
fn export_bounds_are_inclusive() {
    let ledger = sample();
    assert_eq!(
        ids(&export_entries(&ledger, Some("2024-01-02"), Some("2024-01-04"))),
        vec!["E2", "E3", "E4"]
    );
    assert_eq!(
        ids(&export_entries(&ledger, Some("2024-01-02"), Some("2024-01-02"))),
        vec!["E2", "E3"]
    );
    assert_eq!(ids(&export_entries(&ledger, None, Some("2024-01-01"))), vec!["E1"]);
    assert_eq!(ids(&export_entries(&ledger, Some("2024-01-04"), None)), vec!["E4"]);
}

#[test]
fn export_of_an_empty_range() {
    let ledger = sample();
    assert!(export_entries(&ledger, Some("2024-01-03"), Some("2024-01-03")).is_empty());
    assert!(export_entries(&ledger, Some("2024-01-05"), None).is_empty());
    assert!(export_entries(&ledger, Some("2024-01-04"), Some("2024-01-01")).is_empty());
    assert!(export_entries(&Ledger::new(), None, None).is_empty());
}

#[test]
fn export_orders_by_start_not_by_position() {
    // A ledger loaded with its entries out of order.
    let entry = |id: &str, start: i64| {
        TimeEntry::open(id.to_string(), "A".to_string(), at(start), "2024-01-01".to_string())
            .stopped_at(at(start + 5))
    };
    let ledger = Ledger::from_parts(
        vec![entry("late", 9_000), entry("early", 1_000), entry("middle", 5_000)],
        None,
    )
    .unwrap();
    assert_eq!(ids(&export_entries(&ledger, None, None)), vec!["early", "middle", "late"]);
}

#[test]
fn export_orders_by_the_instant_whatever_the_offset() {
    let entry = |id: &str, start: Instant| {
        TimeEntry::open(id.to_string(), "A".to_string(), start, "2024-01-01".to_string())
    };
    // 10:00+02:00 is 08:00Z, earlier than 09:00Z.
    let east = Instant::new(1_704_096_000, 0, 7_200).unwrap();
    let utc = Instant::new(1_704_099_600, 0, 0).unwrap();
    let ledger = Ledger::from_parts(
        vec![entry("utc", utc).stopped_at(utc), entry("east", east).stopped_at(east)],
        None,
    )
    .unwrap();
    assert_eq!(ids(&export_entries(&ledger, None, None)), vec!["east", "utc"]);
}
