use std::collections::{HashMap, HashSet};
use system_ingest::record::ErrorKind;
use system_ingest::scheduler::{distinct_ids, Action, IngestionReport, Scheduler};

fn sets(report: &IngestionReport) -> (HashSet<i64>, HashMap<i64, ErrorKind>) {
    (report.succeeded.iter().copied().collect(), report.failed.iter().copied().collect())
}

/// Drives a run to the end; `unit` gives each ID's outcome. Returns the
/// report, the launch order and the largest number of units seen in flight.
fn drive(
    listing: Result<Vec<i64>, ErrorKind>,
    cap: usize,
    unit: impl Fn(i64) -> Result<(), ErrorKind>,
) -> Result<(IngestionReport, Vec<i64>, usize), ErrorKind> {
    let mut s = Scheduler::start(listing, cap)?;
    let mut running: Vec<i64> = Vec::new();
    let mut launched = Vec::new();
    let mut peak = 0;
    loop {
        match s.next_action() {
            Action::Launch(id) => {
                launched.push(id);
                running.push(id);
                peak = peak.max(running.len());
                assert_eq!(s.in_flight_count(), running.len());
            }
            Action::Wait => {
                let id = running.remove(0);
                assert!(s.complete(id, unit(id)));
            }
            Action::Done => break,
        }
    }
    Ok((s.finish(), launched, peak))
}

#[test]
fn one_success_one_transport_failure() {
    let (report, _, _) = drive(Ok(vec![30000142, 30000144]), 4, |id| {
        if id == 30000144 { Err(ErrorKind::Transport) } else { Ok(()) }
    })
    .unwrap();
    let (ok, failed) = sets(&report);
    assert_eq!(ok, HashSet::from([30000142]));
    assert_eq!(failed, HashMap::from([(30000144, ErrorKind::Transport)]));
}

#[test]
fn empty_listing_launches_nothing() {
    let mut s = Scheduler::start(Ok(vec![]), 3).unwrap();
    assert_eq!(s.next_action(), Action::Done);
    assert_eq!(s.in_flight_count(), 0);
    let report = s.finish();
    assert!(report.succeeded.is_empty());
    assert!(report.failed.is_empty());
}

#[test]
fn listing_failure_fails_run() {
    assert!(matches!(Scheduler::start(Err(ErrorKind::Transport), 2), Err(ErrorKind::Transport)));
    assert!(matches!(Scheduler::start(Err(ErrorKind::Decode), 2), Err(ErrorKind::Decode)));
}

#[test]
fn in_flight_never_exceeds_cap() {
    let ids: Vec<i64> = (1..=10).collect();
    let (report, launched, peak) = drive(Ok(ids.clone()), 3, |_| Ok(())).unwrap();
    assert_eq!(peak, 3);
    assert_eq!(launched, ids);
    assert_eq!(sets(&report).0, ids.iter().copied().collect::<HashSet<i64>>());
}

#[test]
fn cap_of_one_runs_units_one_by_one() {
    let (_, launched, peak) = drive(Ok(vec![5, 6, 7]), 1, |_| Ok(())).unwrap();
    assert_eq!(peak, 1);
    assert_eq!(launched, vec![5, 6, 7]);
}

#[test]
fn failures_do_not_stop_other_units() {
    let (report, _, _) = drive(Ok(vec![1, 2, 3, 4, 5]), 2, |id| match id {
        2 => Err(ErrorKind::Decode),
        4 => Err(ErrorKind::Store),
        _ => Ok(()),
    })
    .unwrap();
    let (ok, failed) = sets(&report);
    assert_eq!(ok, HashSet::from([1, 3, 5]));
    assert_eq!(failed, HashMap::from([(2, ErrorKind::Decode), (4, ErrorKind::Store)]));
}

#[test]
fn repeated_ids_run_once() {
    let (report, launched, _) = drive(Ok(vec![9, 8, 9, 9, 8]), 5, |_| Ok(())).unwrap();
    assert_eq!(launched, vec![9, 8]);
    assert_eq!(report.succeeded.len(), 2);
    assert_eq!(distinct_ids(&vec![1, 1, 2, 1, 3]), vec![1, 2, 3]);
}

#[test]
fn unknown_completion_is_ignored() {
    let mut s = Scheduler::start(Ok(vec![1, 2]), 1).unwrap();
    assert_eq!(s.next_action(), Action::Launch(1));
    assert!(!s.complete(2, Ok(())));
    assert_eq!(s.in_flight_count(), 1);
    assert!(s.complete(1, Ok(())));
    assert!(!s.complete(1, Err(ErrorKind::Store)));
    let report = {
        assert_eq!(s.next_action(), Action::Launch(2));
        assert!(s.complete(2, Ok(())));
        assert_eq!(s.next_action(), Action::Done);
        s.finish()
    };
    assert_eq!(report.succeeded, vec![1, 2]);
    assert!(report.failed.is_empty());
}

#[test]
fn cancel_stops_launching_and_drains() {
    let mut s = Scheduler::start(Ok(vec![1, 2, 3, 4]), 2).unwrap();
    assert_eq!(s.next_action(), Action::Launch(1));
    assert_eq!(s.next_action(), Action::Launch(2));
    assert_eq!(s.next_action(), Action::Wait);
    s.cancel();
    assert!(s.complete(1, Ok(())));
    assert_eq!(s.next_action(), Action::Wait);
    assert!(s.complete(2, Err(ErrorKind::Transport)));
    assert_eq!(s.next_action(), Action::Done);
    let (ok, failed) = sets(&s.finish());
    assert_eq!(ok, HashSet::from([1]));
    assert_eq!(failed, HashMap::from([(2, ErrorKind::Transport)]));
}
