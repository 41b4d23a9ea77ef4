use grit::batch::JobDescriptor;
use grit::batch::OutcomeKind;
use grit::executor::BatchExecutor;

fn job(id: &str) -> JobDescriptor {
    JobDescriptor { id: id.to_string(), params: String::new() }
}

fn executor(ids: &[&str], concurrency: usize) -> BatchExecutor {
    let jobs: Vec<JobDescriptor> = ids.iter().map(|id| job(id)).collect();
    match BatchExecutor::new(jobs, concurrency) {
        Ok(e) => e,
        Err(_) => panic!("a positive concurrency cap must be accepted"),
    }
}

#[test]
fn zero_concurrency_is_rejected_at_construction() {
    let r = BatchExecutor::new(vec![job("a")], 0);
    assert!(r.is_err());
}

#[test]
fn empty_batch_finishes_empty_without_acquiring_any_permit() {
    let mut e = executor(&[], 3);
    assert_eq!(e.admit_next(), None);
    assert!(e.is_drained());
    assert_eq!(e.acquired_count(), 0);
    assert_eq!(e.released_count(), 0);
    let b = e.finish();
    assert!(b.outcomes.is_empty());
}

#[test]
fn cap_two_batch_with_one_failing_job_records_all_four_outcomes() {
    let mut e = executor(&["a", "b", "c", "d"], 2);
    assert_eq!(e.admit_next(), Some(0));
    assert_eq!(e.admit_next(), Some(1));
    assert!(e.in_flight_count() <= 2);
    // the cap is reached: no third admission while two jobs hold permits
    assert_eq!(e.admit_next(), None);
    e.complete(1, Err("always fails".to_string()));
    assert!(e.in_flight_count() <= 2);
    assert_eq!(e.admit_next(), Some(2));
    assert!(e.in_flight_count() <= 2);
    e.complete(0, Ok("payload a".to_string()));
    assert_eq!(e.admit_next(), Some(3));
    assert!(e.in_flight_count() <= 2);
    e.complete(2, Ok("payload c".to_string()));
    e.complete(3, Ok("payload d".to_string()));
    assert_eq!(e.admit_next(), None);
    assert!(e.is_drained());
    assert_eq!(e.acquired_count(), 4);
    assert_eq!(e.released_count(), 4);
    let b = e.finish();
    assert_eq!(b.outcomes.len(), 4);
    // outcomes stand in completion order, not submission order
    assert_eq!(b.outcomes[0].id, "b");
    assert_eq!(b.outcomes[1].id, "a");
    assert_eq!(b.outcomes[2].id, "c");
    assert_eq!(b.outcomes[3].id, "d");
    let failed: Vec<&str> = b
        .outcomes
        .iter()
        .filter(|o| matches!(o.kind, OutcomeKind::Failure(_)))
        .map(|o| o.id.as_str())
        .collect();
    assert_eq!(failed, vec!["b"]);
}

#[test]
fn cap_one_forces_serial_execution_in_submission_order() {
    let mut e = executor(&["a", "b", "c"], 1);
    for expected in 0..3usize {
        assert_eq!(e.admit_next(), Some(expected));
        assert_eq!(e.in_flight_count(), 1);
        // strictly serial: nothing else is admitted while one job runs
        assert_eq!(e.admit_next(), None);
        e.complete(expected, Ok(String::new()));
        assert_eq!(e.in_flight_count(), 0);
    }
    assert!(e.is_drained());
    let b = e.finish();
    assert_eq!(b.outcomes.len(), 3);
    // completion order equals submission order under a cap of one
    assert_eq!(b.outcomes[0].id, "a");
    assert_eq!(b.outcomes[1].id, "b");
    assert_eq!(b.outcomes[2].id, "c");
}

#[test]
fn cancel_after_one_of_five_jobs_yields_full_result_with_cancelled_tail() {
    let mut e = executor(&["a", "b", "c", "d", "e"], 2);
    assert_eq!(e.admit_next(), Some(0));
    e.complete(0, Ok("done".to_string()));
    e.cancel();
    // jobs not yet started are never admitted after cancellation
    assert_eq!(e.admit_next(), None);
    assert!(e.is_drained());
    // the permit count is back to zero and the books balance
    assert_eq!(e.in_flight_count(), 0);
    assert_eq!(e.acquired_count(), 1);
    assert_eq!(e.released_count(), 1);
    let b = e.finish();
    assert_eq!(b.outcomes.len(), 5);
    assert!(matches!(b.outcomes[0].kind, OutcomeKind::Success(_)));
    for k in 1..5 {
        assert!(matches!(b.outcomes[k].kind, OutcomeKind::Cancelled));
    }
    assert_eq!(b.outcomes[0].id, "a");
    assert_eq!(b.outcomes[1].id, "b");
    assert_eq!(b.outcomes[4].id, "e");
}

#[test]
fn cancellation_interrupting_a_running_job_still_releases_its_permit() {
    let mut e = executor(&["a", "b", "c", "d", "e"], 2);
    assert_eq!(e.admit_next(), Some(0));
    assert_eq!(e.admit_next(), Some(1));
    e.complete(0, Ok("done".to_string()));
    e.cancel();
    // job 1 was interrupted mid-flight; its exit path still releases
    e.complete_cancelled(1);
    assert_eq!(e.admit_next(), None);
    assert!(e.is_drained());
    assert_eq!(e.in_flight_count(), 0);
    assert_eq!(e.acquired_count(), 2);
    assert_eq!(e.released_count(), 2);
    let b = e.finish();
    assert_eq!(b.outcomes.len(), 5);
    assert!(matches!(b.outcomes[0].kind, OutcomeKind::Success(_)));
    for k in 1..5 {
        assert!(matches!(b.outcomes[k].kind, OutcomeKind::Cancelled));
    }
}

#[test]
fn stable_order_mode_resorts_into_submission_order() {
    let mut e = executor(&["a", "b", "c", "d"], 2);
    assert_eq!(e.admit_next(), Some(0));
    assert_eq!(e.admit_next(), Some(1));
    e.complete(1, Err("boom".to_string()));
    assert_eq!(e.admit_next(), Some(2));
    e.complete(2, Ok("payload c".to_string()));
    e.complete(0, Ok("payload a".to_string()));
    assert_eq!(e.admit_next(), Some(3));
    e.complete(3, Ok("payload d".to_string()));
    let b = e.finish_in_submission_order();
    assert_eq!(b.outcomes.len(), 4);
    assert_eq!(b.outcomes[0].id, "a");
    assert_eq!(b.outcomes[1].id, "b");
    assert_eq!(b.outcomes[2].id, "c");
    assert_eq!(b.outcomes[3].id, "d");
    match &b.outcomes[2].kind {
        OutcomeKind::Success(p) => assert_eq!(p, "payload c"),
        _ => panic!("job c must succeed"),
    }
    assert!(matches!(b.outcomes[1].kind, OutcomeKind::Failure(_)));
}

#[test]
fn stable_order_mode_marks_never_admitted_jobs_cancelled() {
    let mut e = executor(&["a", "b", "c"], 1);
    assert_eq!(e.admit_next(), Some(0));
    e.complete(0, Ok("done".to_string()));
    e.cancel();
    let b = e.finish_in_submission_order();
    assert_eq!(b.outcomes.len(), 3);
    assert!(matches!(b.outcomes[0].kind, OutcomeKind::Success(_)));
    assert!(matches!(b.outcomes[1].kind, OutcomeKind::Cancelled));
    assert!(matches!(b.outcomes[2].kind, OutcomeKind::Cancelled));
    assert_eq!(b.outcomes[0].id, "a");
    assert_eq!(b.outcomes[1].id, "b");
    assert_eq!(b.outcomes[2].id, "c");
}

#[test]
fn every_job_is_attributed_exactly_once() {
    let mut e = executor(&["a", "b", "c", "d"], 4);
    assert_eq!(e.admit_next(), Some(0));
    assert_eq!(e.admit_next(), Some(1));
    assert_eq!(e.admit_next(), Some(2));
    assert_eq!(e.admit_next(), Some(3));
    // completion events arrive in an order of their own
    e.complete(2, Ok(String::new()));
    e.complete(0, Err("boom".to_string()));
    e.complete(3, Ok(String::new()));
    e.complete(1, Ok(String::new()));
    let b = e.finish();
    assert_eq!(b.outcomes.len(), 4);
    let mut ids: Vec<&str> = b.outcomes.iter().map(|o| o.id.as_str()).collect();
    assert_eq!(ids, vec!["c", "a", "d", "b"]);
    ids.sort();
    ids.dedup();
    assert_eq!(ids, vec!["a", "b", "c", "d"]);
}
