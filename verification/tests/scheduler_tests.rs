use guillotine::runtime::Runtime;

#[test]
fn admission_is_fifo() {
    let mut rt = Runtime::new();
    let a = rt.spawn();
    let b = rt.spawn();
    assert_eq!(rt.admit_next(), Some(a));
    assert_eq!(rt.admit_next(), Some(b));
    assert_eq!(rt.admit_next(), None);
}

#[test]
fn done_exactly_when_nothing_is_queued_or_parked() {
    let mut rt = Runtime::new();
    assert!(rt.is_done());

    let id = rt.spawn();
    assert!(!rt.is_done());

    assert_eq!(rt.admit_next(), Some(id));
    rt.on_admitted_poll(id, true);
    assert!(rt.is_done());
}

#[test]
fn pending_task_parks_until_a_ready_poll() {
    let mut rt = Runtime::new();
    let id = rt.spawn();
    assert_eq!(rt.admit_next(), Some(id));

    rt.on_admitted_poll(id, false);
    assert!(rt.is_parked(id));
    assert!(!rt.is_done());

    // A wakeup whose re-poll is still pending leaves the task parked:
    // it is never skipped or lost.
    rt.on_parked_poll(id, false);
    assert!(rt.is_parked(id));

    rt.on_parked_poll(id, true);
    assert!(!rt.is_parked(id));
    assert!(rt.is_done());
}

#[test]
fn stale_wakeup_is_not_dispatched() {
    let mut rt = Runtime::new();
    let id = rt.spawn();
    assert_eq!(rt.admit_next(), Some(id));
    rt.on_admitted_poll(id, true);

    // The task completed; a wakeup arriving late finds nothing parked
    // under its id and is ignored.
    assert!(!rt.is_parked(id));
    assert!(rt.is_done());
}

#[test]
fn block_polls_synchronous_tasks_in_spawn_order() {
    let mut rt = Runtime::new();
    let trace = rt.block(vec![0, 0, 0]);
    assert_eq!(trace, vec![0, 1, 2]);
    assert!(rt.is_done());
}

#[test]
fn block_polls_each_task_once_more_than_its_budget() {
    let mut rt = Runtime::new();
    // One task that answers pending twice before completing: an initial
    // poll plus exactly two wakeup polls.
    let trace = rt.block(vec![2]);
    assert_eq!(trace, vec![0, 0, 0]);
    assert!(rt.is_done());
}

#[test]
fn block_interleaves_admissions_before_waits() {
    let mut rt = Runtime::new();
    let trace = rt.block(vec![1, 0]);
    // Both tasks get their first poll in spawn order before any wakeup
    // is served; the parked task is then woken and completes.
    assert_eq!(trace, vec![0, 1, 0]);
    assert!(rt.is_done());
}

#[test]
fn block_never_skips_or_loses_a_parked_task() {
    let mut rt = Runtime::new();
    let trace = rt.block(vec![1, 1]);
    // First polls in spawn order; both park; wakeups are then served
    // oldest first and each task is polled exactly budget + 1 times.
    assert_eq!(trace, vec![0, 1, 0, 1]);
    assert_eq!(trace.iter().filter(|&&id| id == 0).count(), 2);
    assert_eq!(trace.iter().filter(|&&id| id == 1).count(), 2);
    assert!(rt.is_done());
}

#[test]
fn block_on_a_fresh_runtime_does_nothing() {
    let mut rt = Runtime::new();
    let trace = rt.block(Vec::new());
    assert!(trace.is_empty());
    assert!(rt.is_done());
}

#[test]
fn later_runs_reuse_nothing() {
    let mut rt = Runtime::new();
    let first = rt.block(vec![0]);
    assert_eq!(first, vec![0]);
    // Ids are never recycled within one runtime: the next run's task gets
    // the next id.
    let second = rt.block(vec![0, 1]);
    assert_eq!(second, vec![1, 2, 2]);
}
