use stagewhisper::reply_router::pending::{PendingReplies, ReserveResult, TimeoutCheck};

const TEST_TASK_ID: &str = "11111111-2222-3333-4444-555555555555";

#[test]
fn pending_tests_reserve_then_complete_is_one_shot() {
    let mut pending = PendingReplies::default();
    pending.register(TEST_TASK_ID.to_string(), "sess-1".to_string());
    assert_eq!(
        pending.reserve(TEST_TASK_ID, "sess-1"),
        ReserveResult::Reserved
    );
    assert_eq!(
        pending.reserve(TEST_TASK_ID, "sess-1"),
        ReserveResult::Duplicate
    );
    pending.complete(TEST_TASK_ID);
    assert_eq!(
        pending.reserve(TEST_TASK_ID, "sess-1"),
        ReserveResult::Duplicate
    );
}

#[test]
fn pending_tests_reserve_rejects_unregistered_task() {
    let mut pending = PendingReplies::default();
    assert_eq!(
        pending.reserve(TEST_TASK_ID, "sess-1"),
        ReserveResult::Unregistered
    );
    pending.register(TEST_TASK_ID.to_string(), "sess-1".to_string());
    assert_eq!(
        pending.reserve(TEST_TASK_ID, "sess-1"),
        ReserveResult::Reserved
    );
    pending.complete(TEST_TASK_ID);
    assert_eq!(
        pending.reserve(TEST_TASK_ID, "sess-1"),
        ReserveResult::Duplicate
    );
}

#[test]
fn pending_tests_reserve_rejects_session_mismatch() {
    let mut pending = PendingReplies::default();
    pending.register(TEST_TASK_ID.to_string(), "sess-1".to_string());
    assert_eq!(
        pending.reserve(TEST_TASK_ID, "sess-2"),
        ReserveResult::SessionMismatch
    );
    assert_eq!(
        pending.reserve(TEST_TASK_ID, "sess-1"),
        ReserveResult::Reserved
    );
}

#[test]
fn pending_tests_release_returns_task_to_pending_for_retry() {
    let mut pending = PendingReplies::default();
    pending.register(TEST_TASK_ID.to_string(), "sess-1".to_string());
    assert_eq!(
        pending.reserve(TEST_TASK_ID, "sess-1"),
        ReserveResult::Reserved
    );
    pending.release(TEST_TASK_ID);
    assert_eq!(
        pending.reserve(TEST_TASK_ID, "sess-1"),
        ReserveResult::Reserved
    );
    pending.complete(TEST_TASK_ID);
    assert_eq!(
        pending.reserve(TEST_TASK_ID, "sess-1"),
        ReserveResult::Duplicate
    );
}

#[test]
fn pending_task_ids_for_session_returns_only_tasks_bound_to_that_session() {
    let mut pending = PendingReplies::default();
    pending.register("task-a".to_string(), "sess-1".to_string());
    pending.register("task-b".to_string(), "sess-1".to_string());
    pending.register("task-c".to_string(), "sess-2".to_string());

    let mut ids = pending.pending_task_ids_for_session("sess-1");
    ids.sort();

    assert_eq!(ids, vec!["task-a".to_string(), "task-b".to_string()]);
    assert!(pending.pending_task_ids_for_session("sess-3").is_empty());
}

#[test]
fn the_persisted_state_restores_bindings_and_finished_tasks() {
    let mut pending = PendingReplies::new();
    pending.register(TEST_TASK_ID.to_string(), "sess-1".to_string());
    pending.register("task-b".to_string(), "sess-2".to_string());
    pending.complete("task-b");
    let (bindings, finalized) = pending.persisted_state();
    assert_eq!(bindings, vec![(TEST_TASK_ID.to_string(), "sess-1".to_string())]);
    assert_eq!(finalized, vec!["task-b".to_string()]);

    let mut reloaded = PendingReplies::from_persisted(bindings, finalized);
    assert_eq!(reloaded.reserve(TEST_TASK_ID, "sess-2"), ReserveResult::SessionMismatch);
    assert_eq!(reloaded.reserve(TEST_TASK_ID, "sess-1"), ReserveResult::Reserved);
    assert_eq!(reloaded.reserve("task-b", "sess-2"), ReserveResult::Duplicate);
}

#[test]
fn a_reservation_is_not_persisted_so_it_is_pending_again_after_a_reload() {
    let mut pending = PendingReplies::new();
    pending.register(TEST_TASK_ID.to_string(), "sess-1".to_string());
    assert_eq!(pending.reserve(TEST_TASK_ID, "sess-1"), ReserveResult::Reserved);
    let (bindings, finalized) = pending.persisted_state();
    let mut reloaded = PendingReplies::from_persisted(bindings, finalized);
    assert_eq!(reloaded.reserve(TEST_TASK_ID, "sess-1"), ReserveResult::Reserved);
}

#[test]
fn loading_keeps_the_first_binding_of_a_repeated_task() {
    let mut reloaded = PendingReplies::from_persisted(
        vec![
            ("t".to_string(), "sess-1".to_string()),
            ("t".to_string(), "sess-2".to_string()),
        ],
        vec!["f".to_string(), "f".to_string()],
    );
    assert_eq!(reloaded.session_for("t"), Some("sess-1".to_string()));
    assert_eq!(reloaded.reserve("f", "any"), ReserveResult::Duplicate);
    let (_, finalized) = reloaded.persisted_state();
    assert_eq!(finalized, vec!["f".to_string()]);
}

#[test]
fn the_oldest_pending_task_is_forgotten_past_the_capacity() {
    let mut pending = PendingReplies::new();
    for i in 0..1025 {
        pending.register(format!("task-{i}"), "s".to_string());
    }
    assert_eq!(pending.session_for("task-0"), None);
    assert_eq!(pending.session_for("task-1"), Some("s".to_string()));
    assert_eq!(pending.reserve("task-0", "s"), ReserveResult::Unregistered);
}

#[test]
fn validate_checks_the_binding_without_reserving() {
    let mut pending = PendingReplies::new();
    pending.register(TEST_TASK_ID.to_string(), "sess-1".to_string());
    assert_eq!(pending.validate(TEST_TASK_ID, "sess-2"), ReserveResult::SessionMismatch);
    assert_eq!(pending.validate(TEST_TASK_ID, "sess-1"), ReserveResult::Reserved);
    assert_eq!(pending.reserve(TEST_TASK_ID, "sess-1"), ReserveResult::Reserved);
}

#[test]
fn a_timed_out_task_is_claimed_once_and_stays_unwatched() {
    let mut pending = PendingReplies::new();
    pending.register(TEST_TASK_ID.to_string(), "sess-1".to_string());
    assert!(pending.since_last_activity(TEST_TASK_ID).is_some());
    assert_eq!(
        pending.check_or_claim_timeout(TEST_TASK_ID, 0),
        TimeoutCheck::Claimed
    );
    assert_eq!(
        pending.check_or_claim_timeout(TEST_TASK_ID, 0),
        TimeoutCheck::NoLongerTracked
    );
    pending.touch(TEST_TASK_ID);
    assert!(pending.since_last_activity(TEST_TASK_ID).is_none());
}

#[test]
fn a_fresh_task_is_still_fresh() {
    let mut pending = PendingReplies::new();
    pending.register(TEST_TASK_ID.to_string(), "sess-1".to_string());
    match pending.check_or_claim_timeout(TEST_TASK_ID, 3_600_000) {
        TimeoutCheck::StillFresh { remaining_ms } => assert!(remaining_ms <= 3_600_000),
        other => panic!("unexpected {other:?}"),
    }
    assert_eq!(
        pending.check_or_claim_timeout("unknown", 1000),
        TimeoutCheck::NoLongerTracked
    );
}

#[test]
fn the_watchdog_leaves_the_rest_of_the_timeout_and_claims_at_the_timeout() {
    let mut pending = PendingReplies::new();
    pending.register(TEST_TASK_ID.to_string(), "sess-1".to_string());
    assert_eq!(
        pending.settle_timeout(TEST_TASK_ID, 400, 1000),
        TimeoutCheck::StillFresh { remaining_ms: 600 }
    );
    assert_eq!(pending.settle_timeout(TEST_TASK_ID, 999, 1000), TimeoutCheck::StillFresh { remaining_ms: 1 });
    assert_eq!(pending.settle_timeout(TEST_TASK_ID, 1000, 1000), TimeoutCheck::Claimed);
    assert_eq!(pending.settle_timeout(TEST_TASK_ID, 0, 1000), TimeoutCheck::NoLongerTracked);
}

#[test]
fn completing_an_old_finished_task_again_keeps_it_finished() {
    let finished: Vec<String> = (0..1100).map(|i| format!("task-{i}")).collect();
    let mut pending = PendingReplies::from_persisted(Vec::new(), finished);
    pending.complete("task-0");
    assert_eq!(pending.reserve("task-0", "sess-1"), ReserveResult::Duplicate);
    pending.register("task-0".to_string(), "sess-1".to_string());
    assert_eq!(pending.reserve("task-0", "sess-1"), ReserveResult::Duplicate);
}
