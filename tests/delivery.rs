use zero2prod::delivery_queue::{DeliveryQueue, TaskStep};
use zero2prod::issue_delivery_worker::{
    item_from_stored_row, next_worker_state, plan_claimed, postpone_until, resolve_attempt,
    stored_last_attempt, AttemptResult, ClaimPlan,
    DeliveryQueueItem, ExecutionOutcome, Resolution, TaskFailure, WorkerSettings, WorkerState,
};

const ISSUE_A: u128 = 0xA;
const ISSUE_B: u128 = 0xB;
const SECOND: u64 = 1_000_000;

fn item(issue_id: u128, recipient: &str, attempts: u32, not_before: Option<i64>) -> DeliveryQueueItem {
    DeliveryQueueItem {
        issue_id,
        recipient_email: recipient.to_string(),
        remaining_attempts: attempts,
        not_before,
        backoff_interval: 5 * SECOND,
    }
}

/// Runs one pass of the worker against the queue; `transport` answers each
/// send and counts it.
fn run_pass(queue: &mut DeliveryQueue, now: i64, sends: &mut u32, transport_ok: bool) -> ExecutionOutcome {
    match queue.begin_task(now) {
        TaskStep::Finished(outcome) => outcome,
        TaskStep::Send(pending) => {
            *sends += 1;
            queue.complete_delivery(pending, now, transport_ok)
        }
    }
}

#[test]
fn empty_queue_reports_empty_and_worker_idles() {
    let mut queue = DeliveryQueue::new();
    let mut sends = 0;
    let outcome = run_pass(&mut queue, 0, &mut sends, true);
    assert_eq!(outcome, ExecutionOutcome::EmptyQueue);
    assert_eq!(sends, 0);
    let settings = WorkerSettings::standard();
    let state = next_worker_state(&Ok(outcome));
    assert_eq!(state, WorkerState::Idle);
    assert_eq!(settings.pause_ms(state), 10_000);
    assert!(queue.claim_next(0).is_none());
}

#[test]
fn invalid_address_is_removed_without_a_send() {
    let mut queue = DeliveryQueue::new();
    assert!(queue.enqueue(item(ISSUE_A, "bad-address", 3, None)).is_some());
    assert_eq!(queue.count_for_issue(ISSUE_A), 1);
    let mut sends = 0;
    let outcome = run_pass(&mut queue, 0, &mut sends, true);
    assert_eq!(outcome, ExecutionOutcome::TaskPostponed);
    assert_eq!(queue.count_for_issue(ISSUE_A), 0);
    assert_eq!(sends, 0);
    assert_eq!(queue.len(), 0);
}

#[test]
fn invalid_address_is_removed_whatever_its_attempts() {
    for attempts in [1u32, 2, 50, u32::MAX] {
        let mut queue = DeliveryQueue::new();
        queue.enqueue(item(ISSUE_A, "no-at-sign.example.com", attempts, None));
        let mut sends = 0;
        run_pass(&mut queue, 0, &mut sends, false);
        assert_eq!(queue.len(), 0);
        assert_eq!(sends, 0);
    }
}

#[test]
fn always_failing_item_is_tried_exactly_k_times() {
    let k = 4u32;
    let mut queue = DeliveryQueue::new();
    queue.enqueue(item(ISSUE_A, "ursula_le_guin@gmail.com", k, None));
    let mut sends = 0;
    let mut now: i64 = 1_000;
    let mut passes = 0;
    while queue.len() > 0 {
        let outcome = run_pass(&mut queue, now, &mut sends, false);
        assert_eq!(outcome, ExecutionOutcome::TaskPostponed);
        passes += 1;
        now += 5 * SECOND as i64;
        assert!(passes <= k);
    }
    assert_eq!(passes, k);
    assert_eq!(sends, k);
    // Once gone, the row is never claimed again.
    assert_eq!(run_pass(&mut queue, now, &mut sends, false), ExecutionOutcome::EmptyQueue);
    assert_eq!(sends, k);
}

#[test]
fn failed_send_decrements_and_postpones() {
    let mut queue = DeliveryQueue::new();
    queue.enqueue(item(ISSUE_A, "ursula_le_guin@gmail.com", 3, None));
    let mut sends = 0;
    assert_eq!(run_pass(&mut queue, 100, &mut sends, false), ExecutionOutcome::TaskPostponed);
    // Not due until 100 + 5 s: a claim before then finds nothing.
    assert_eq!(run_pass(&mut queue, 100 + 5 * SECOND as i64 - 1, &mut sends, false), ExecutionOutcome::EmptyQueue);
    assert_eq!(sends, 1);
    let (claim, claimed) = queue.claim_next(100 + 5 * SECOND as i64).unwrap();
    assert_eq!(claimed.remaining_attempts, 2);
    assert_eq!(claimed.not_before, Some(100 + 5 * SECOND as i64));
    queue.release(claim);
    assert_eq!(queue.len(), 1);
}

#[test]
fn completed_item_is_removed_and_never_reprocessed() {
    let mut queue = DeliveryQueue::new();
    queue.enqueue(item(ISSUE_A, "ursula_le_guin@gmail.com", 3, None));
    let mut sends = 0;
    assert_eq!(run_pass(&mut queue, 0, &mut sends, true), ExecutionOutcome::TaskCompleted);
    assert_eq!(queue.len(), 0);
    for t in 0..5 {
        assert_eq!(run_pass(&mut queue, t * 1_000_000_000, &mut sends, true), ExecutionOutcome::EmptyQueue);
    }
    assert_eq!(sends, 1);
}

#[test]
fn single_eligible_row_is_claimed_by_one_worker_only() {
    let mut queue = DeliveryQueue::new();
    queue.enqueue(item(ISSUE_A, "ursula_le_guin@gmail.com", 3, None));
    queue.enqueue(item(ISSUE_A, "later@example.com", 3, Some(1_000_000)));
    let mut sends = 0;
    let mut pending = Vec::new();
    for _ in 0..8 {
        match queue.begin_task(0) {
            TaskStep::Send(p) => {
                sends += 1;
                pending.push(p);
            }
            TaskStep::Finished(outcome) => assert_eq!(outcome, ExecutionOutcome::EmptyQueue),
        }
    }
    assert_eq!(sends, 1);
    assert_eq!(pending.len(), 1);
    let p = pending.pop().unwrap();
    assert_eq!(p.recipient().as_str(), "ursula_le_guin@gmail.com");
    assert_eq!(p.issue_id(), ISSUE_A);
    assert_eq!(queue.complete_delivery(p, 0, true), ExecutionOutcome::TaskCompleted);
    assert_eq!(queue.len(), 1);
}

#[test]
fn postponed_item_is_not_sent_before_its_time() {
    let mut queue = DeliveryQueue::new();
    queue.enqueue(item(ISSUE_A, "ursula_le_guin@gmail.com", 3, Some(500)));
    let mut sends = 0;
    assert_eq!(run_pass(&mut queue, 499, &mut sends, true), ExecutionOutcome::EmptyQueue);
    assert_eq!(sends, 0);
    assert_eq!(queue.len(), 1);
    assert_eq!(run_pass(&mut queue, 500, &mut sends, true), ExecutionOutcome::TaskCompleted);
    assert_eq!(sends, 1);
}

#[test]
fn claimed_item_rechecked_later_than_due_is_released() {
    let future = item(ISSUE_A, "ursula_le_guin@gmail.com", 3, Some(500));
    assert!(matches!(plan_claimed(&future, 499), ClaimPlan::Release));
    assert!(matches!(plan_claimed(&future, 500), ClaimPlan::Deliver(_)));
    let bad = item(ISSUE_A, "bad-address", 3, None);
    assert!(matches!(plan_claimed(&bad, 0), ClaimPlan::Settle(Resolution::Delete)));
}

#[test]
fn abandoned_delivery_stays_claimable() {
    let mut queue = DeliveryQueue::new();
    queue.enqueue(item(ISSUE_A, "ursula_le_guin@gmail.com", 3, None));
    match queue.begin_task(0) {
        TaskStep::Send(p) => queue.abandon_delivery(p),
        TaskStep::Finished(_) => panic!("expected a delivery"),
    }
    let (_, again) = queue.claim_next(0).unwrap();
    assert_eq!(again.remaining_attempts, 3);
    assert_eq!(next_worker_state(&Err(TaskFailure::IssueMissing)), WorkerState::ErrorBackoff);
    assert_eq!(WorkerSettings::standard().pause_ms(WorkerState::ErrorBackoff), 1_000);
}

#[test]
fn resolution_values() {
    let it = item(ISSUE_A, "ursula_le_guin@gmail.com", 3, None);
    assert_eq!(resolve_attempt(&it, AttemptResult::Delivered, 7), Resolution::Delete);
    assert_eq!(resolve_attempt(&it, AttemptResult::InvalidRecipient, 7), Resolution::Delete);
    assert_eq!(
        resolve_attempt(&it, AttemptResult::TransportFailed, 7),
        Resolution::Reschedule { remaining_attempts: 2, not_before: 7 + 5 * SECOND as i64 }
    );
    let last = item(ISSUE_A, "ursula_le_guin@gmail.com", 1, None);
    assert_eq!(resolve_attempt(&last, AttemptResult::TransportFailed, 7), Resolution::Delete);
    assert_eq!(AttemptResult::Delivered.outcome(), ExecutionOutcome::TaskCompleted);
    assert_eq!(AttemptResult::TransportFailed.outcome(), ExecutionOutcome::TaskPostponed);
}

#[test]
fn postponement_saturates_at_the_largest_time() {
    assert_eq!(postpone_until(10, 5), 15);
    assert_eq!(postpone_until(-10, 5), -5);
    assert_eq!(postpone_until(i64::MAX - 1, 5), i64::MAX);
    assert_eq!(postpone_until(0, u64::MAX), i64::MAX);
    assert_eq!(postpone_until(i64::MIN, u64::MAX), i64::MAX);
}

#[test]
fn worker_runs_on_after_settled_tasks() {
    let settings = WorkerSettings::standard();
    for outcome in [ExecutionOutcome::TaskCompleted, ExecutionOutcome::TaskPostponed] {
        let state = next_worker_state(&Ok(outcome));
        assert_eq!(state, WorkerState::Running);
        assert_eq!(settings.pause_ms(state), 0);
    }
}

#[test]
fn item_without_attempts_is_not_enqueued() {
    let mut queue = DeliveryQueue::new();
    assert_eq!(queue.enqueue(item(ISSUE_A, "ursula_le_guin@gmail.com", 0, None)), None);
    assert_eq!(queue.len(), 0);
    assert_eq!(queue.enqueue(item(ISSUE_A, "ursula_le_guin@gmail.com", 1, None)), Some(0));
    assert_eq!(queue.enqueue(item(ISSUE_B, "ursula_le_guin@gmail.com", 1, None)), Some(1));
}

#[test]
fn issue_fans_out_to_every_recipient() {
    let mut queue = DeliveryQueue::new();
    let recipients = vec![
        "ursula_le_guin@gmail.com".to_string(),
        "bad-address".to_string(),
        "other@example.org".to_string(),
    ];
    assert_eq!(queue.enqueue_issue(ISSUE_A, &recipients, 2, SECOND), 3);
    assert_eq!(queue.enqueue_issue(ISSUE_B, &recipients, 0, SECOND), 0);
    assert_eq!(queue.count_for_issue(ISSUE_A), 3);
    assert_eq!(queue.count_for_issue(ISSUE_B), 0);
    let mut sends = 0;
    let mut outcomes = Vec::new();
    for _ in 0..4 {
        outcomes.push(run_pass(&mut queue, 0, &mut sends, true));
    }
    assert_eq!(
        outcomes,
        vec![
            ExecutionOutcome::TaskCompleted,
            ExecutionOutcome::TaskPostponed,
            ExecutionOutcome::TaskCompleted,
            ExecutionOutcome::EmptyQueue
        ]
    );
    assert_eq!(sends, 2);
    assert_eq!(queue.count_for_issue(ISSUE_A), 0);
}

#[test]
fn stored_rows_become_items() {
    let never_tried = item_from_stored_row(7, "a@b.co".to_string(), 3, 10, None);
    assert_eq!(never_tried.issue_id, 7);
    assert_eq!(never_tried.recipient_email, "a@b.co");
    assert_eq!(never_tried.remaining_attempts, 3);
    assert_eq!(never_tried.backoff_interval, 10 * SECOND);
    assert_eq!(never_tried.not_before, None);
    let tried = item_from_stored_row(7, "a@b.co".to_string(), -2, -5, Some(1_000));
    assert_eq!(tried.remaining_attempts, 0);
    assert_eq!(tried.backoff_interval, 0);
    assert_eq!(tried.not_before, Some(1_000));
    let later = item_from_stored_row(7, "a@b.co".to_string(), 1, 2, Some(1_000));
    assert_eq!(later.not_before, Some(1_000 + 2 * SECOND as i64));
    assert_eq!(stored_last_attempt(1_000 + 2 * SECOND as i64, 2 * SECOND), 1_000);
    assert_eq!(stored_last_attempt(i64::MIN + 1, 5), i64::MIN);
}
