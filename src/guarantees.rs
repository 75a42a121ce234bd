//! What the queue and the executor promise over many calls.
use crate::delivery_queue::{
    claim_step, enqueue_step, finalize_step, first_claimable, first_claimable_from, has_row, RowView,
    holds_claim, index_of_row, is_claimable, queue_wf, release_step, transport_attempt, QueueView,
};
use crate::domain::is_valid_email;
use crate::issue_delivery_worker::{
    is_due, next_not_before, resolution_of, sends_on_pass, worker_state_after, AttemptResult,
    ExecutionOutcome, ItemView, Resolution, TaskFailure, WorkerSettings, WorkerState,
};
use vstd::prelude::*;

verus! {

/// The item after one pass at `now` in which the transport, if called, answers
/// `delivered`; none once the row is gone. A pass that finds the item not yet
/// due commits it unchanged.
pub open spec fn pass_result(item: ItemView, now: i64, delivered: bool) -> Option<ItemView> {
    if !is_due(item, now) {
        Some(item)
    } else {
        let attempt = if !is_valid_email(item.recipient) {
            AttemptResult::InvalidRecipient
        } else if delivered {
            AttemptResult::Delivered
        } else {
            AttemptResult::TransportFailed
        };
        match resolution_of(item, attempt, now) {
            Resolution::Delete => None,
            Resolution::Reschedule { remaining_attempts, not_before } => Some(
                ItemView { remaining_attempts, not_before: Some(not_before), ..item },
            ),
        }
    }
}

/// The item after passes at `times` in which the transport always fails.
pub open spec fn after_failing_passes(item: ItemView, times: Seq<i64>) -> Option<ItemView>
    decreases times.len(),
{
    if times.len() == 0 {
        Some(item)
    } else {
        match after_failing_passes(item, times.drop_last()) {
            None => None,
            Some(it) => pass_result(it, times.last(), false),
        }
    }
}

/// How many times the transport is called over passes at `times` in which it
/// always fails.
pub open spec fn transport_calls(item: ItemView, times: Seq<i64>) -> nat
    decreases times.len(),
{
    if times.len() == 0 {
        0
    } else {
        transport_calls(item, times.drop_last()) + match after_failing_passes(
            item,
            times.drop_last(),
        ) {
            Some(it) => if sends_on_pass(it, times.last()) {
                1nat
            } else {
                0nat
            },
            None => 0nat,
        }
    }
}

/// How many of `n` claims in a row at `now`, with no commit between them, get a row.
pub open spec fn claims_granted(q: QueueView, now: i64, n: nat) -> nat
    decreases n,
{
    if n == 0 {
        0
    } else {
        (if first_claimable(q, now) is Some {
            1nat
        } else {
            0nat
        }) + claims_granted(claim_step(q, now), now, (n - 1) as nat)
    }
}

proof fn lemma_first_claimable_is(rows: Seq<RowView>, now: i64, k: int, i: int)
    requires
        0 <= k <= i < rows.len(),
        is_claimable(rows[i], now),
        forall|j: int| k <= j < i ==> !is_claimable(#[trigger] rows[j], now),
    ensures
        first_claimable_from(rows, now, k) == Some(i),
    decreases i - k,
{
    if k < i {
        lemma_first_claimable_is(rows, now, k + 1, i);
    }
}

proof fn lemma_nothing_claimable(rows: Seq<RowView>, now: i64, k: int)
    requires
        0 <= k,
        forall|j: int| k <= j < rows.len() ==> !is_claimable(#[trigger] rows[j], now),
    ensures
        first_claimable_from(rows, now, k) is None,
    decreases rows.len() - k,
{
    if k < rows.len() {
        lemma_nothing_claimable(rows, now, k + 1);
    }
}

proof fn lemma_no_claims_granted(q: QueueView, now: i64, n: nat)
    requires
        forall|j: int| 0 <= j < q.rows.len() ==> !is_claimable(#[trigger] q.rows[j], now),
    ensures
        claims_granted(q, now, n) == 0,
    decreases n,
{
    lemma_nothing_claimable(q.rows, now, 0);
    if n > 0 {
        lemma_no_claims_granted(claim_step(q, now), now, (n - 1) as nat);
    }
}

/// A settled delivery, or one whose attempts are used up, takes the row out of
/// the queue: the resolution is a removal exactly then, and committing it
/// leaves no row under that key.
pub proof fn lemma_terminal_resolution_removes_row(
    q: QueueView,
    id: u64,
    item: ItemView,
    attempt: AttemptResult,
    now: i64,
)
    requires
        queue_wf(q),
        holds_claim(q, id),
    ensures
        resolution_of(item, attempt, now) == Resolution::Delete <==> (attempt
            != AttemptResult::TransportFailed || item.remaining_attempts <= 1),
        resolution_of(item, attempt, now) == Resolution::Delete ==> !has_row(
            finalize_step(q, id, Resolution::Delete),
            id,
        ),
{
    let i = index_of_row(q, id);
    let q2 = finalize_step(q, id, Resolution::Delete);
    assert(0 <= i < q.rows.len() && q.rows[i].row_id == id);
    assert forall|j: int| 0 <= j < q2.rows.len() implies #[trigger] q2.rows[j].row_id != id by {
        let j0 = if j < i { j } else { j + 1 };
        assert(q2.rows[j] == q.rows[j0]);
        if j0 < i {
            assert(q.rows[j0].row_id < q.rows[i].row_id);
        } else {
            assert(q.rows[i].row_id < q.rows[j0].row_id);
        }
    }
}

/// A key that has left the queue never comes back: no claim returns it, and no
/// claim, commit or enqueue brings a row with it back.
pub proof fn lemma_removed_row_never_reclaimed(q: QueueView, id: u64, now: i64, item: ItemView)
    requires
        queue_wf(q),
        !has_row(q, id),
        id < q.next_row_id,
    ensures
        first_claimable(q, now) matches Some(i) ==> q.rows[i].row_id != id,
        !has_row(claim_step(q, now), id),
        !has_row(enqueue_step(q, item), id),
        id < enqueue_step(q, item).next_row_id || q.next_row_id == u64::MAX,
        forall|other: u64| #[trigger]
            holds_claim(q, other) ==> !has_row(release_step(q, other), id),
        forall|other: u64, res: Resolution|
            holds_claim(q, other) ==> !has_row(#[trigger] finalize_step(q, other, res), id),
{
    crate::delivery_queue::lemma_first_claimable_bounds(q.rows, now, 0);
    let q1 = claim_step(q, now);
    assert forall|j: int| 0 <= j < q1.rows.len() implies #[trigger] q1.rows[j].row_id != id by {
        assert(q.rows[j].row_id != id);
    }
    let q2 = enqueue_step(q, item);
    assert forall|j: int| 0 <= j < q2.rows.len() implies #[trigger] q2.rows[j].row_id != id by {
        if j < q.rows.len() {
            assert(q.rows[j].row_id != id);
        }
    }
    assert forall|other: u64| #[trigger] holds_claim(q, other) implies !has_row(
        release_step(q, other),
        id,
    ) by {
        let q3 = release_step(q, other);
        assert forall|j: int| 0 <= j < q3.rows.len() implies #[trigger] q3.rows[j].row_id
            != id by {
            assert(q.rows[j].row_id != id);
        }
    }
    assert forall|other: u64, res: Resolution| holds_claim(q, other) implies !has_row(
        #[trigger] finalize_step(q, other, res),
        id,
    ) by {
        let i = index_of_row(q, other);
        let q4 = finalize_step(q, other, res);
        assert forall|j: int| 0 <= j < q4.rows.len() implies #[trigger] q4.rows[j].row_id
            != id by {
            match res {
                Resolution::Delete => {
                    let j0 = if j < i { j } else { j + 1 };
                    assert(q4.rows[j] == q.rows[j0]);
                    assert(q.rows[j0].row_id != id);
                },
                Resolution::Reschedule { .. } => {
                    assert(q.rows[j].row_id != id);
                },
            }
        }
    }
}

/// However many workers claim at once, a queue with a single eligible row
/// hands it to exactly one of them and the others find nothing, so the item
/// reaches the transport once (when its address parses).
pub proof fn lemma_single_eligible_row_claimed_once(q: QueueView, now: i64, i: int, n: nat)
    requires
        queue_wf(q),
        0 <= i < q.rows.len(),
        is_claimable(q.rows[i], now),
        forall|j: int| 0 <= j < q.rows.len() && j != i ==> !is_claimable(#[trigger] q.rows[j], now),
        n >= 1,
    ensures
        first_claimable(q, now) == Some(i),
        claims_granted(q, now, n) == 1,
        is_valid_email(q.rows[i].item.recipient) ==> sends_on_pass(q.rows[i].item, now),
{
    lemma_first_claimable_is(q.rows, now, 0, i);
    let q1 = claim_step(q, now);
    assert forall|j: int| 0 <= j < q1.rows.len() implies !is_claimable(#[trigger] q1.rows[j], now) by {
        if j != i {
            assert(q1.rows[j] == q.rows[j]);
        }
    }
    lemma_no_claims_granted(q1, now, (n - 1) as nat);
}

/// An item whose attempts start at `k` and whose sends all fail, processed at
/// `times` spaced at least its backoff apart, is rescheduled with one attempt
/// fewer on each of its first `k - 1` passes and removed on pass `k`; the
/// transport is called once per pass while the row exists, `k` times in all.
pub proof fn lemma_retry_decrement(item: ItemView, times: Seq<i64>)
    requires
        item.remaining_attempts >= 1,
        is_valid_email(item.recipient),
        times.len() > 0 ==> is_due(item, times[0]),
        forall|j: int|
            1 <= j < times.len() ==> times[j - 1] + item.backoff_interval <= #[trigger] times[j],
    ensures
        times.len() < item.remaining_attempts ==> (after_failing_passes(item, times) matches Some(
            it) && it.remaining_attempts == item.remaining_attempts - times.len() && it.recipient
            == item.recipient && it.issue_id == item.issue_id),
        times.len() >= item.remaining_attempts ==> after_failing_passes(item, times) is None,
        transport_calls(item, times) == if times.len() < item.remaining_attempts {
            times.len()
        } else {
            item.remaining_attempts as nat
        },
    decreases times.len(),
{
    if times.len() > 0 {
        let prev = times.drop_last();
        let n = times.len();
        assert forall|j: int| 1 <= j < prev.len() implies prev[j - 1] + item.backoff_interval
            <= #[trigger] prev[j] by {
            assert(prev[j] == times[j] && prev[j - 1] == times[j - 1]);
        }
        lemma_retry_decrement(item, prev);
        lemma_failing_pass_due(item, times);
    }
}

/// While the item lives, each pass after the first finds it due, and its other
/// fields stay as they were.
proof fn lemma_failing_pass_due(item: ItemView, times: Seq<i64>)
    requires
        item.remaining_attempts >= 1,
        is_valid_email(item.recipient),
        times.len() > 0,
        is_due(item, times[0]),
        forall|j: int|
            1 <= j < times.len() ==> times[j - 1] + item.backoff_interval <= #[trigger] times[j],
    ensures
        after_failing_passes(item, times.drop_last()) matches Some(it) ==> is_due(it, times.last())
            && it.recipient == item.recipient && it.issue_id == item.issue_id
            && it.backoff_interval == item.backoff_interval,
    decreases times.len(),
{
    let prev = times.drop_last();
    if prev.len() > 0 {
        assert forall|j: int| 1 <= j < prev.len() implies prev[j - 1] + item.backoff_interval
            <= #[trigger] prev[j] by {
            assert(prev[j] == times[j] && prev[j - 1] == times[j - 1]);
        }
        lemma_failing_pass_due(item, prev);
        assert(prev.drop_last().len() == prev.len() - 1);
        let t = prev.last();
        assert(times[times.len() - 2] == t);
        assert(t + item.backoff_interval <= times.last());
        assert(next_not_before(t, item.backoff_interval) == t + item.backoff_interval);
    }
}

/// A pass of the queue over its first eligible row, whose address parses, does
/// to that row what `pass_result` says: after the claim and the commit of the
/// attempt's resolution the row is gone exactly when `pass_result` is none, and
/// otherwise holds its item, released.
pub proof fn lemma_queue_pass(q: QueueView, now: i64, i: int, delivered: bool)
    requires
        queue_wf(q),
        first_claimable(q, now) == Some(i),
        is_valid_email(q.rows[i].item.recipient),
    ensures
        holds_claim(claim_step(q, now), q.rows[i].row_id),
        ({
            let id = q.rows[i].row_id;
            let q2 = finalize_step(
                claim_step(q, now),
                id,
                resolution_of(q.rows[i].item, transport_attempt(delivered), now),
            );
            match pass_result(q.rows[i].item, now, delivered) {
                None => !has_row(q2, id),
                Some(it) => q2.rows[i] == RowView { row_id: id, item: it, claimed: false },
            }
        }),
{
    crate::delivery_queue::lemma_first_claimable_bounds(q.rows, now, 0);
    let id = q.rows[i].row_id;
    let q1 = claim_step(q, now);
    assert(q1.rows[i].row_id == id && q1.rows[i].claimed);
    assert(queue_wf(q1)) by {
        assert forall|a: int, b: int| 0 <= a < b < q1.rows.len() implies #[trigger] q1.rows[a].row_id
            < #[trigger] q1.rows[b].row_id by {
            assert(q.rows[a].row_id < q.rows[b].row_id);
        }
        assert forall|a: int| 0 <= a < q1.rows.len() implies #[trigger] q1.rows[a].row_id
            < q1.next_row_id && q1.rows[a].item.remaining_attempts >= 1 by {
            assert(q.rows[a].row_id < q.next_row_id);
            assert(q.rows[a].item.remaining_attempts >= 1);
        }
    }
    crate::delivery_queue::lemma_index_of_row(q1, id, i);
    if pass_result(q.rows[i].item, now, delivered) is None {
        lemma_terminal_resolution_removes_row(
            q1,
            id,
            q.rows[i].item,
            transport_attempt(delivered),
            now,
        );
    }
}

/// An item that is not yet due is never claimed, is not sent, and a pass that
/// meets it leaves it as it was.
pub proof fn lemma_postponement_honored(q: QueueView, now: i64, i: int, delivered: bool)
    requires
        queue_wf(q),
        0 <= i < q.rows.len(),
        !is_due(q.rows[i].item, now),
    ensures
        first_claimable(q, now) != Some(i),
        !sends_on_pass(q.rows[i].item, now),
        pass_result(q.rows[i].item, now, delivered) == Some(q.rows[i].item),
{
    crate::delivery_queue::lemma_first_claimable_bounds(q.rows, now, 0);
}

/// An item whose address does not parse is removed on its first due pass
/// without a send, whatever its attempts.
pub proof fn lemma_invalid_address_removed_without_send(item: ItemView, now: i64, delivered: bool)
    requires
        is_due(item, now),
        !is_valid_email(item.recipient),
    ensures
        !sends_on_pass(item, now),
        pass_result(item, now, delivered) is None,
        resolution_of(item, AttemptResult::InvalidRecipient, now) == Resolution::Delete,
{
}

/// Claiming from an empty queue finds nothing, and the worker then suspends
/// for the idle interval before it claims again.
pub proof fn lemma_empty_queue_idles(q: QueueView, now: i64, settings: WorkerSettings)
    requires
        q.rows.len() == 0,
    ensures
        first_claimable(q, now) is None,
        worker_state_after(Ok::<ExecutionOutcome, TaskFailure>(ExecutionOutcome::EmptyQueue))
            == WorkerState::Idle,
        settings.pause_spec(WorkerState::Idle) == settings.idle_interval_ms,
{
}

} // verus!
