use crate::domain::{is_valid_email, SubscriberEmail};
use vstd::prelude::*;

verus! {

/// What one execution of a delivery task came to.
#[derive(PartialEq, Eq, Structural, Clone, Copy, Debug)]
pub enum ExecutionOutcome {
    TaskCompleted,
    TaskPostponed,
    EmptyQueue,
}

/// One outstanding obligation to deliver an issue to a recipient.
///
/// Times are microseconds since the Unix epoch; `not_before` is when the item
/// next becomes eligible (none: at once) and `backoff_interval` is how far a
/// failed attempt pushes it back.
pub struct DeliveryQueueItem {
    pub issue_id: u128,
    pub recipient_email: String,
    pub remaining_attempts: u32,
    pub not_before: Option<i64>,
    pub backoff_interval: u64,
}

/// The value of a [`DeliveryQueueItem`].
pub struct ItemView {
    pub issue_id: u128,
    pub recipient: Seq<char>,
    pub remaining_attempts: u32,
    pub not_before: Option<i64>,
    pub backoff_interval: u64,
}

impl View for DeliveryQueueItem {
    type V = ItemView;

    open spec fn view(&self) -> ItemView {
        ItemView {
            issue_id: self.issue_id,
            recipient: self.recipient_email@,
            remaining_attempts: self.remaining_attempts,
            not_before: self.not_before,
            backoff_interval: self.backoff_interval,
        }
    }
}

impl DeliveryQueueItem {
    /// A copy of the item.
    pub fn duplicate(&self) -> (r: DeliveryQueueItem)
        ensures
            r@ == self@,
    {
        DeliveryQueueItem {
            issue_id: self.issue_id,
            recipient_email: self.recipient_email.clone(),
            remaining_attempts: self.remaining_attempts,
            not_before: self.not_before,
            backoff_interval: self.backoff_interval,
        }
    }
}

/// An item is due once its `not_before` has been reached, or when it has none.
pub open spec fn is_due(item: ItemView, now: i64) -> bool {
    match item.not_before {
        None => true,
        Some(t) => t <= now,
    }
}

/// `now + backoff`, held at the largest timestamp when it does not fit.
pub open spec fn next_not_before(now: i64, backoff: u64) -> i64 {
    if now + backoff <= i64::MAX {
        (now + backoff) as i64
    } else {
        i64::MAX
    }
}

/// Whether the item is due at `now`.
pub fn item_is_due(item: &DeliveryQueueItem, now: i64) -> (r: bool)
    ensures
        r == is_due(item@, now),
{
    match item.not_before {
        None => true,
        Some(t) => t <= now,
    }
}

/// The earliest time after a failed attempt at `now` that the item may be tried again.
pub fn postpone_until(now: i64, backoff: u64) -> (r: i64)
    ensures
        r == next_not_before(now, backoff),
{
    let headroom: i128 = i64::MAX as i128 - now as i128;
    if backoff as i128 <= headroom {
        (now as i128 + backoff as i128) as i64
    } else {
        i64::MAX
    }
}

/// Microseconds in a second.
pub const MICROS_PER_SECOND: u64 = 1_000_000;

/// A stored count or duration, with a negative one read as zero.
pub open spec fn non_negative(x: i32) -> nat {
    if x < 0 {
        0
    } else {
        x as nat
    }
}

/// The item that a stored row stands for. The row keeps the time of the last
/// attempt and the backoff in whole seconds; the item is due once the backoff
/// has passed since that attempt, and a row never attempted is due at once.
pub fn item_from_stored_row(
    issue_id: u128,
    recipient_email: String,
    left_sending_tries: i32,
    execute_after_seconds: i32,
    execute_last_time: Option<i64>,
) -> (r: DeliveryQueueItem)
    ensures
        r.issue_id == issue_id,
        r.recipient_email@ == recipient_email@,
        r.remaining_attempts == non_negative(left_sending_tries),
        r.backoff_interval == non_negative(execute_after_seconds) * MICROS_PER_SECOND,
        r.not_before == match execute_last_time {
            None => None,
            Some(t) => Some(next_not_before(t, r.backoff_interval)),
        },
{
    let remaining_attempts: u32 = if left_sending_tries < 0 {
        0
    } else {
        left_sending_tries as u32
    };
    let seconds: u64 = if execute_after_seconds < 0 {
        0
    } else {
        execute_after_seconds as u64
    };
    assert(seconds * MICROS_PER_SECOND <= u64::MAX) by (nonlinear_arith)
        requires
            seconds <= i32::MAX,
    ;
    let backoff_interval = seconds * MICROS_PER_SECOND;
    let not_before = match execute_last_time {
        None => None,
        Some(t) => Some(postpone_until(t, backoff_interval)),
    };
    DeliveryQueueItem { issue_id, recipient_email, remaining_attempts, not_before, backoff_interval }
}

/// The time of the last attempt that a stored row keeps for an item due at
/// `not_before`: the backoff before it, held at the smallest timestamp.
pub fn stored_last_attempt(not_before: i64, backoff: u64) -> (r: i64)
    ensures
        r == if not_before - backoff >= i64::MIN {
            not_before - backoff
        } else {
            i64::MIN as int
        },
{
    let room: i128 = not_before as i128 - i64::MIN as i128;
    if backoff as i128 <= room {
        (not_before as i128 - backoff as i128) as i64
    } else {
        i64::MIN
    }
}

/// How an attempt at delivery ended.
#[derive(PartialEq, Eq, Structural, Clone, Copy, Debug)]
pub enum AttemptResult {
    /// The transport accepted the mail.
    Delivered,
    /// The transport failed; a later attempt may succeed.
    TransportFailed,
    /// The stored address does not parse; no attempt will ever succeed.
    InvalidRecipient,
}

/// What becomes of a claimed row when its transaction is committed.
#[derive(PartialEq, Eq, Structural, Clone, Copy, Debug)]
pub enum Resolution {
    /// The row leaves the queue for good.
    Delete,
    /// The row stays, with fewer attempts left and a later eligibility time.
    Reschedule { remaining_attempts: u32, not_before: i64 },
}

/// The fate of an item after an attempt at `now`: success and an unusable
/// address remove it; a transport failure uses up one attempt, and the item
/// is removed once none is left.
pub open spec fn resolution_of(item: ItemView, attempt: AttemptResult, now: i64) -> Resolution {
    match attempt {
        AttemptResult::Delivered => Resolution::Delete,
        AttemptResult::InvalidRecipient => Resolution::Delete,
        AttemptResult::TransportFailed => if item.remaining_attempts <= 1 {
            Resolution::Delete
        } else {
            Resolution::Reschedule {
                remaining_attempts: (item.remaining_attempts - 1) as u32,
                not_before: next_not_before(now, item.backoff_interval),
            }
        },
    }
}

/// The outcome that an attempt reports.
pub open spec fn outcome_of(attempt: AttemptResult) -> ExecutionOutcome {
    match attempt {
        AttemptResult::Delivered => ExecutionOutcome::TaskCompleted,
        _ => ExecutionOutcome::TaskPostponed,
    }
}

impl AttemptResult {
    /// The outcome that the executor reports for this attempt.
    pub fn outcome(&self) -> (r: ExecutionOutcome)
        ensures
            r == outcome_of(*self),
    {
        match self {
            AttemptResult::Delivered => ExecutionOutcome::TaskCompleted,
            _ => ExecutionOutcome::TaskPostponed,
        }
    }
}

/// Decides the fate of a claimed item after an attempt at `now`.
pub fn resolve_attempt(item: &DeliveryQueueItem, attempt: AttemptResult, now: i64) -> (r:
    Resolution)
    ensures
        r == resolution_of(item@, attempt, now),
        r matches Resolution::Reschedule { remaining_attempts, .. } ==> remaining_attempts >= 1,
{
    match attempt {
        AttemptResult::Delivered => Resolution::Delete,
        AttemptResult::InvalidRecipient => Resolution::Delete,
        AttemptResult::TransportFailed => {
            if item.remaining_attempts <= 1 {
                Resolution::Delete
            } else {
                Resolution::Reschedule {
                    remaining_attempts: item.remaining_attempts - 1,
                    not_before: postpone_until(now, item.backoff_interval),
                }
            }
        },
    }
}

/// What to do with an item that has just been claimed.
pub enum ClaimPlan {
    /// Not due yet: commit the row unchanged and report the task postponed.
    Release,
    /// Settled without a send (the address is unusable): commit this resolution
    /// and report the task postponed.
    Settle(Resolution),
    /// Send the issue to this address, then resolve by the transport's answer.
    Deliver(SubscriberEmail),
}

/// Whether a pass over `item` at `now` hands it to the mail transport.
pub open spec fn sends_on_pass(item: ItemView, now: i64) -> bool {
    is_due(item, now) && is_valid_email(item.recipient)
}

/// `plan` is the right plan for `item` at `now`.
pub open spec fn plan_fits(item: ItemView, now: i64, plan: ClaimPlan) -> bool {
    match plan {
        ClaimPlan::Release => !is_due(item, now),
        ClaimPlan::Settle(res) => is_due(item, now) && !is_valid_email(item.recipient) && res
            == resolution_of(item, AttemptResult::InvalidRecipient, now),
        ClaimPlan::Deliver(e) => sends_on_pass(item, now) && e.view() == item.recipient,
    }
}

/// Plans the execution of a claimed item, re-checking its eligibility at `now`.
pub fn plan_claimed(item: &DeliveryQueueItem, now: i64) -> (p: ClaimPlan)
    ensures
        plan_fits(item@, now, p),
        p is Release <==> !is_due(item@, now),
        p is Deliver <==> sends_on_pass(item@, now),
        p matches ClaimPlan::Settle(res) ==> res == Resolution::Delete,
{
    if !item_is_due(item, now) {
        return ClaimPlan::Release;
    }
    match SubscriberEmail::parse(item.recipient_email.clone()) {
        Ok(email) => ClaimPlan::Deliver(email),
        Err(_) => ClaimPlan::Settle(resolve_attempt(item, AttemptResult::InvalidRecipient, now)),
    }
}

/// Why an execution failed without settling its item; the item's transaction
/// is rolled back and the item stays claimable.
#[derive(PartialEq, Eq, Structural, Clone, Copy, Debug)]
pub enum TaskFailure {
    /// The issue that the item refers to could not be found.
    IssueMissing,
    /// The store could not be reached or a transaction failed.
    StoreUnavailable,
}

/// The states of the worker loop.
#[derive(PartialEq, Eq, Structural, Clone, Copy, Debug)]
pub enum WorkerState {
    /// Claim the next task at once.
    Running,
    /// The queue had nothing eligible: wait the idle interval.
    Idle,
    /// An execution failed: wait the error backoff.
    ErrorBackoff,
}

/// The state that the worker loop enters after an execution.
pub open spec fn worker_state_after(result: Result<ExecutionOutcome, TaskFailure>) -> WorkerState {
    match result {
        Ok(ExecutionOutcome::EmptyQueue) => WorkerState::Idle,
        Ok(_) => WorkerState::Running,
        Err(_) => WorkerState::ErrorBackoff,
    }
}

/// The worker loop's transition after one execution.
pub fn next_worker_state(result: &Result<ExecutionOutcome, TaskFailure>) -> (s: WorkerState)
    ensures
        s == worker_state_after(*result),
{
    match result {
        Ok(ExecutionOutcome::EmptyQueue) => WorkerState::Idle,
        Ok(_) => WorkerState::Running,
        Err(_) => WorkerState::ErrorBackoff,
    }
}

/// How long the worker loop suspends in each state, in milliseconds.
#[derive(PartialEq, Eq, Structural, Clone, Copy, Debug)]
pub struct WorkerSettings {
    pub idle_interval_ms: u64,
    pub error_backoff_ms: u64,
}

/// The default idle interval: ten seconds.
pub const DEFAULT_IDLE_INTERVAL_MS: u64 = 10_000;

/// The default error backoff: one second.
pub const DEFAULT_ERROR_BACKOFF_MS: u64 = 1_000;

impl WorkerSettings {
    /// The pause that `state` asks for.
    pub open spec fn pause_spec(self, state: WorkerState) -> u64 {
        match state {
            WorkerState::Running => 0,
            WorkerState::Idle => self.idle_interval_ms,
            WorkerState::ErrorBackoff => self.error_backoff_ms,
        }
    }

    /// Ten seconds idle, one second after an error.
    pub fn standard() -> (r: WorkerSettings)
        ensures
            r.idle_interval_ms == DEFAULT_IDLE_INTERVAL_MS,
            r.error_backoff_ms == DEFAULT_ERROR_BACKOFF_MS,
    {
        WorkerSettings {
            idle_interval_ms: DEFAULT_IDLE_INTERVAL_MS,
            error_backoff_ms: DEFAULT_ERROR_BACKOFF_MS,
        }
    }

    /// How long to suspend in `state` before the next claim, in milliseconds.
    pub fn pause_ms(&self, state: WorkerState) -> (r: u64)
        ensures
            r == self.pause_spec(state),
    {
        match state {
            WorkerState::Running => 0,
            WorkerState::Idle => self.idle_interval_ms,
            WorkerState::ErrorBackoff => self.error_backoff_ms,
        }
    }
}

} // verus!
