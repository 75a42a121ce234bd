use crate::domain::{is_valid_email, SubscriberEmail};
use crate::issue_delivery_worker::{
    is_due, outcome_of, plan_claimed, resolution_of, resolve_attempt, AttemptResult, ClaimPlan,
    DeliveryQueueItem, ExecutionOutcome, ItemView, Resolution,
};
use vstd::prelude::*;

verus! {

/// A row of the queue: an item, its key, and whether a worker holds it.
struct QueueRow {
    row_id: u64,
    item: DeliveryQueueItem,
    claimed: bool,
}

/// The value of a [`QueueRow`].
pub struct RowView {
    pub row_id: u64,
    pub item: ItemView,
    pub claimed: bool,
}

impl View for QueueRow {
    type V = RowView;

    closed spec fn view(&self) -> RowView {
        RowView { row_id: self.row_id, item: self.item@, claimed: self.claimed }
    }
}

/// The value of a [`DeliveryQueue`]: its rows in key order, and the key that
/// the next enqueued row receives.
pub struct QueueView {
    pub rows: Seq<RowView>,
    pub next_row_id: u64,
}

/// Keys increase along the rows and stay below the next key, and no row is
/// left with its attempts used up.
pub open spec fn queue_wf(q: QueueView) -> bool {
    &&& forall|i: int, j: int|
        0 <= i < j < q.rows.len() ==> #[trigger] q.rows[i].row_id < #[trigger] q.rows[j].row_id
    &&& forall|i: int| 0 <= i < q.rows.len() ==> #[trigger] q.rows[i].row_id < q.next_row_id
    &&& forall|i: int| 0 <= i < q.rows.len() ==> #[trigger] q.rows[i].item.remaining_attempts >= 1
}

/// Whether the queue holds a row with key `id`.
pub open spec fn has_row(q: QueueView, id: u64) -> bool {
    exists|i: int| 0 <= i < q.rows.len() && #[trigger] q.rows[i].row_id == id
}

/// Whether the queue holds a row with key `id` that a worker has claimed.
pub open spec fn holds_claim(q: QueueView, id: u64) -> bool {
    exists|i: int| 0 <= i < q.rows.len() && #[trigger] q.rows[i].row_id == id && q.rows[i].claimed
}

/// The index of the row with key `id`.
pub open spec fn index_of_row(q: QueueView, id: u64) -> int {
    choose|i: int| 0 <= i < q.rows.len() && #[trigger] q.rows[i].row_id == id
}

/// A row that a worker may claim at `now`: nobody holds it and it is due.
pub open spec fn is_claimable(r: RowView, now: i64) -> bool {
    !r.claimed && is_due(r.item, now)
}

/// The first claimable row at index `k` or later.
pub open spec fn first_claimable_from(rows: Seq<RowView>, now: i64, k: int) -> Option<int>
    decreases rows.len() - k,
{
    if k < 0 || k >= rows.len() {
        None
    } else if is_claimable(rows[k], now) {
        Some(k)
    } else {
        first_claimable_from(rows, now, k + 1)
    }
}

/// The row that a claim at `now` takes: the first one that nobody holds and
/// that is due. Held rows are skipped, never waited on.
pub open spec fn first_claimable(q: QueueView, now: i64) -> Option<int> {
    first_claimable_from(q.rows, now, 0)
}

/// The queue after a claim at `now`.
pub open spec fn claim_step(q: QueueView, now: i64) -> QueueView {
    match first_claimable(q, now) {
        Some(i) => QueueView {
            rows: q.rows.update(i, RowView { claimed: true, ..q.rows[i] }),
            ..q
        },
        None => q,
    }
}

/// The queue after the row with key `id` is committed unchanged.
pub open spec fn release_step(q: QueueView, id: u64) -> QueueView {
    let i = index_of_row(q, id);
    QueueView { rows: q.rows.update(i, RowView { claimed: false, ..q.rows[i] }), ..q }
}

/// The queue after the row with key `id` is committed with `res`.
pub open spec fn finalize_step(q: QueueView, id: u64, res: Resolution) -> QueueView {
    let i = index_of_row(q, id);
    match res {
        Resolution::Delete => QueueView { rows: q.rows.remove(i), ..q },
        Resolution::Reschedule { remaining_attempts, not_before } => QueueView {
            rows: q.rows.update(
                i,
                RowView {
                    item: ItemView {
                        remaining_attempts,
                        not_before: Some(not_before),
                        ..q.rows[i].item
                    },
                    claimed: false,
                    ..q.rows[i]
                },
            ),
            ..q
        },
    }
}

/// The queue after `item` is enqueued: a new unclaimed row under the next key.
pub open spec fn enqueue_step(q: QueueView, item: ItemView) -> QueueView {
    QueueView {
        rows: q.rows.push(RowView { row_id: q.next_row_id, item, claimed: false }),
        next_row_id: (q.next_row_id + 1) as u64,
    }
}

/// A new item for `recipient`, due at once.
pub open spec fn fresh_item(
    issue_id: u128,
    recipient: Seq<char>,
    max_attempts: u32,
    backoff_interval: u64,
) -> ItemView {
    ItemView { issue_id, recipient, remaining_attempts: max_attempts, not_before: None, backoff_interval }
}

/// The number of rows that belong to `issue_id`.
pub open spec fn rows_for_issue(rows: Seq<RowView>, issue_id: u128) -> nat
    decreases rows.len(),
{
    if rows.len() == 0 {
        0
    } else {
        rows_for_issue(rows.drop_last(), issue_id) + if rows.last().item.issue_id == issue_id {
            1nat
        } else {
            0nat
        }
    }
}

/// The attempt that a transport answer stands for.
pub open spec fn transport_attempt(delivered: bool) -> AttemptResult {
    if delivered {
        AttemptResult::Delivered
    } else {
        AttemptResult::TransportFailed
    }
}

/// An exclusive, transaction-scoped hold on one row. It cannot be copied, and
/// committing it consumes it, so each claim is finalized exactly once.
pub struct Claim {
    row_id: u64,
}

impl Claim {
    /// The key of the held row.
    pub closed spec fn id(&self) -> u64 {
        self.row_id
    }

    /// The key of the held row.
    pub fn row_id(&self) -> (r: u64)
        ensures
            r == self.id(),
    {
        self.row_id
    }
}

/// A claimed item on its way to the mail transport.
pub struct PendingDelivery {
    claim: Claim,
    item: DeliveryQueueItem,
    recipient: SubscriberEmail,
}

impl PendingDelivery {
    /// The key of the held row.
    pub closed spec fn claim_id(&self) -> u64 {
        self.claim.id()
    }

    /// The claimed item.
    pub closed spec fn item_view(&self) -> ItemView {
        self.item@
    }

    /// The address to send to.
    pub closed spec fn recipient_view(&self) -> Seq<char> {
        self.recipient.view()
    }

    /// The address to send to.
    pub fn recipient(&self) -> (r: &SubscriberEmail)
        ensures
            r.view() == self.recipient_view(),
    {
        &self.recipient
    }

    /// The issue to send.
    pub fn issue_id(&self) -> (r: u128)
        ensures
            r == self.item_view().issue_id,
    {
        self.item.issue_id
    }
}

/// Where a task stands after [`DeliveryQueue::begin_task`].
pub enum TaskStep {
    /// The task is over with this outcome.
    Finished(ExecutionOutcome),
    /// The issue is to be sent; the row stays held until the delivery completes.
    Send(PendingDelivery),
}

/// A delivery queue held in memory, with the claim discipline of the durable
/// one: a claim locks one eligible row and skips rows already held.
pub struct DeliveryQueue {
    rows: Vec<QueueRow>,
    next_row_id: u64,
}

impl View for DeliveryQueue {
    type V = QueueView;

    closed spec fn view(&self) -> QueueView {
        QueueView { rows: self.rows@.map_values(|r: QueueRow| r@), next_row_id: self.next_row_id }
    }
}

/// Under unique keys, the row with key `id` sits at `i`.
pub proof fn lemma_index_of_row(q: QueueView, id: u64, i: int)
    requires
        queue_wf(q),
        0 <= i < q.rows.len(),
        q.rows[i].row_id == id,
    ensures
        index_of_row(q, id) == i,
{
    let j = index_of_row(q, id);
    assert(0 <= j < q.rows.len() && q.rows[j].row_id == id);
    if j < i {
        assert(q.rows[j].row_id < q.rows[i].row_id);
    } else if i < j {
        assert(q.rows[i].row_id < q.rows[j].row_id);
    }
}

impl DeliveryQueue {
    /// An empty queue.
    pub fn new() -> (q: DeliveryQueue)
        ensures
            q@.rows.len() == 0,
            q@.next_row_id == 0,
            queue_wf(q@),
    {
        DeliveryQueue { rows: Vec::new(), next_row_id: 0 }
    }

    /// The number of rows.
    pub fn len(&self) -> (r: usize)
        ensures
            r == self@.rows.len(),
    {
        self.rows.len()
    }

    /// Adds `item` as a new unclaimed row and returns its key. An item with no
    /// attempts left is not stored, and nothing is stored once keys run out.
    pub fn enqueue(&mut self, item: DeliveryQueueItem) -> (r: Option<u64>)
        requires
            queue_wf(old(self)@),
        ensures
            queue_wf(final(self)@),
            r is Some <==> item.remaining_attempts >= 1 && old(self)@.next_row_id < u64::MAX,
            r matches Some(id) ==> id == old(self)@.next_row_id && final(self)@ == enqueue_step(
                old(self)@,
                item@,
            ),
            r is None ==> final(self)@ == old(self)@,
    {
        if item.remaining_attempts == 0 || self.next_row_id == u64::MAX {
            return None;
        }
        let id = self.next_row_id;
        self.rows.push(QueueRow { row_id: id, item, claimed: false });
        self.next_row_id = id + 1;
        assert(self@.rows =~= enqueue_step(old(self)@, item@).rows);
        Some(id)
    }

    /// Enqueues one row per recipient of `issue_id`, in order, each due at once
    /// with `max_attempts` attempts and `backoff_interval` between them, and
    /// returns how many were stored: none when `max_attempts` is zero, else all
    /// that keys remain for.
    pub fn enqueue_issue(
        &mut self,
        issue_id: u128,
        recipients: &Vec<String>,
        max_attempts: u32,
        backoff_interval: u64,
    ) -> (r: usize)
        requires
            queue_wf(old(self)@),
        ensures
            queue_wf(final(self)@),
            r == if max_attempts == 0 {
                0
            } else if recipients@.len() <= u64::MAX - old(self)@.next_row_id {
                recipients@.len() as int
            } else {
                (u64::MAX - old(self)@.next_row_id) as int
            },
            final(self)@.next_row_id == old(self)@.next_row_id + r,
            final(self)@.rows == old(self)@.rows + Seq::new(
                r as nat,
                |j: int|
                    RowView {
                        row_id: (old(self)@.next_row_id + j) as u64,
                        item: fresh_item(issue_id, recipients@[j]@, max_attempts, backoff_interval),
                        claimed: false,
                    },
            ),
    {
        let ghost q0 = self@;
        if max_attempts == 0 {
            assert(self@.rows =~= q0.rows + Seq::<RowView>::empty());
            return 0;
        }
        let n = recipients.len();
        let mut i: usize = 0;
        while i < n
            invariant
                i <= n,
                n == recipients@.len(),
                max_attempts >= 1,
                q0 == old(self)@,
                queue_wf(self@),
                self@.next_row_id == q0.next_row_id + i,
                self@.rows == q0.rows + Seq::new(
                    i as nat,
                    |j: int|
                        RowView {
                            row_id: (q0.next_row_id + j) as u64,
                            item: fresh_item(issue_id, recipients@[j]@, max_attempts, backoff_interval),
                            claimed: false,
                        },
                ),
            decreases n - i,
        {
            let item = DeliveryQueueItem {
                issue_id,
                recipient_email: recipients[i].clone(),
                remaining_attempts: max_attempts,
                not_before: None,
                backoff_interval,
            };
            let stored = self.enqueue(item);
            if stored.is_none() {
                assert(self@.next_row_id == u64::MAX);
                assert(i == u64::MAX - q0.next_row_id);
                return i;
            }
            i = i + 1;
            assert(self@.rows =~= q0.rows + Seq::new(
                i as nat,
                |j: int|
                    RowView {
                        row_id: (q0.next_row_id + j) as u64,
                        item: fresh_item(issue_id, recipients@[j]@, max_attempts, backoff_interval),
                        claimed: false,
                    },
            ));
        }
        n
    }

    /// Claims the first row that nobody holds and that is due at `now`, and
    /// returns the hold with a copy of the row's item.
    pub fn claim_next(&mut self, now: i64) -> (r: Option<(Claim, DeliveryQueueItem)>)
        requires
            queue_wf(old(self)@),
        ensures
            queue_wf(final(self)@),
            final(self)@ == claim_step(old(self)@, now),
            match first_claimable(old(self)@, now) {
                None => r is None,
                Some(i) => r matches Some((c, item)) && c.id() == old(self)@.rows[i].row_id
                    && item@ == old(self)@.rows[i].item,
            },
    {
        let n = self.rows.len();
        let mut i: usize = 0;
        while i < n
            invariant
                i <= n,
                n == self.rows@.len(),
                self@ == old(self)@,
                queue_wf(self@),
                first_claimable(self@, now) == first_claimable_from(self@.rows, now, i as int),
            decreases n - i,
        {
            let due = match self.rows[i].item.not_before {
                None => true,
                Some(t) => t <= now,
            };
            if !self.rows[i].claimed && due {
                assert(is_claimable(self@.rows[i as int], now));
                let id = self.rows[i].row_id;
                let item = self.rows[i].item.duplicate();
                self.rows[i].claimed = true;
                assert(self@.rows =~= claim_step(old(self)@, now).rows);
                return Some((Claim { row_id: id }, item));
            }
            assert(!is_claimable(self@.rows[i as int], now));
            i = i + 1;
        }
        None
    }

    /// The index of the row with key `id`, if there is one.
    fn find_row(&self, id: u64) -> (r: Option<usize>)
        requires
            queue_wf(self@),
        ensures
            match r {
                Some(i) => i < self@.rows.len() && self@.rows[i as int].row_id == id
                    && index_of_row(self@, id) == i,
                None => !has_row(self@, id),
            },
    {
        let n = self.rows.len();
        let mut i: usize = 0;
        while i < n
            invariant
                i <= n,
                n == self@.rows.len(),
                queue_wf(self@),
                forall|j: int| 0 <= j < i ==> #[trigger] self@.rows[j].row_id != id,
            decreases n - i,
        {
            if self.rows[i].row_id == id {
                proof {
                    lemma_index_of_row(self@, id, i as int);
                }
                return Some(i);
            }
            assert(self@.rows[i as int].row_id != id);
            i = i + 1;
        }
        None
    }

    /// Commits the held row unchanged, ending the hold.
    pub fn release(&mut self, claim: Claim)
        requires
            queue_wf(old(self)@),
            holds_claim(old(self)@, claim.id()),
        ensures
            queue_wf(final(self)@),
            final(self)@ == release_step(old(self)@, claim.id()),
    {
        let i = self.find_row(claim.row_id).unwrap();
        self.rows[i].claimed = false;
        assert(self@.rows =~= release_step(old(self)@, claim.id()).rows);
    }

    /// Commits the held row with `res`: removed, or rescheduled and released.
    pub fn finalize(&mut self, claim: Claim, res: Resolution)
        requires
            queue_wf(old(self)@),
            holds_claim(old(self)@, claim.id()),
            res matches Resolution::Reschedule { remaining_attempts, .. } ==> remaining_attempts
                >= 1,
        ensures
            queue_wf(final(self)@),
            final(self)@ == finalize_step(old(self)@, claim.id(), res),
    {
        let i = self.find_row(claim.row_id).unwrap();
        match res {
            Resolution::Delete => {
                self.rows.remove(i);
                assert(self@.rows =~= finalize_step(old(self)@, claim.id(), res).rows);
                assert forall|a: int, b: int|
                    0 <= a < b < self@.rows.len() implies #[trigger] self@.rows[a].row_id
                    < #[trigger] self@.rows[b].row_id by {
                    let a0 = if a < i { a } else { a + 1 };
                    let b0 = if b < i { b } else { b + 1 };
                    assert(old(self)@.rows[a0].row_id < old(self)@.rows[b0].row_id);
                }
                assert forall|a: int| 0 <= a < self@.rows.len() implies #[trigger] self@.rows[a].row_id
                    < self@.next_row_id && self@.rows[a].item.remaining_attempts >= 1 by {
                    let a0 = if a < i { a } else { a + 1 };
                    assert(old(self)@.rows[a0].row_id < old(self)@.next_row_id);
                    assert(old(self)@.rows[a0].item.remaining_attempts >= 1);
                }
            },
            Resolution::Reschedule { remaining_attempts, not_before } => {
                self.rows[i].item.remaining_attempts = remaining_attempts;
                self.rows[i].item.not_before = Some(not_before);
                self.rows[i].claimed = false;
                assert(self@.rows =~= finalize_step(old(self)@, claim.id(), res).rows);
            },
        }
    }

    /// The number of rows that belong to `issue_id`.
    pub fn count_for_issue(&self, issue_id: u128) -> (r: usize)
        ensures
            r == rows_for_issue(self@.rows, issue_id),
    {
        let n = self.rows.len();
        let mut c: usize = 0;
        let mut i: usize = 0;
        while i < n
            invariant
                i <= n,
                n == self@.rows.len(),
                c <= i,
                c == rows_for_issue(self@.rows.take(i as int), issue_id),
            decreases n - i,
        {
            assert(self@.rows.take(i + 1).drop_last() =~= self@.rows.take(i as int));
            if self.rows[i].item.issue_id == issue_id {
                c = c + 1;
            }
            i = i + 1;
        }
        assert(self@.rows.take(n as int) =~= self@.rows);
        c
    }

    /// Starts one task at `now`: claims the next eligible row and plans it.
    /// An empty queue yields `EmptyQueue`; a row whose address does not parse
    /// is removed and yields `TaskPostponed`; otherwise the row stays held and
    /// the pending delivery names the address to send to.
    pub fn begin_task(&mut self, now: i64) -> (s: TaskStep)
        requires
            queue_wf(old(self)@),
        ensures
            queue_wf(final(self)@),
            match first_claimable(old(self)@, now) {
                None => s matches TaskStep::Finished(o) && o == ExecutionOutcome::EmptyQueue
                    && final(self)@ == old(self)@,
                Some(i) => {
                    let row = old(self)@.rows[i];
                    if is_valid_email(row.item.recipient) {
                        &&& s matches TaskStep::Send(p)
                        &&& p.claim_id() == row.row_id
                        &&& p.item_view() == row.item
                        &&& p.recipient_view() == row.item.recipient
                        &&& final(self)@ == claim_step(old(self)@, now)
                        &&& holds_claim(final(self)@, p.claim_id())
                    } else {
                        &&& s matches TaskStep::Finished(o)
                        &&& o == ExecutionOutcome::TaskPostponed
                        &&& final(self)@ == QueueView { rows: old(self)@.rows.remove(i), ..old(self)@ }
                    }
                },
            },
    {
        let ghost q0 = self@;
        match self.claim_next(now) {
            None => TaskStep::Finished(ExecutionOutcome::EmptyQueue),
            Some((claim, item)) => {
                let ghost i = first_claimable(q0, now).unwrap();
                proof {
                    lemma_first_claimable_bounds(q0.rows, now, 0);
                    assert(self@.rows[i].row_id == claim.id() && self@.rows[i].claimed);
                    lemma_index_of_row(self@, claim.id(), i);
                }
                match plan_claimed(&item, now) {
                    ClaimPlan::Release => {
                        self.release(claim);
                        TaskStep::Finished(ExecutionOutcome::TaskPostponed)
                    },
                    ClaimPlan::Settle(res) => {
                        self.finalize(claim, res);
                        assert(self@.rows =~= q0.rows.remove(i));
                        TaskStep::Finished(ExecutionOutcome::TaskPostponed)
                    },
                    ClaimPlan::Deliver(recipient) => {
                        TaskStep::Send(PendingDelivery { claim, item, recipient })
                    },
                }
            },
        }
    }

    /// Finishes a pending delivery with the transport's answer at `now`: the
    /// row is removed on success, and on failure it uses up an attempt and is
    /// rescheduled, or removed when none is left.
    pub fn complete_delivery(&mut self, p: PendingDelivery, now: i64, delivered: bool) -> (o:
        ExecutionOutcome)
        requires
            queue_wf(old(self)@),
            holds_claim(old(self)@, p.claim_id()),
            old(self)@.rows[index_of_row(old(self)@, p.claim_id())].item == p.item_view(),
        ensures
            queue_wf(final(self)@),
            o == outcome_of(transport_attempt(delivered)),
            final(self)@ == finalize_step(
                old(self)@,
                p.claim_id(),
                resolution_of(p.item_view(), transport_attempt(delivered), now),
            ),
    {
        let attempt = if delivered {
            AttemptResult::Delivered
        } else {
            AttemptResult::TransportFailed
        };
        let res = resolve_attempt(&p.item, attempt, now);
        self.finalize(p.claim, res);
        attempt.outcome()
    }

    /// Gives up a pending delivery without settling it (the issue could not be
    /// read): the row is released unchanged and stays claimable.
    pub fn abandon_delivery(&mut self, p: PendingDelivery)
        requires
            queue_wf(old(self)@),
            holds_claim(old(self)@, p.claim_id()),
        ensures
            queue_wf(final(self)@),
            final(self)@ == release_step(old(self)@, p.claim_id()),
    {
        self.release(p.claim);
    }
}

/// The first claimable row from `k` on is a claimable row at or after `k`.
pub proof fn lemma_first_claimable_bounds(rows: Seq<RowView>, now: i64, k: int)
    ensures
        first_claimable_from(rows, now, k) matches Some(i) ==> k <= i < rows.len()
            && is_claimable(rows[i], now),
    decreases rows.len() - k,
{
    if 0 <= k < rows.len() && !is_claimable(rows[k], now) {
        lemma_first_claimable_bounds(rows, now, k + 1);
    }
}

} // verus!
