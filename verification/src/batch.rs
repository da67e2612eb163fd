//! The lifecycle of a batch of confidential orders: intake, close on the
//! revealed totals, settlement, and distribution order by order.
//!
//! A batch moves `Open → Closed → Executed → Distributing → Completed` and
//! never back. Every operation either passes all its guards and applies all
//! its effects, returning the event to publish, or changes nothing and
//! returns the reason.
use vstd::prelude::*;

verus! {

/// Where a batch stands in its lifecycle.
#[derive(Clone, Copy, Debug, PartialEq, Eq, Structural)]
pub enum BatchStatus {
    Open,
    Closed,
    Executed,
    Distributing,
    Completed,
}

/// Why a lifecycle operation was refused.
#[derive(Clone, Copy, Debug, PartialEq, Eq, Structural)]
pub enum ErrorCode {
    /// The batch is not open.
    BatchNotOpen,
    /// The batch holds no order.
    BatchEmpty,
    /// The batch is not closed.
    BatchNotClosed,
    /// The batch is neither executed nor distributing.
    BatchNotExecuted,
    /// The distribution was paid out before.
    AlreadyDistributed,
    /// The revealed number of orders differs from the recorded one.
    CountMismatch,
    /// A distribution for this order index was recorded before.
    DuplicateIndex,
}

impl ErrorCode {
    /// The text that describes the error.
    pub open spec fn text(self) -> Seq<char> {
        match self {
            ErrorCode::BatchNotOpen => "Batch is not open"@,
            ErrorCode::BatchEmpty => "Batch is empty"@,
            ErrorCode::BatchNotClosed => "Batch is not closed"@,
            ErrorCode::BatchNotExecuted => "Batch is not executed"@,
            ErrorCode::AlreadyDistributed => "Already distributed"@,
            ErrorCode::CountMismatch => "Order count mismatch"@,
            ErrorCode::DuplicateIndex => "Distribution already recorded"@,
        }
    }

    /// Describes the error in words.
    pub fn message(&self) -> (msg: &'static str)
        ensures
            msg@ == self.text(),
    {
        match self {
            ErrorCode::BatchNotOpen => "Batch is not open",
            ErrorCode::BatchEmpty => "Batch is empty",
            ErrorCode::BatchNotClosed => "Batch is not closed",
            ErrorCode::BatchNotExecuted => "Batch is not executed",
            ErrorCode::AlreadyDistributed => "Already distributed",
            ErrorCode::CountMismatch => "Order count mismatch",
            ErrorCode::DuplicateIndex => "Distribution already recorded",
        }
    }
}

/// A batch of orders for one side of one market.
#[derive(Clone, Debug, PartialEq, Eq)]
pub struct Batch {
    pub authority: [u8; 32],
    pub market_id: String,
    pub side: u8,
    pub status: BatchStatus,
    pub order_count: u8,
    pub total_usdc: u64,
    pub total_shares: u64,
    pub created_at: i64,
    pub distributions_completed: u8,
}

/// The payout owed to one order of a batch.
#[derive(Clone, Debug, PartialEq, Eq)]
pub struct Distribution {
    pub batch: [u8; 32],
    pub order_index: u8,
    pub shares: u64,
    pub wallet: [u8; 32],
    pub executed: bool,
}

/// Notice that a batch was opened.
#[derive(Clone, Debug, PartialEq, Eq)]
pub struct BatchCreated {
    pub batch: [u8; 32],
    pub market_id: String,
    pub side: u8,
}

/// Notice that an order joined a batch.
#[derive(Clone, Debug, PartialEq, Eq)]
pub struct OrderRecorded {
    pub batch: [u8; 32],
    pub order_count: u8,
}

/// Notice that a batch was closed on its revealed totals.
#[derive(Clone, Debug, PartialEq, Eq)]
pub struct BatchClosed {
    pub batch: [u8; 32],
    pub total_usdc: u64,
    pub order_count: u8,
}

/// Notice that the settlement of a batch was recorded.
#[derive(Clone, Debug, PartialEq, Eq)]
pub struct ExecutionRecorded {
    pub batch: [u8; 32],
    pub total_shares: u64,
    pub tx_signature: String,
}

/// Notice that the payout of one order was recorded.
#[derive(Clone, Debug, PartialEq, Eq)]
pub struct DistributionRecorded {
    pub batch: [u8; 32],
    pub order_index: u8,
    pub shares: u64,
    pub wallet: [u8; 32],
}

/// Notice that the payout of one order was made.
#[derive(Clone, Debug, PartialEq, Eq)]
pub struct DistributionExecuted {
    pub batch: [u8; 32],
    pub order_index: u8,
    pub tx_signature: String,
}

impl BatchStatus {
    /// Position of the status in the lifecycle.
    pub open spec fn rank(self) -> nat {
        match self {
            BatchStatus::Open => 0,
            BatchStatus::Closed => 1,
            BatchStatus::Executed => 2,
            BatchStatus::Distributing => 3,
            BatchStatus::Completed => 4,
        }
    }
}

impl Default for BatchStatus {
    fn default() -> (status: Self)
        ensures
            status == BatchStatus::Open,
    {
        BatchStatus::Open
    }
}

impl Batch {
    /// The lifecycle invariant: what the counters of a batch can hold in
    /// each status. In particular a batch that distributes has paid out
    /// fewer orders than it holds, and a completed one has paid out all.
    pub open spec fn wf(&self) -> bool {
        match self.status {
            BatchStatus::Open => self.total_usdc == 0 && self.total_shares == 0
                && self.distributions_completed == 0,
            BatchStatus::Closed => self.order_count > 0 && self.total_shares == 0
                && self.distributions_completed == 0,
            BatchStatus::Executed => self.order_count > 0 && self.distributions_completed == 0,
            BatchStatus::Distributing => self.order_count > 0 && self.distributions_completed
                < self.order_count,
            BatchStatus::Completed => self.order_count > 0 && self.distributions_completed
                >= self.order_count,
        }
    }
}

/// The batch after one more order, or why the order is refused.
pub open spec fn order_recorded(batch: Batch) -> Result<Batch, ErrorCode> {
    if batch.status != BatchStatus::Open {
        Err(ErrorCode::BatchNotOpen)
    } else {
        Ok(Batch { order_count: (batch.order_count + 1) as u8, ..batch })
    }
}

/// The batch after it is closed on the revealed totals, or why closing is
/// refused.
pub open spec fn batch_closed(batch: Batch, revealed_total: u64, revealed_count: u8) -> Result<
    Batch,
    ErrorCode,
> {
    if batch.status != BatchStatus::Open {
        Err(ErrorCode::BatchNotOpen)
    } else if batch.order_count == 0 {
        Err(ErrorCode::BatchEmpty)
    } else if revealed_count != batch.order_count {
        Err(ErrorCode::CountMismatch)
    } else {
        Ok(Batch { status: BatchStatus::Closed, total_usdc: revealed_total, ..batch })
    }
}

/// The batch after its settlement is recorded, or why that is refused.
pub open spec fn execution_recorded(batch: Batch, total_shares: u64) -> Result<Batch, ErrorCode> {
    if batch.status != BatchStatus::Closed {
        Err(ErrorCode::BatchNotClosed)
    } else {
        Ok(Batch { status: BatchStatus::Executed, total_shares, ..batch })
    }
}

/// The batch and the new distribution after a payout is recorded in the
/// slot of its order index, or why that is refused. `slot` is what the slot
/// held before.
pub open spec fn distribution_recorded(
    batch: Batch,
    slot: Option<Distribution>,
    batch_key: [u8; 32],
    order_index: u8,
    shares: u64,
    wallet: [u8; 32],
) -> Result<(Batch, Distribution), ErrorCode> {
    if batch.status != BatchStatus::Executed && batch.status != BatchStatus::Distributing {
        Err(ErrorCode::BatchNotExecuted)
    } else if slot is Some {
        Err(ErrorCode::DuplicateIndex)
    } else {
        Ok(
            (
                Batch { status: BatchStatus::Distributing, ..batch },
                Distribution { batch: batch_key, order_index, shares, wallet, executed: false },
            ),
        )
    }
}

/// The batch and the distribution after the payout is made, or why that is
/// refused.
pub open spec fn distribution_marked(batch: Batch, distribution: Distribution) -> Result<
    (Batch, Distribution),
    ErrorCode,
> {
    if distribution.executed {
        Err(ErrorCode::AlreadyDistributed)
    } else {
        let completed = (batch.distributions_completed + 1) as u8;
        Ok(
            (
                Batch {
                    distributions_completed: completed,
                    status: if completed == batch.order_count {
                        BatchStatus::Completed
                    } else {
                        batch.status
                    },
                    ..batch
                },
                Distribution { executed: true, ..distribution },
            ),
        )
    }
}

/// Opens a batch for `side` of the market `market_id`.
pub fn create_batch(
    batch_key: [u8; 32],
    authority: [u8; 32],
    market_id: String,
    side: u8,
    created_at: i64,
) -> (opened: (Batch, BatchCreated))
    ensures
        opened.0 == (Batch {
            authority,
            market_id,
            side,
            status: BatchStatus::Open,
            order_count: 0,
            total_usdc: 0,
            total_shares: 0,
            created_at,
            distributions_completed: 0,
        }),
        opened.1 == (BatchCreated { batch: batch_key, market_id, side }),
        opened.0.wf(),
{
    let batch = Batch {
        authority,
        market_id: market_id.clone(),
        side,
        status: BatchStatus::Open,
        order_count: 0,
        total_usdc: 0,
        total_shares: 0,
        created_at,
        distributions_completed: 0,
    };
    (batch, BatchCreated { batch: batch_key, market_id, side })
}

/// Counts one more order in an open batch.
///
/// Fails with `BatchNotOpen` when intake is over.
pub fn record_order(batch: &mut Batch, batch_key: [u8; 32]) -> (result: Result<
    OrderRecorded,
    ErrorCode,
>)
    requires
        old(batch).status == BatchStatus::Open ==> old(batch).order_count < u8::MAX,
    ensures
        match order_recorded(*old(batch)) {
            Ok(next) => *final(batch) == next && result is Ok && result->Ok_0 == (OrderRecorded {
                batch: batch_key,
                order_count: next.order_count,
            }),
            Err(e) => *final(batch) == *old(batch) && result is Err && result->Err_0 == e,
        },
        final(batch).status.rank() >= old(batch).status.rank(),
        old(batch).wf() ==> final(batch).wf(),
{
    if batch.status != BatchStatus::Open {
        return Err(ErrorCode::BatchNotOpen);
    }
    batch.order_count = batch.order_count + 1;
    Ok(OrderRecorded { batch: batch_key, order_count: batch.order_count })
}

/// Closes an open batch on the totals revealed from the confidential
/// statistics.
///
/// Fails with `BatchNotOpen` when the batch is not open, else with
/// `BatchEmpty` when it holds no order, else with `CountMismatch` when the
/// revealed count is not the number of orders recorded here.
pub fn close_batch(
    batch: &mut Batch,
    batch_key: [u8; 32],
    revealed_total: u64,
    revealed_count: u8,
) -> (result: Result<BatchClosed, ErrorCode>)
    ensures
        match batch_closed(*old(batch), revealed_total, revealed_count) {
            Ok(next) => *final(batch) == next && result is Ok && result->Ok_0 == (BatchClosed {
                batch: batch_key,
                total_usdc: revealed_total,
                order_count: revealed_count,
            }),
            Err(e) => *final(batch) == *old(batch) && result is Err && result->Err_0 == e,
        },
        final(batch).status.rank() >= old(batch).status.rank(),
        old(batch).wf() ==> final(batch).wf(),
{
    if batch.status != BatchStatus::Open {
        return Err(ErrorCode::BatchNotOpen);
    }
    if batch.order_count == 0 {
        return Err(ErrorCode::BatchEmpty);
    }
    if revealed_count != batch.order_count {
        return Err(ErrorCode::CountMismatch);
    }
    batch.status = BatchStatus::Closed;
    batch.total_usdc = revealed_total;
    Ok(BatchClosed { batch: batch_key, total_usdc: revealed_total, order_count: revealed_count })
}

/// Records the result of settling a closed batch.
///
/// Fails with `BatchNotClosed` when the batch is not closed.
pub fn record_execution(
    batch: &mut Batch,
    batch_key: [u8; 32],
    total_shares: u64,
    tx_signature: String,
) -> (result: Result<ExecutionRecorded, ErrorCode>)
    ensures
        match execution_recorded(*old(batch), total_shares) {
            Ok(next) => *final(batch) == next && result is Ok && result->Ok_0
                == (ExecutionRecorded { batch: batch_key, total_shares, tx_signature }),
            Err(e) => *final(batch) == *old(batch) && result is Err && result->Err_0 == e,
        },
        final(batch).status.rank() >= old(batch).status.rank(),
        old(batch).wf() ==> final(batch).wf(),
{
    if batch.status != BatchStatus::Closed {
        return Err(ErrorCode::BatchNotClosed);
    }
    batch.status = BatchStatus::Executed;
    batch.total_shares = total_shares;
    Ok(ExecutionRecorded { batch: batch_key, total_shares, tx_signature })
}

/// Records the payout revealed for one order, in the slot that belongs to
/// the order's index in this batch.
///
/// Fails with `BatchNotExecuted` when the batch is neither executed nor
/// distributing, else with `DuplicateIndex` when the slot is taken.
pub fn record_distribution(
    batch: &mut Batch,
    slot: &mut Option<Distribution>,
    batch_key: [u8; 32],
    order_index: u8,
    shares: u64,
    wallet: [u8; 32],
) -> (result: Result<DistributionRecorded, ErrorCode>)
    ensures
        match distribution_recorded(
            *old(batch),
            *old(slot),
            batch_key,
            order_index,
            shares,
            wallet,
        ) {
            Ok(next) => *final(batch) == next.0 && *final(slot) == Some(next.1) && result is Ok
                && result->Ok_0 == (DistributionRecorded {
                batch: batch_key,
                order_index,
                shares,
                wallet,
            }),
            Err(e) => *final(batch) == *old(batch) && *final(slot) == *old(slot) && result is Err
                && result->Err_0 == e,
        },
        final(batch).status.rank() >= old(batch).status.rank(),
        old(batch).wf() ==> final(batch).wf(),
{
    if batch.status != BatchStatus::Executed && batch.status != BatchStatus::Distributing {
        return Err(ErrorCode::BatchNotExecuted);
    }
    if slot.is_some() {
        return Err(ErrorCode::DuplicateIndex);
    }
    batch.status = BatchStatus::Distributing;
    *slot = Some(Distribution { batch: batch_key, order_index, shares, wallet, executed: false });
    Ok(DistributionRecorded { batch: batch_key, order_index, shares, wallet })
}

/// Marks the payout of one order as made; the batch is completed by the
/// payout that brings the number of payouts to the number of orders.
///
/// Fails with `AlreadyDistributed` when the payout was made before. The
/// status of the batch is not a guard: a distribution exists only once the
/// batch distributes.
pub fn mark_distributed(
    batch: &mut Batch,
    distribution: &mut Distribution,
    batch_key: [u8; 32],
    tx_signature: String,
) -> (result: Result<DistributionExecuted, ErrorCode>)
    requires
        !old(distribution).executed ==> old(batch).distributions_completed < u8::MAX,
    ensures
        match distribution_marked(*old(batch), *old(distribution)) {
            Ok(next) => *final(batch) == next.0 && *final(distribution) == next.1 && result is Ok
                && result->Ok_0 == (DistributionExecuted {
                batch: batch_key,
                order_index: old(distribution).order_index,
                tx_signature,
            }),
            Err(e) => *final(batch) == *old(batch) && *final(distribution) == *old(distribution)
                && result is Err && result->Err_0 == e,
        },
        final(batch).status.rank() >= old(batch).status.rank(),
        old(batch).wf() && old(batch).status.rank() >= BatchStatus::Distributing.rank()
            ==> final(batch).wf(),
{
    if distribution.executed {
        return Err(ErrorCode::AlreadyDistributed);
    }
    distribution.executed = true;
    batch.distributions_completed = batch.distributions_completed + 1;
    if batch.distributions_completed == batch.order_count {
        batch.status = BatchStatus::Completed;
    }
    Ok(
        DistributionExecuted {
            batch: batch_key,
            order_index: distribution.order_index,
            tx_signature,
        },
    )
}

/// A payout can be made once: after it is made, making it again is refused
/// as already distributed.
pub proof fn lemma_paid_once(batch: Batch, distribution: Distribution)
    requires
        distribution_marked(batch, distribution) is Ok,
    ensures
        !distribution.executed,
        distribution_marked(batch, distribution)->Ok_0.1.executed,
        distribution_marked(
            distribution_marked(batch, distribution)->Ok_0.0,
            distribution_marked(batch, distribution)->Ok_0.1,
        ) == Err::<(Batch, Distribution), ErrorCode>(ErrorCode::AlreadyDistributed),
{
}

/// A distributing batch is completed by exactly the payout that brings the
/// number of payouts to the number of orders, and a batch that is still
/// distributing has paid out fewer orders than it holds.
pub proof fn lemma_completed_exactly_when_all_paid(batch: Batch, distribution: Distribution)
    requires
        batch.wf(),
        batch.status == BatchStatus::Distributing,
        distribution_marked(batch, distribution) is Ok,
    ensures
        batch.distributions_completed < batch.order_count,
        distribution_marked(batch, distribution)->Ok_0.0.distributions_completed
            == batch.distributions_completed + 1,
        distribution_marked(batch, distribution)->Ok_0.0.status == BatchStatus::Completed
            <==> distribution_marked(batch, distribution)->Ok_0.0.distributions_completed
            == batch.order_count,
        distribution_marked(batch, distribution)->Ok_0.0.status != BatchStatus::Completed
            ==> distribution_marked(batch, distribution)->Ok_0.0.status
            == BatchStatus::Distributing,
{
}

} // verus!
