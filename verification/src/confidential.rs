//! The confidential-computation boundary: values whose plaintext only the
//! operations of this module can read, the batch statistics that are kept
//! behind it, and the pro-rata share that is revealed from it.
use vstd::prelude::*;

verus! {

/// A value behind the confidential boundary.
///
/// Code outside this module cannot read the plaintext: it can seal a value,
/// hand the sealed value to one of the operations below, and unseal it, which
/// consumes it. The view is the plaintext, for use in contracts only.
pub struct Confidential<T> {
    value: T,
}

impl<T> View for Confidential<T> {
    type V = T;

    closed spec fn view(&self) -> T {
        self.value
    }
}

impl<T> Confidential<T> {
    /// Moves a plain value behind the boundary.
    pub fn seal(value: T) -> (sealed: Self)
        ensures
            sealed@ == value,
    {
        Confidential { value }
    }

    /// Crosses the boundary: consumes the sealed value and returns its
    /// plaintext.
    pub fn unseal(self) -> (value: T)
        ensures
            value == self@,
    {
        self.value
    }
}

/// Running statistics of a batch: the sum of its orders and their number.
#[derive(Clone, Debug, PartialEq, Eq)]
pub struct BatchStats {
    /// Total amount across all orders.
    pub total_usdc: u64,
    /// Number of orders.
    pub order_count: u8,
}

/// One participant's order.
#[derive(Clone, Debug, PartialEq, Eq)]
pub struct OrderData {
    /// Amount in atomic units.
    pub usdc_amount: u64,
    /// Low half of the destination wallet.
    pub wallet_lo: u128,
    /// High half of the destination wallet.
    pub wallet_hi: u128,
}

/// The share of `total_shares` that falls to an order of `amount` in a batch
/// of `batch_total`: the proportional part, rounded down, and nothing in an
/// empty batch.
pub open spec fn pro_rata_share(amount: nat, batch_total: nat, total_shares: nat) -> nat {
    if batch_total > 0 {
        (amount * total_shares) / batch_total
    } else {
        0
    }
}

/// The share is the largest whole number of shares whose part of the batch
/// total the order's amount covers.
pub proof fn lemma_share_is_floor(amount: nat, batch_total: nat, total_shares: nat)
    requires
        batch_total > 0,
    ensures
        pro_rata_share(amount, batch_total, total_shares) * batch_total <= amount * total_shares,
        amount * total_shares < (pro_rata_share(amount, batch_total, total_shares) + 1)
            * batch_total,
{
    let product = amount * total_shares;
    vstd::arithmetic::div_mod::lemma_fundamental_div_mod(product as int, batch_total as int);
    vstd::arithmetic::div_mod::lemma_mod_bound(product as int, batch_total as int);
    let q = product as int / batch_total as int;
    assert(product == batch_total * q + product as int % batch_total as int);
    assert(q * batch_total == batch_total * q) by (nonlinear_arith);
    assert((q + 1) * batch_total == batch_total * q + batch_total) by (nonlinear_arith);
}

/// An order that is no larger than its batch gets no more than all the
/// shares.
pub proof fn lemma_share_bounded(amount: nat, batch_total: nat, total_shares: nat)
    requires
        amount <= batch_total,
    ensures
        pro_rata_share(amount, batch_total, total_shares) <= total_shares,
{
    if batch_total > 0 {
        lemma_share_is_floor(amount, batch_total, total_shares);
        let share = pro_rata_share(amount, batch_total, total_shares);
        assert(share <= total_shares) by (nonlinear_arith)
            requires
                share * batch_total <= amount * total_shares,
                amount <= batch_total,
                batch_total > 0,
        ;
    }
}

/// Computes an order's share of the settlement on plain values.
///
/// The product is formed in 128 bits, so it never overflows; a quotient that
/// exceeds 64 bits, which takes an order larger than its batch, is cut to
/// its low 64 bits.
pub fn compute_share(amount: u64, batch_total: u64, total_shares: u64) -> (share: u64)
    ensures
        share == pro_rata_share(amount as nat, batch_total as nat, total_shares as nat)
            % 0x1_0000_0000_0000_0000,
        batch_total == 0 ==> share == 0,
        amount <= batch_total ==> share == pro_rata_share(
            amount as nat,
            batch_total as nat,
            total_shares as nat,
        ),
{
    if batch_total > 0 {
        assert(amount as u128 * total_shares as u128 <= u128::MAX) by (nonlinear_arith)
            requires
                amount <= u64::MAX,
                total_shares <= u64::MAX,
        ;
        let product: u128 = (amount as u128) * (total_shares as u128);
        let quotient: u128 = product / (batch_total as u128);
        let share: u64 = #[verifier::truncate]
        (quotient as u64);
        proof {
            assert(quotient == pro_rata_share(
                amount as nat,
                batch_total as nat,
                total_shares as nat,
            ));
            assert(share == quotient % 0x1_0000_0000_0000_0000) by (bit_vector)
                requires
                    share == quotient as u64,
            ;
            if amount <= batch_total {
                lemma_share_bounded(amount as nat, batch_total as nat, total_shares as nat);
            }
        }
        share
    } else {
        0u64
    }
}

/// Starts a batch: sealed statistics of no orders.
pub fn init_batch() -> (stats: Confidential<BatchStats>)
    ensures
        stats@.total_usdc == 0,
        stats@.order_count == 0,
{
    Confidential { value: BatchStats { total_usdc: 0, order_count: 0 } }
}

/// Adds one sealed order amount to the sealed statistics.
pub fn add_to_batch(usdc_amount: Confidential<u64>, stats_ctxt: Confidential<BatchStats>) -> (stats:
    Confidential<BatchStats>)
    requires
        stats_ctxt@.total_usdc + usdc_amount@ <= u64::MAX,
        stats_ctxt@.order_count < u8::MAX,
    ensures
        stats@.total_usdc == stats_ctxt@.total_usdc + usdc_amount@,
        stats@.order_count == stats_ctxt@.order_count + 1,
{
    let amount = usdc_amount.value;
    let before = stats_ctxt.value;
    Confidential {
        value: BatchStats {
            total_usdc: before.total_usdc + amount,
            order_count: before.order_count + 1,
        },
    }
}

/// Reveals the batch total and the number of orders, both at once, and
/// consumes the sealed statistics.
pub fn reveal_batch_total(stats_ctxt: Confidential<BatchStats>) -> (totals: (u64, u8))
    ensures
        totals.0 == stats_ctxt@.total_usdc,
        totals.1 == stats_ctxt@.order_count,
{
    let stats = stats_ctxt.value;
    (stats.total_usdc, stats.order_count)
}

/// Reveals an order's share of the settlement and its destination wallet.
/// The order's amount stays sealed.
pub fn compute_distribution(
    order_amount: Confidential<u64>,
    wallet_lo: Confidential<u128>,
    wallet_hi: Confidential<u128>,
    batch_total: u64,
    total_shares: u64,
) -> (payout: (u64, u128, u128))
    ensures
        payout.0 == pro_rata_share(order_amount@ as nat, batch_total as nat, total_shares as nat)
            % 0x1_0000_0000_0000_0000,
        batch_total == 0 ==> payout.0 == 0,
        order_amount@ <= batch_total ==> payout.0 == pro_rata_share(
            order_amount@ as nat,
            batch_total as nat,
            total_shares as nat,
        ),
        payout.1 == wallet_lo@,
        payout.2 == wallet_hi@,
{
    let shares = compute_share(order_amount.value, batch_total, total_shares);
    (shares, wallet_lo.value, wallet_hi.value)
}

/// Reveals the sum of a sealed and a plain number.
pub fn test_add(a: Confidential<u64>, b: u64) -> (sum: u64)
    requires
        a@ + b <= u64::MAX,
    ensures
        sum == a@ + b,
{
    a.value + b
}

/// Reveals the product of two sealed numbers.
pub fn test_multiply(a: Confidential<u64>, b: Confidential<u64>) -> (product: u64)
    requires
        a@ * b@ <= u64::MAX,
    ensures
        product == a@ * b@,
{
    a.value * b.value
}

} // verus!
