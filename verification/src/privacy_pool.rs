//! The shielded pool: an append-only accumulator of commitments with its
//! Merkle root, and the set of nullifiers that marks spent commitments.
use crate::field::{in_scalar_field, is_field_element, same_digest, zero_digest};
use crate::merkle::{
    all_in_field, compute_merkle_root, digests, tree_root, zero_leaf, MAX_LEAVES, MERKLE_DEPTH,
};
use vstd::prelude::*;

verus! {

/// Decimal places of the deposited token.
pub const TOKEN_DECIMALS: u8 = 6;

/// Why an operation on the pool was refused.
#[derive(Clone, Copy, Debug, PartialEq, Eq, Structural)]
pub enum PoolError {
    /// The commitment tree holds `MAX_LEAVES` commitments.
    TreeFull,
    /// The nullifier was recorded before.
    NullifierAlreadyUsed,
    /// The nullifier set holds `MAX_LEAVES` nullifiers.
    NullifierStorageFull,
}

impl PoolError {
    /// The text that describes the error.
    pub open spec fn text(self) -> Seq<char> {
        match self {
            PoolError::TreeFull => "Merkle tree is full"@,
            PoolError::NullifierAlreadyUsed => "Nullifier has already been used"@,
            PoolError::NullifierStorageFull => "Nullifier storage is full"@,
        }
    }

    /// Describes the error in words.
    pub fn message(&self) -> (msg: &'static str)
        ensures
            msg@ == self.text(),
    {
        match self {
            PoolError::TreeFull => "Merkle tree is full",
            PoolError::NullifierAlreadyUsed => "Nullifier has already been used",
            PoolError::NullifierStorageFull => "Nullifier storage is full",
        }
    }
}

/// The commitment accumulator.
#[derive(Clone, Debug, PartialEq, Eq)]
pub struct PrivacyPool {
    pub authority: [u8; 32],
    pub merkle_root: [u8; 32],
    pub next_index: u32,
    pub nullifier_count: u32,
    pub leaves: [[u8; 32]; MAX_LEAVES],
}

/// The nullifiers recorded so far, in the first `count` slots of `data`.
#[derive(Clone, Debug, PartialEq, Eq)]
pub struct NullifierSet {
    pub count: u32,
    pub data: [[u8; 32]; MAX_LEAVES],
}

/// Notice of a deposit.
#[derive(Clone, Debug, PartialEq, Eq)]
pub struct DepositEvent {
    pub leaf_index: u32,
    pub commitment: [u8; 32],
    pub timestamp: i64,
}

/// Notice of a commitment added without a deposit.
#[derive(Clone, Debug, PartialEq, Eq)]
pub struct CommitmentAddedEvent {
    pub leaf_index: u32,
    pub commitment: [u8; 32],
    pub timestamp: i64,
}

/// The token movement that goes with a deposit: `amount` units, checked
/// against `decimals` decimal places, from the depositor to the pool.
#[derive(Clone, Debug, PartialEq, Eq)]
pub struct TransferChecked {
    pub amount: u64,
    pub decimals: u8,
}

/// What an accepted deposit asks of the caller: the transfer to perform and
/// the event to publish.
#[derive(Clone, Debug, PartialEq, Eq)]
pub struct DepositReceipt {
    pub transfer: TransferChecked,
    pub event: DepositEvent,
}

impl PrivacyPool {
    /// Bytes that the pool occupies in storage.
    pub const SIZE: usize = 32 + 32 + 4 + 4 + (32 * MAX_LEAVES);

    /// The commitments inserted so far, oldest first.
    pub open spec fn committed(&self) -> Seq<Seq<u8>> {
        digests(self.leaves@.take(self.next_index as int))
    }

    /// What inserting `commitment` asks of the pool: while the tree has a
    /// free leaf, the commitments inserted so far and the new one are field
    /// elements, so that the tree over them can be hashed.
    pub open spec fn insertable(&self, commitment: [u8; 32]) -> bool {
        self.next_index < MAX_LEAVES ==> all_in_field(self.leaves@.take(self.next_index as int))
            && is_field_element(commitment@)
    }

    /// The pool's invariant: it holds no more commitments than the tree has
    /// leaves, all of them field elements, and its root is the root of the
    /// tree over exactly these commitments.
    pub open spec fn wf(&self) -> bool {
        &&& self.next_index <= MAX_LEAVES
        &&& all_in_field(self.leaves@.take(self.next_index as int))
        &&& self.merkle_root@ == tree_root(self.committed(), MERKLE_DEPTH as nat)
    }

    /// The root of the tree over the commitments inserted so far.
    pub fn current_root(&self) -> (root: [u8; 32])
        ensures
            root == self.merkle_root,
            self.wf() ==> root@ == tree_root(self.committed(), MERKLE_DEPTH as nat),
    {
        self.merkle_root
    }

    /// Tests whether `commitment` can be inserted: see `insertable`.
    pub fn can_insert(&self, commitment: &[u8; 32]) -> (ok: bool)
        ensures
            ok == self.insertable(*commitment),
    {
        let committed = self.next_index as usize;
        if committed >= MAX_LEAVES {
            return true;
        }
        let mut i: usize = 0;
        while i < committed
            invariant
                i <= committed,
                committed == self.next_index,
                committed < MAX_LEAVES,
                forall|j: int| 0 <= j < i ==> is_field_element(#[trigger] self.leaves@[j]@),
            decreases committed - i,
        {
            if !in_scalar_field(&self.leaves[i]) {
                assert(self.leaves@.take(committed as int)[i as int] == self.leaves@[i as int]);
                return false;
            }
            i += 1;
        }
        assert forall|j: int| 0 <= j < committed implies is_field_element(
            #[trigger] self.leaves@.take(committed as int)[j]@,
        ) by {
            assert(self.leaves@.take(committed as int)[j] == self.leaves@[j]);
        }
        in_scalar_field(commitment)
    }

    /// Appends a commitment and recomputes the root.
    ///
    /// Fails with `TreeFull`, leaving the pool as it was, when the tree has
    /// no free leaf. Otherwise the commitment takes the next free leaf, whose
    /// index is returned.
    pub fn insert(&mut self, commitment: [u8; 32]) -> (result: Result<u32, PoolError>)
        requires
            old(self).insertable(commitment),
        ensures
            old(self).next_index >= MAX_LEAVES ==> result == Err::<u32, PoolError>(
                PoolError::TreeFull,
            ) && *final(self) == *old(self),
            old(self).next_index < MAX_LEAVES ==> {
                &&& result == Ok::<u32, PoolError>(old(self).next_index)
                &&& final(self).next_index == old(self).next_index + 1
                &&& final(self).leaves@ == old(self).leaves@.update(
                    old(self).next_index as int,
                    commitment,
                )
                &&& final(self).committed() == old(self).committed().push(commitment@)
                &&& final(self).merkle_root@ == tree_root(
                    final(self).committed(),
                    MERKLE_DEPTH as nat,
                )
                &&& final(self).authority == old(self).authority
                &&& final(self).nullifier_count == old(self).nullifier_count
                &&& final(self).wf()
            },
    {
        if self.next_index >= MAX_LEAVES as u32 {
            return Err(PoolError::TreeFull);
        }
        let leaf_index = self.next_index;
        self.leaves[leaf_index as usize] = commitment;
        self.next_index = leaf_index + 1;
        proof {
            let before = old(self).leaves@.take(leaf_index as int);
            let after = self.leaves@.take(self.next_index as int);
            assert forall|j: int| 0 <= j < after.len() implies is_field_element(
                #[trigger] after[j]@,
            ) by {
                if j < leaf_index {
                    assert(after[j] == before[j]);
                }
            }
            assert(self.committed() =~= old(self).committed().push(commitment@));
        }
        self.merkle_root = compute_merkle_root(&self.leaves, self.next_index as usize);
        Ok(leaf_index)
    }
}

/// Creates an empty pool owned by `authority`.
pub fn initialize(authority: [u8; 32]) -> (pool: PrivacyPool)
    ensures
        pool.wf(),
        pool.authority == authority,
        pool.next_index == 0,
        pool.nullifier_count == 0,
        pool.committed() == Seq::<Seq<u8>>::empty(),
        pool.merkle_root@ == tree_root(Seq::<Seq<u8>>::empty(), MERKLE_DEPTH as nat),
        forall|i: int| 0 <= i < MAX_LEAVES ==> (#[trigger] pool.leaves@[i])@ == zero_digest(),
{
    let zero = zero_leaf();
    let leaves = [zero;MAX_LEAVES];
    let merkle_root = compute_merkle_root(&leaves, 0);
    let pool = PrivacyPool { authority, merkle_root, next_index: 0, nullifier_count: 0, leaves };
    proof {
        assert(pool.committed() =~= Seq::<Seq<u8>>::empty());
    }
    pool
}

/// Accepts a deposit of `amount` tokens bound to `commitment`.
///
/// Fails with `TreeFull`, leaving the pool as it was, when the tree has no
/// free leaf. Otherwise the commitment is inserted and the receipt names the
/// transfer that the caller must perform and the event to publish.
pub fn deposit(pool: &mut PrivacyPool, commitment: [u8; 32], amount: u64, timestamp: i64) -> (result:
    Result<DepositReceipt, PoolError>)
    requires
        old(pool).insertable(commitment),
    ensures
        old(pool).next_index >= MAX_LEAVES ==> result is Err && result->Err_0
            == PoolError::TreeFull && *final(pool) == *old(pool),
        old(pool).next_index < MAX_LEAVES ==> {
            &&& result is Ok
            &&& result->Ok_0.transfer.amount == amount
            &&& result->Ok_0.transfer.decimals == TOKEN_DECIMALS
            &&& result->Ok_0.event.leaf_index == old(pool).next_index
            &&& result->Ok_0.event.commitment == commitment
            &&& result->Ok_0.event.timestamp == timestamp
            &&& final(pool).next_index == old(pool).next_index + 1
            &&& final(pool).leaves@ == old(pool).leaves@.update(
                old(pool).next_index as int,
                commitment,
            )
            &&& final(pool).committed() == old(pool).committed().push(commitment@)
            &&& final(pool).merkle_root@ == tree_root(final(pool).committed(), MERKLE_DEPTH as nat)
            &&& final(pool).authority == old(pool).authority
            &&& final(pool).nullifier_count == old(pool).nullifier_count
            &&& final(pool).wf()
        },
{
    match pool.insert(commitment) {
        Ok(leaf_index) => Ok(
            DepositReceipt {
                transfer: TransferChecked { amount, decimals: TOKEN_DECIMALS },
                event: DepositEvent { leaf_index, commitment, timestamp },
            },
        ),
        Err(e) => Err(e),
    }
}

/// Adds a commitment that no deposit accompanies, such as the change note
/// of a partial spend.
///
/// Fails with `TreeFull`, leaving the pool as it was, when the tree has no
/// free leaf. Otherwise the commitment is inserted and the event to publish
/// is returned.
pub fn add_commitment(pool: &mut PrivacyPool, commitment: [u8; 32], timestamp: i64) -> (result:
    Result<CommitmentAddedEvent, PoolError>)
    requires
        old(pool).insertable(commitment),
    ensures
        old(pool).next_index >= MAX_LEAVES ==> result is Err && result->Err_0
            == PoolError::TreeFull && *final(pool) == *old(pool),
        old(pool).next_index < MAX_LEAVES ==> {
            &&& result is Ok
            &&& result->Ok_0.leaf_index == old(pool).next_index
            &&& result->Ok_0.commitment == commitment
            &&& result->Ok_0.timestamp == timestamp
            &&& final(pool).next_index == old(pool).next_index + 1
            &&& final(pool).leaves@ == old(pool).leaves@.update(
                old(pool).next_index as int,
                commitment,
            )
            &&& final(pool).committed() == old(pool).committed().push(commitment@)
            &&& final(pool).merkle_root@ == tree_root(final(pool).committed(), MERKLE_DEPTH as nat)
            &&& final(pool).authority == old(pool).authority
            &&& final(pool).nullifier_count == old(pool).nullifier_count
            &&& final(pool).wf()
        },
{
    match pool.insert(commitment) {
        Ok(leaf_index) => Ok(CommitmentAddedEvent { leaf_index, commitment, timestamp }),
        Err(e) => Err(e),
    }
}

/// Two pools that hold the same commitments in the same order have the same
/// root.
pub proof fn lemma_same_leaves_same_root(a: PrivacyPool, b: PrivacyPool)
    requires
        a.wf(),
        b.wf(),
        a.committed() == b.committed(),
    ensures
        a.merkle_root == b.merkle_root,
{
    assert(a.merkle_root@ == b.merkle_root@);
    assert(a.merkle_root =~= b.merkle_root);
}

impl NullifierSet {
    /// The nullifiers recorded so far, oldest first.
    pub open spec fn entries(&self) -> Seq<[u8; 32]> {
        self.data@.take(self.count as int)
    }

    /// The set's invariant: it holds no more nullifiers than it has slots,
    /// and no nullifier twice.
    pub open spec fn wf(&self) -> bool {
        &&& self.count <= MAX_LEAVES
        &&& self.entries().no_duplicates()
    }

    /// Creates an empty set.
    pub fn new() -> (set: NullifierSet)
        ensures
            set.wf(),
            set.count == 0,
            set.entries() == Seq::<[u8; 32]>::empty(),
            forall|i: int| 0 <= i < MAX_LEAVES ==> (#[trigger] set.data@[i])@ == zero_digest(),
    {
        let zero = zero_leaf();
        let set = NullifierSet { count: 0, data: [zero;MAX_LEAVES] };
        proof {
            assert(set.entries() =~= Seq::<[u8; 32]>::empty());
        }
        set
    }

    /// Tests whether `nullifier` was recorded.
    pub fn contains(&self, nullifier: &[u8; 32]) -> (found: bool)
        requires
            self.count <= MAX_LEAVES,
        ensures
            found == self.entries().contains(*nullifier),
    {
        let count = self.count as usize;
        let mut i: usize = 0;
        while i < count
            invariant
                i <= count,
                count == self.count,
                count <= MAX_LEAVES,
                forall|j: int| 0 <= j < i ==> self.entries()[j] != *nullifier,
            decreases count - i,
        {
            if same_digest(&self.data[i], nullifier) {
                assert(self.entries()[i as int] == *nullifier);
                return true;
            }
            i += 1;
        }
        false
    }
}

/// Tells whether `nullifier` has been spent.
pub fn is_nullifier_used(nullifiers: &NullifierSet, nullifier: [u8; 32]) -> (result: Result<
    bool,
    PoolError,
>)
    requires
        nullifiers.count <= MAX_LEAVES,
    ensures
        result == Ok::<bool, PoolError>(nullifiers.entries().contains(nullifier)),
{
    Ok(nullifiers.contains(&nullifier))
}

/// What recording `nullifier` does to a set that holds `entries`: the
/// entries afterwards, or the reason for the refusal.
pub open spec fn record_outcome(entries: Seq<[u8; 32]>, nullifier: [u8; 32]) -> Result<
    Seq<[u8; 32]>,
    PoolError,
> {
    if entries.contains(nullifier) {
        Err(PoolError::NullifierAlreadyUsed)
    } else if entries.len() >= MAX_LEAVES {
        Err(PoolError::NullifierStorageFull)
    } else {
        Ok(entries.push(nullifier))
    }
}

/// Records `nullifier` as spent.
///
/// Fails with `NullifierAlreadyUsed` when the nullifier was recorded before,
/// else with `NullifierStorageFull` when the set has no free slot; either way
/// the set stays as it was. Otherwise the nullifier takes the next free slot.
pub fn record_nullifier(nullifiers: &mut NullifierSet, nullifier: [u8; 32]) -> (result: Result<
    (),
    PoolError,
>)
    requires
        old(nullifiers).count <= MAX_LEAVES,
    ensures
        old(nullifiers).wf() ==> final(nullifiers).wf(),
        match record_outcome(old(nullifiers).entries(), nullifier) {
            Ok(entries) => {
                &&& result == Ok::<(), PoolError>(())
                &&& final(nullifiers).entries() == entries
                &&& final(nullifiers).entries().contains(nullifier)
                &&& final(nullifiers).count == old(nullifiers).count + 1
                &&& final(nullifiers).data@ == old(nullifiers).data@.update(
                    old(nullifiers).count as int,
                    nullifier,
                )
            },
            Err(e) => result == Err::<(), PoolError>(e) && *final(nullifiers) == *old(nullifiers),
        },
{
    if nullifiers.contains(&nullifier) {
        return Err(PoolError::NullifierAlreadyUsed);
    }
    let count = nullifiers.count as usize;
    if count >= MAX_LEAVES {
        return Err(PoolError::NullifierStorageFull);
    }
    nullifiers.data[count] = nullifier;
    nullifiers.count = nullifiers.count + 1;
    proof {
        assert(nullifiers.entries() =~= old(nullifiers).entries().push(nullifier));
        assert(nullifiers.entries()[count as int] == nullifier);
    }
    Ok(())
}

/// A nullifier is absent from the set before it is first recorded and
/// present afterwards, and recording it a second time is refused as
/// already used.
pub proof fn lemma_nullifier_spent_once(entries: Seq<[u8; 32]>, nullifier: [u8; 32])
    requires
        record_outcome(entries, nullifier) is Ok,
    ensures
        !entries.contains(nullifier),
        record_outcome(entries, nullifier)->Ok_0.contains(nullifier),
        record_outcome(record_outcome(entries, nullifier)->Ok_0, nullifier) == Err::<
            Seq<[u8; 32]>,
            PoolError,
        >(PoolError::NullifierAlreadyUsed),
{
    let after = entries.push(nullifier);
    assert(after[entries.len() as int] == nullifier);
}

} // verus!
