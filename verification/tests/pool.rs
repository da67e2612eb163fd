use obsidian_pool::merkle::{compute_merkle_root, MAX_LEAVES};
use obsidian_pool::privacy_pool::{
    add_commitment, deposit, initialize, is_nullifier_used, record_nullifier, NullifierSet,
    PoolError, PrivacyPool, TOKEN_DECIMALS,
};

fn small(value: u8) -> [u8; 32] {
    let mut bytes = [0u8; 32];
    bytes[31] = value;
    bytes
}

#[test]
fn initialize_gives_an_empty_pool() {
    let pool = initialize([7u8; 32]);
    assert_eq!(pool.authority, [7u8; 32]);
    assert_eq!(pool.next_index, 0);
    assert_eq!(pool.nullifier_count, 0);
    assert_eq!(pool.leaves, [[0u8; 32]; MAX_LEAVES]);
    assert_eq!(pool.merkle_root, compute_merkle_root(&[[0u8; 32]; MAX_LEAVES], 0));
    assert_eq!(pool.current_root(), pool.merkle_root);
}

#[test]
fn pool_size_counts_every_field() {
    assert_eq!(PrivacyPool::SIZE, 32 + 32 + 4 + 4 + 32 * 32);
}

#[test]
fn deposit_appends_and_asks_for_the_transfer() {
    let mut pool = initialize([7u8; 32]);
    let receipt = deposit(&mut pool, small(5), 1_000_000, 1_700_000_000).unwrap();
    assert_eq!(receipt.transfer.amount, 1_000_000);
    assert_eq!(receipt.transfer.decimals, 6);
    assert_eq!(TOKEN_DECIMALS, 6);
    assert_eq!(receipt.event.leaf_index, 0);
    assert_eq!(receipt.event.commitment, small(5));
    assert_eq!(receipt.event.timestamp, 1_700_000_000);
    assert_eq!(pool.next_index, 1);
    assert_eq!(pool.leaves[0], small(5));
    assert_eq!(pool.authority, [7u8; 32]);
    assert_eq!(pool.merkle_root, compute_merkle_root(&pool.leaves, 1));
}

#[test]
fn add_commitment_appends_after_a_deposit() {
    let mut pool = initialize([7u8; 32]);
    deposit(&mut pool, small(5), 10, 1).unwrap();
    let event = add_commitment(&mut pool, small(6), 2).unwrap();
    assert_eq!(event.leaf_index, 1);
    assert_eq!(event.commitment, small(6));
    assert_eq!(event.timestamp, 2);
    assert_eq!(pool.next_index, 2);
    assert_eq!(pool.leaves[1], small(6));
    assert_eq!(pool.merkle_root, compute_merkle_root(&pool.leaves, 2));
}

#[test]
fn insert_returns_the_index_and_changes_the_root() {
    let mut pool = initialize([0u8; 32]);
    let empty_root = pool.current_root();
    assert_eq!(pool.insert(small(1)), Ok(0));
    let first_root = pool.current_root();
    assert_ne!(first_root, empty_root);
    assert_eq!(pool.insert(small(1)), Ok(1));
    assert_ne!(pool.current_root(), first_root);
}

#[test]
fn same_leaves_on_two_pools_give_the_same_root() {
    let mut a = initialize([1u8; 32]);
    let mut b = initialize([2u8; 32]);
    for i in 0..10u8 {
        a.insert(small(i)).unwrap();
        deposit(&mut b, small(i), 5, 9).unwrap();
        assert_eq!(a.current_root(), b.current_root());
    }
}

#[test]
fn order_of_leaves_matters() {
    let mut a = initialize([1u8; 32]);
    let mut b = initialize([1u8; 32]);
    a.insert(small(1)).unwrap();
    a.insert(small(2)).unwrap();
    b.insert(small(2)).unwrap();
    b.insert(small(1)).unwrap();
    assert_ne!(a.current_root(), b.current_root());
}

#[test]
fn insert_beyond_capacity_fails_and_changes_nothing() {
    let mut pool = initialize([3u8; 32]);
    for i in 0..MAX_LEAVES {
        assert_eq!(pool.insert(small(i as u8 + 1)), Ok(i as u32));
    }
    assert_eq!(pool.next_index, 32);
    let before = pool.clone();
    assert_eq!(pool.insert(small(99)), Err(PoolError::TreeFull));
    assert_eq!(pool, before);
    assert_eq!(deposit(&mut pool, small(99), 1, 1), Err(PoolError::TreeFull));
    assert_eq!(pool, before);
    assert_eq!(add_commitment(&mut pool, small(99), 1), Err(PoolError::TreeFull));
    assert_eq!(pool, before);
}

#[test]
fn a_full_pool_refuses_even_what_is_no_field_element() {
    let mut pool = initialize([3u8; 32]);
    for i in 0..MAX_LEAVES {
        pool.insert(small(i as u8)).unwrap();
    }
    assert_eq!(pool.insert([255u8; 32]), Err(PoolError::TreeFull));
}

#[test]
fn nullifier_is_absent_before_and_present_after() {
    let mut set = NullifierSet::new();
    let n = [9u8; 32];
    assert_eq!(is_nullifier_used(&set, n), Ok(false));
    assert!(!set.contains(&n));
    assert_eq!(record_nullifier(&mut set, n), Ok(()));
    assert_eq!(is_nullifier_used(&set, n), Ok(true));
    assert!(set.contains(&n));
    assert_eq!(set.count, 1);
    assert_eq!(set.data[0], n);
}

#[test]
fn recording_a_nullifier_twice_fails() {
    let mut set = NullifierSet::new();
    let n = [9u8; 32];
    assert_eq!(record_nullifier(&mut set, n), Ok(()));
    let before = set.clone();
    assert_eq!(record_nullifier(&mut set, n), Err(PoolError::NullifierAlreadyUsed));
    assert_eq!(set, before);
}

#[test]
fn the_zero_nullifier_is_not_in_a_new_set() {
    let set = NullifierSet::new();
    assert_eq!(set.count, 0);
    assert_eq!(is_nullifier_used(&set, [0u8; 32]), Ok(false));
}

#[test]
fn nullifiers_that_differ_in_one_byte_are_distinct() {
    let mut set = NullifierSet::new();
    let mut a = [1u8; 32];
    assert_eq!(record_nullifier(&mut set, a), Ok(()));
    a[17] = 2;
    assert_eq!(is_nullifier_used(&set, a), Ok(false));
    assert_eq!(record_nullifier(&mut set, a), Ok(()));
    assert_eq!(set.count, 2);
}

#[test]
fn a_full_nullifier_set_refuses_new_nullifiers() {
    let mut set = NullifierSet::new();
    for i in 0..MAX_LEAVES {
        assert_eq!(record_nullifier(&mut set, small(i as u8)), Ok(()));
    }
    assert_eq!(set.count, 32);
    let before = set.clone();
    assert_eq!(record_nullifier(&mut set, small(200)), Err(PoolError::NullifierStorageFull));
    assert_eq!(set, before);
    assert_eq!(is_nullifier_used(&set, small(200)), Ok(false));
}

#[test]
fn a_full_nullifier_set_still_reports_a_double_spend() {
    let mut set = NullifierSet::new();
    for i in 0..MAX_LEAVES {
        record_nullifier(&mut set, small(i as u8)).unwrap();
    }
    assert_eq!(record_nullifier(&mut set, small(31)), Err(PoolError::NullifierAlreadyUsed));
}

#[test]
fn pool_errors_have_their_messages() {
    assert_eq!(PoolError::TreeFull.message(), "Merkle tree is full");
    assert_eq!(PoolError::NullifierAlreadyUsed.message(), "Nullifier has already been used");
    assert_eq!(PoolError::NullifierStorageFull.message(), "Nullifier storage is full");
}

#[test]
fn can_insert_tests_the_commitment_and_the_leaves() {
    let mut pool = initialize([0u8; 32]);
    assert!(pool.can_insert(&small(1)));
    assert!(!pool.can_insert(&[255u8; 32]));
    pool.insert(small(1)).unwrap();
    assert!(pool.can_insert(&small(2)));
    pool.leaves[0] = [255u8; 32];
    assert!(!pool.can_insert(&small(2)));
    pool.leaves[0] = small(1);
    pool.leaves[1] = [255u8; 32];
    assert!(pool.can_insert(&small(2)));
}

#[test]
fn a_full_pool_can_be_asked_to_insert_anything() {
    let mut pool = initialize([0u8; 32]);
    for i in 0..MAX_LEAVES {
        pool.insert(small(i as u8)).unwrap();
    }
    assert!(pool.can_insert(&[255u8; 32]));
    assert_eq!(pool.insert([255u8; 32]), Err(PoolError::TreeFull));
}

#[test]
fn a_new_nullifier_set_has_zeroed_slots() {
    let set = NullifierSet::new();
    assert_eq!(set.data, [[0u8; 32]; MAX_LEAVES]);
}
