use obsidian_pool::confidential::{
    add_to_batch, compute_distribution, compute_share, init_batch, reveal_batch_total, test_add,
    test_multiply, BatchStats, Confidential, OrderData,
};

#[test]
fn share_of_a_quarter() {
    assert_eq!(compute_share(250, 1000, 100), 25);
}

#[test]
fn share_in_an_empty_batch_is_zero() {
    assert_eq!(compute_share(999, 0, 100), 0);
    assert_eq!(compute_share(999, 0, 0), 0);
    assert_eq!(compute_share(999, 0, u64::MAX), 0);
}

#[test]
fn share_rounds_down() {
    assert_eq!(compute_share(1, 3, 10), 3);
    assert_eq!(compute_share(2, 3, 10), 6);
    assert_eq!(compute_share(1, 3, 2), 0);
}

#[test]
fn share_of_the_whole_batch_is_every_share() {
    assert_eq!(compute_share(1000, 1000, 77), 77);
    assert_eq!(compute_share(u64::MAX, u64::MAX, u64::MAX), u64::MAX);
}

#[test]
fn share_does_not_overflow_on_large_operands() {
    assert_eq!(compute_share(u64::MAX - 1, u64::MAX, u64::MAX), u64::MAX - 1);
    assert_eq!(compute_share(1 << 63, u64::MAX, 1 << 63), 1 << 62);
}

#[test]
fn share_of_an_order_larger_than_its_batch_keeps_the_low_bits() {
    assert_eq!(compute_share(1 << 63, 1, 4), 0);
    assert_eq!(compute_share(1 << 63, 1, 3), 1 << 63);
    assert_eq!(compute_share(10, 5, 100), 200);
}

#[test]
fn seal_and_unseal_return_the_value() {
    assert_eq!(Confidential::seal(17u64).unseal(), 17);
    let order = OrderData { usdc_amount: 4, wallet_lo: 5, wallet_hi: 6 };
    assert_eq!(Confidential::seal(order.clone()).unseal(), order);
}

#[test]
fn a_new_batch_has_no_orders() {
    assert_eq!(reveal_batch_total(init_batch()), (0, 0));
    assert_eq!(init_batch().unseal(), BatchStats { total_usdc: 0, order_count: 0 });
}

#[test]
fn accumulation_sums_and_counts() {
    let stats = init_batch();
    let stats = add_to_batch(Confidential::seal(250), stats);
    let stats = add_to_batch(Confidential::seal(350), stats);
    let stats = add_to_batch(Confidential::seal(300), stats);
    assert_eq!(reveal_batch_total(stats), (900, 3));
}

#[test]
fn accumulation_reaches_the_limits() {
    let stats = Confidential::seal(BatchStats { total_usdc: u64::MAX - 5, order_count: 254 });
    let stats = add_to_batch(Confidential::seal(5), stats);
    assert_eq!(reveal_batch_total(stats), (u64::MAX, 255));
}

#[test]
fn distribution_reveals_share_and_wallet() {
    let payout = compute_distribution(
        Confidential::seal(250),
        Confidential::seal(0x1111_2222_3333_4444_5555_6666_7777_8888),
        Confidential::seal(0x9999_aaaa_bbbb_cccc_dddd_eeee_ffff_0000),
        1000,
        100,
    );
    assert_eq!(
        payout,
        (25, 0x1111_2222_3333_4444_5555_6666_7777_8888, 0x9999_aaaa_bbbb_cccc_dddd_eeee_ffff_0000)
    );
}

#[test]
fn distribution_in_an_empty_batch_pays_nothing() {
    let payout = compute_distribution(
        Confidential::seal(999),
        Confidential::seal(1),
        Confidential::seal(2),
        0,
        12345,
    );
    assert_eq!(payout, (0, 1, 2));
}

#[test]
fn shares_of_a_batch_do_not_exceed_the_total() {
    let amounts = [250u64, 350, 300];
    let mut paid = 0u64;
    for amount in amounts {
        paid += compute_share(amount, 900, 1000);
    }
    assert_eq!(paid, 277 + 388 + 333);
    assert!(paid <= 1000);
}

#[test]
fn sealed_addition() {
    assert_eq!(test_add(Confidential::seal(40), 2), 42);
    assert_eq!(test_add(Confidential::seal(u64::MAX - 1), 1), u64::MAX);
}

#[test]
fn sealed_multiplication() {
    assert_eq!(test_multiply(Confidential::seal(6), Confidential::seal(7)), 42);
    assert_eq!(test_multiply(Confidential::seal(0), Confidential::seal(u64::MAX)), 0);
    assert_eq!(test_multiply(Confidential::seal(1 << 32), Confidential::seal((1 << 32) - 1)), u64::MAX - (1 << 32) + 1);
}
