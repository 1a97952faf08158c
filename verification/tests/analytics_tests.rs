use jex_sc_stablepool::{
    AnalyticsModule, BigUint, EsdtTokenPayment, JexScStablepoolContract, LiquidityModule,
    PausableModule, StablePool,
};

fn big(v: u128) -> BigUint {
    BigUint::from_bytes_be(v.to_be_bytes().to_vec())
}

fn val(b: &BigUint) -> u128 {
    let mut v: u128 = 0;
    for x in b.to_bytes_be() {
        v = v.checked_mul(256).unwrap() + x as u128;
    }
    v
}

const E18: u128 = 1_000_000_000_000_000_000;
const E6: u128 = 1_000_000;

fn id(s: &str) -> Vec<u8> {
    s.as_bytes().to_vec()
}

fn pool() -> StablePool {
    let mut pool = StablePool::init(
        256,
        vec![(id("WDAI-9eeb54"), big(1)), (id("USDC-c76f1f"), big(1_000_000_000_000))],
    )
    .unwrap();
    pool.resume(&id("owner"), &id("owner")).unwrap();
    pool.set_swap_fee(&id("owner"), &id("owner"), 300).unwrap();
    pool.configure_platform_fees_receiver(&id("owner"), &id("owner"), &id("platform")).unwrap();
    pool.add_liquidity(
        &vec![
            EsdtTokenPayment { token_identifier: id("WDAI-9eeb54"), token_nonce: 0, amount: big(1000 * E18) },
            EsdtTokenPayment { token_identifier: id("USDC-c76f1f"), token_nonce: 0, amount: big(1000 * E6) },
        ],
        &big(1),
    )
    .unwrap();
    pool
}

#[test]
fn recorded_amounts_accumulate() {
    let mut pool = pool();
    pool.analytics_add_volume(&id("X"), &big(5), 3);
    pool.analytics_add_volume(&id("X"), &big(7), 3);
    pool.analytics_add_volume(&id("X"), &big(1), 4);
    pool.analytics_add_lp_fees(&id("Y"), &big(2), 3);
    assert_eq!(val(&pool.trading_volume(3, &id("X"))), 12);
    assert_eq!(val(&pool.trading_volume(4, &id("X"))), 1);
    assert_eq!(val(&pool.trading_volume(3, &id("Y"))), 0);
    assert_eq!(val(&pool.lp_fees(3, &id("Y"))), 2);
    assert_eq!(val(&pool.lp_fees(3, &id("X"))), 0);
}

#[test]
fn swaps_record_volume_and_fees() {
    let mut pool = pool();
    pool.swap(&id("user"), false, &id("WDAI-9eeb54"), &big(10 * E18), &id("USDC-c76f1f"), &big(1), 42, 1_700_000_000).unwrap();
    assert_eq!(val(&pool.trading_volume(42, &id("WDAI-9eeb54"))), 10 * E18);
    assert_eq!(val(&pool.trading_volume(42, &id("USDC-c76f1f"))), 9_996_611);
    assert_eq!(val(&pool.lp_fees(42, &id("USDC-c76f1f"))), 2010);
    assert_eq!(val(&pool.lp_fees(42, &id("WDAI-9eeb54"))), 0);
    assert_eq!(val(&pool.lp_fees(41, &id("USDC-c76f1f"))), 0);
}

#[test]
fn analytics_of_last_epochs() {
    let mut pool = pool();
    pool.swap(&id("user"), false, &id("WDAI-9eeb54"), &big(10 * E18), &id("USDC-c76f1f"), &big(1), 8, 1_700_000_000).unwrap();
    let a = pool.get_analytics_for_last_epochs(3, 10);
    assert_eq!(a.len(), 3);
    assert_eq!(a[0].epoch, 7);
    assert_eq!(a[1].epoch, 8);
    assert_eq!(a[2].epoch, 9);
    assert_eq!(val(&a[1].volume[0]), 10 * E18);
    assert_eq!(val(&a[1].volume[1]), 9_996_611);
    assert_eq!(val(&a[1].lp_fees[1]), 2010);
    assert_eq!(val(&a[0].volume[0]), 0);
    assert_eq!(pool.get_analytics_for_last_epochs(0, 10).len(), 0);
}

#[test]
fn status_of_the_pool() {
    let mut pool = pool();
    pool.swap(&id("user"), false, &id("WDAI-9eeb54"), &big(10 * E18), &id("USDC-c76f1f"), &big(1), 20, 1_700_000_000).unwrap();
    pool.swap(&id("user"), false, &id("WDAI-9eeb54"), &big(10 * E18), &id("USDC-c76f1f"), &big(1), 14, 1_700_000_000).unwrap();
    pool.swap(&id("user"), false, &id("WDAI-9eeb54"), &big(10 * E18), &id("USDC-c76f1f"), &big(1), 13, 1_700_000_000).unwrap();
    let s = pool.get_status(21, &id("owner"));
    assert!(!s.paused);
    assert_eq!(s.amp_factor, 256);
    assert_eq!(s.nb_tokens, 2);
    assert_eq!(s.tokens, vec![id("WDAI-9eeb54"), id("USDC-c76f1f")]);
    assert_eq!(val(&s.reserves[0]), 1030 * E18);
    assert_eq!(s.owner, id("owner"));
    assert_eq!(s.swap_fee, 300);
    assert_eq!(s.platform_fees_receiver, Some(id("platform")));
    assert_eq!(s.lp_token_identifier, Vec::<u8>::new());
    assert_eq!(val(&s.lp_token_supply), 2000 * E18);
    assert_eq!(val(&s.volume_prev_epoch[0]), 10 * E18);
    assert_eq!(val(&s.fees_prev_epoch[0]), 0);
    let f20 = val(&pool.lp_fees(20, &id("USDC-c76f1f")));
    let f14 = val(&pool.lp_fees(14, &id("USDC-c76f1f")));
    assert_eq!(val(&s.fees_prev_epoch[1]), f20);
    // epochs 14 to 20 count, epoch 13 does not
    assert_eq!(val(&s.fees_last_7_epochs[1]), f20 + f14);
    assert!(pool.is_paused() == false);
}
