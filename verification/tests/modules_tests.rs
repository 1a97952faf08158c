use jex_sc_stablepool::{
    AccessControlModule, BigUint, EventsModule, JexScStablepoolContract, PriceSourceMock,
    StablePool, StablePoolError, UnderlyingPriceSourceMock,
};

fn big(v: u128) -> BigUint {
    BigUint::from_bytes_be(v.to_be_bytes().to_vec())
}

fn val(b: &BigUint) -> u128 {
    let mut v: u128 = 0;
    for x in b.to_bytes_be() {
        v = v.checked_mul(256).unwrap() + x as u128;
    }
    v
}

fn id(s: &str) -> Vec<u8> {
    s.as_bytes().to_vec()
}

fn pool() -> StablePool {
    StablePool::init(10, vec![(id("AAA-111111"), big(1)), (id("BBB-222222"), big(1))]).unwrap()
}

#[test]
fn access_control_filters_contracts_only_when_enabled() {
    let mut pool = pool();
    assert!(!pool.is_ac_enabled());
    assert!(pool.require_caller_is_authorized(&id("sc1"), true).is_ok());
    pool.do_enable_access_control();
    assert!(pool.is_ac_enabled());
    assert_eq!(
        pool.require_caller_is_authorized(&id("sc1"), true).err(),
        Some(StablePoolError::Unauthorized)
    );
    assert!(pool.require_caller_is_authorized(&id("user"), false).is_ok());
    pool.do_allow_sc(&id("sc1"), true);
    assert!(pool.is_sc_allowed(&id("sc1")));
    assert!(pool.require_caller_is_authorized(&id("sc1"), true).is_ok());
    pool.do_allow_sc(&id("sc1"), true);
    pool.do_allow_sc(&id("sc1"), false);
    assert!(!pool.is_sc_allowed(&id("sc1")));
    assert!(pool.require_caller_is_authorized(&id("sc1"), true).is_err());
    pool.do_disable_access_control();
    assert!(pool.require_caller_is_authorized(&id("sc1"), true).is_ok());
}

#[test]
fn swap_event_carries_the_swap() {
    let pool = pool();
    let e = pool.emit_swap_event(
        &id("caller"),
        1234,
        id("AAA-111111"),
        big(10),
        id("BBB-222222"),
        big(9),
        big(2),
        big(1),
    );
    assert_eq!(e.caller, id("caller"));
    assert_eq!(e.timestamp, 1234);
    assert_eq!(e.token_in, id("AAA-111111"));
    assert_eq!(val(&e.amount_in), 10);
    assert_eq!(e.token_out, id("BBB-222222"));
    assert_eq!(val(&e.net_amount_out), 9);
    assert_eq!(val(&e.lp_fee_amount), 2);
    assert_eq!(val(&e.platform_fee_amount), 1);
}

#[test]
fn price_source_mock_returns_its_rate() {
    let mut source = PriceSourceMock::init();
    assert_eq!(val(&source.get_exchange_rate()), 0);
    source.set_exchange_rate(&big(1_050_000_000_000_000_000));
    assert_eq!(val(&source.get_exchange_rate()), 1_050_000_000_000_000_000);
}

#[test]
fn token_index_of_pool_tokens() {
    let pool = pool();
    assert_eq!(pool.get_token_index(&id("AAA-111111")), Ok(0));
    assert_eq!(pool.get_token_index(&id("BBB-222222")), Ok(1));
    assert_eq!(pool.get_token_index(&id("CCC-333333")), Err(StablePoolError::InvalidToken));
}
