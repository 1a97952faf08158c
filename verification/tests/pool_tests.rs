use jex_sc_stablepool::{
    AccessControlModule, AmmModule, BigUint, CallbackAction, EsdtLocalRole, EsdtTokenPayment, FeesModule, JexScStablepoolContract,
    LiquidityModule, MathsModule, PausableModule, StablePool, StablePoolError,
};

fn big(v: u128) -> BigUint {
    BigUint::from_bytes_be(v.to_be_bytes().to_vec())
}

fn val(b: &BigUint) -> u128 {
    let mut v: u128 = 0;
    for x in b.to_bytes_be() {
        v = v.checked_mul(256).unwrap() + x as u128;
    }
    v
}

const E18: u128 = 1_000_000_000_000_000_000;
const E6: u128 = 1_000_000;
const DAI: &str = "WDAI-9eeb54";
const USDC: &str = "USDC-c76f1f";
const LP: &str = "STABLE-abcdef";

fn id(s: &str) -> Vec<u8> {
    s.as_bytes().to_vec()
}

fn pay(token: &str, amount: u128) -> EsdtTokenPayment {
    EsdtTokenPayment { token_identifier: id(token), token_nonce: 0, amount: big(amount) }
}

fn two_token_pool() -> StablePool {
    StablePool::init(256, vec![(id(DAI), big(1)), (id(USDC), big(1_000_000_000_000))]).unwrap()
}

/// A resumed pool with 1000 DAI and 1000 USDC, a 0.03% swap fee, an LP token
/// and a receiver of platform fees.
fn funded_pool() -> StablePool {
    let mut pool = two_token_pool();
    pool.resume(&id("owner"), &id("owner")).unwrap();
    pool.set_swap_fee(&id("owner"), &id("owner"), 300).unwrap();
    pool.configure_platform_fees_receiver(&id("owner"), &id("owner"), &id("platform")).unwrap();
    pool.lp_token_issue_callback(true, &Some(id(LP)), &big(1000)).unwrap();
    let shares = pool
        .add_liquidity(&vec![pay(DAI, 1000 * E18), pay(USDC, 1000 * E6)], &big(1))
        .unwrap();
    assert_eq!(val(&shares), 2000 * E18);
    pool
}

#[test]
fn init_starts_paused() {
    let pool = two_token_pool();
    assert!(pool.is_paused());
    assert_eq!(pool.nb_tokens(), 2);
    assert_eq!(pool.amp_factor(), 256);
    assert_eq!(pool.tokens(1), id(USDC));
    assert_eq!(pool.tokens(2), Vec::<u8>::new());
    assert_eq!(val(&pool.multipliers(1)), 1_000_000_000_000);
    assert_eq!(val(&pool.reserves(0)), 0);
    assert_eq!(val(&pool.lp_token_supply()), 0);
    assert_eq!(pool.lp_token(), Vec::<u8>::new());
    assert_eq!(pool.swap_fee(), 0);
    assert_eq!(pool.liquidity_fee(), 0);
    assert_eq!(pool.platform_fees_receiver(), None);
}

#[test]
fn init_refuses_a_single_token() {
    let r = StablePool::init(256, vec![(id(DAI), big(1))]);
    assert_eq!(r.err(), Some(StablePoolError::InvalidNumberOfTokens));
}

#[test]
fn init_refuses_zero_amplification() {
    let r = StablePool::init(0, vec![(id(DAI), big(1)), (id(USDC), big(1))]);
    assert_eq!(r.err(), Some(StablePoolError::InvalidAmpFactor));
}

#[test]
fn init_refuses_a_token_listed_twice() {
    let r = StablePool::init(
        10,
        vec![(id(DAI), big(1)), (id(USDC), big(1)), (id(DAI), big(1))],
    );
    assert_eq!(r.err(), Some(StablePoolError::TokensMustBeDifferent));
}

#[test]
fn first_deposit_mints_d() {
    let pool = funded_pool();
    assert_eq!(val(&pool.lp_token_supply()), 2000 * E18);
    assert_eq!(val(&pool.reserves(0)), 1000 * E18);
    assert_eq!(val(&pool.reserves(1)), 1000 * E6);
    assert_eq!(val(&pool.get_virtual_price().unwrap()), E18);
}

#[test]
fn first_deposit_in_one_token_is_refused() {
    let mut pool = two_token_pool();
    pool.resume(&id("owner"), &id("owner")).unwrap();
    let r = pool.add_liquidity(&vec![pay(DAI, 1000 * E18)], &big(1));
    assert_eq!(r.err(), Some(StablePoolError::DivisionByZero));
    assert_eq!(val(&pool.reserves(0)), 0);
    assert_eq!(val(&pool.lp_token_supply()), 0);
}

#[test]
fn paused_pool_refuses_swaps_and_deposits() {
    let mut pool = funded_pool();
    pool.pause(&id("owner"), &id("owner")).unwrap();
    let r = pool.swap(&id("user"), false, &id(DAI), &big(10 * E18), &id(USDC), &big(1), 100, 1_700_000_000);
    assert_eq!(r.err(), Some(StablePoolError::Paused));
    let r = pool.add_liquidity(&vec![pay(DAI, E18)], &big(1));
    assert_eq!(r.err(), Some(StablePoolError::Paused));
    let r = pool.estimate_amount_out(&id(DAI), &big(E18), &id(USDC));
    assert_eq!(r.err(), Some(StablePoolError::Paused));
    let r = pool.estimate_add_liquidity(&vec![big(E18), big(0)]);
    assert_eq!(r.err(), Some(StablePoolError::Paused));
}

#[test]
fn withdrawals_work_while_paused() {
    let mut pool = funded_pool();
    pool.pause(&id("owner"), &id("owner")).unwrap();
    let out = pool.remove_liquidity(&id(LP), &big(200 * E18), &vec![big(0), big(0)]).unwrap();
    assert_eq!(val(&out[0].amount), 100 * E18);
    assert_eq!(val(&out[1].amount), 100 * E6);
    let one = pool
        .remove_liquidity_one_token(&id(LP), &big(10 * E18), &id(USDC), &big(1))
        .unwrap();
    assert_eq!(one.token_identifier, id(USDC));
    assert!(val(&one.amount) > 0);
}

#[test]
fn resume_reopens_swaps() {
    let mut pool = funded_pool();
    pool.pause(&id("owner"), &id("owner")).unwrap();
    assert!(pool.is_paused());
    pool.resume(&id("owner"), &id("owner")).unwrap();
    assert!(!pool.is_paused());
    assert!(pool.swap(&id("user"), false, &id(DAI), &big(E18), &id(USDC), &big(1), 100, 1_700_000_000).is_ok());
}

#[test]
fn swap_dai_for_usdc() {
    let mut pool = funded_pool();
    let o = pool.swap(&id("user"), false, &id(DAI), &big(10 * E18), &id(USDC), &big(9_000_000), 100, 1_700_000_000).unwrap();
    assert_eq!(o.payment_out.token_identifier, id(USDC));
    assert_eq!(o.payment_out.token_nonce, 0);
    assert_eq!(val(&o.payment_out.amount), 9_996_611);
    assert_eq!(val(&o.lp_fee), 2010);
    assert_eq!(val(&o.platform_fee), 989);
    assert_eq!(o.platform_fees_receiver, Some(id("platform")));
    assert_eq!(val(&pool.reserves(0)), 1010 * E18);
    assert_eq!(val(&pool.reserves(1)), 1000 * E6 - 9_996_611 - 989);
    assert_eq!(val(&pool.lp_token_supply()), 2000 * E18);
}

#[test]
fn swap_usdc_for_dai() {
    let mut pool = funded_pool();
    let o = pool.swap(&id("user"), false, &id(USDC), &big(100 * E6), &id(DAI), &big(1), 100, 1_700_000_000).unwrap();
    assert_eq!(val(&o.payment_out.amount), 99_930_726_936_680_746_102);
    assert_eq!(val(&o.lp_fee), 20_092_103_745_396_449);
    assert_eq!(val(&o.platform_fee), 9_896_110_799_971_385);
}

#[test]
fn estimate_amount_out_matches_swap() {
    let mut pool = funded_pool();
    let estimate = pool.estimate_amount_out(&id(DAI), &big(10 * E18), &id(USDC)).unwrap();
    let o = pool.swap(&id("user"), false, &id(DAI), &big(10 * E18), &id(USDC), &big(1), 7, 1_700_000_000).unwrap();
    assert_eq!(val(&estimate), val(&o.payment_out.amount));
}

#[test]
fn swap_needs_a_positive_minimum() {
    let mut pool = funded_pool();
    let r = pool.swap(&id("user"), false, &id(DAI), &big(E18), &id(USDC), &big(0), 1, 1_700_000_000);
    assert_eq!(r.err(), Some(StablePoolError::InvalidMinAmountToReceive));
    assert!(pool.swap(&id("user"), false, &id(DAI), &big(E18), &id(USDC), &big(1), 1, 1_700_000_000).is_ok());
}

#[test]
fn swap_above_slippage_is_refused_and_changes_nothing() {
    let mut pool = funded_pool();
    let r = pool.swap(&id("user"), false, &id(DAI), &big(10 * E18), &id(USDC), &big(10 * E6), 1, 1_700_000_000);
    assert_eq!(r.err(), Some(StablePoolError::MaxSlippageExceeded));
    assert_eq!(val(&pool.reserves(0)), 1000 * E18);
    assert_eq!(val(&pool.reserves(1)), 1000 * E6);
}

#[test]
fn swap_of_unknown_or_same_token_is_refused() {
    let mut pool = funded_pool();
    let r = pool.swap(&id("user"), false, &id("OTHER-123456"), &big(E18), &id(USDC), &big(1), 1, 1_700_000_000);
    assert_eq!(r.err(), Some(StablePoolError::InvalidToken));
    let r = pool.swap(&id("user"), false, &id(DAI), &big(E18), &id(DAI), &big(1), 1, 1_700_000_000);
    assert_eq!(r.err(), Some(StablePoolError::SameToken));
}

#[test]
fn swap_with_fee_needs_a_fee_receiver() {
    let mut pool = two_token_pool();
    pool.resume(&id("owner"), &id("owner")).unwrap();
    pool.set_swap_fee(&id("owner"), &id("owner"), 10_000).unwrap();
    pool.add_liquidity(&vec![pay(DAI, 1000 * E18), pay(USDC, 1000 * E6)], &big(1)).unwrap();
    let r = pool.swap(&id("user"), false, &id(DAI), &big(10 * E18), &id(USDC), &big(1), 1, 1_700_000_000);
    assert_eq!(r.err(), Some(StablePoolError::PlatformFeesReceiverNotSet));
}

#[test]
fn swap_without_fee_needs_no_receiver() {
    let mut pool = two_token_pool();
    pool.resume(&id("owner"), &id("owner")).unwrap();
    pool.add_liquidity(&vec![pay(DAI, 1000 * E18), pay(USDC, 1000 * E6)], &big(1)).unwrap();
    let o = pool.swap(&id("user"), false, &id(DAI), &big(10 * E18), &id(USDC), &big(1), 1, 1_700_000_000).unwrap();
    assert_eq!(val(&o.platform_fee), 0);
    assert_eq!(o.platform_fees_receiver, None);
}

#[test]
fn swap_fee_is_split_one_third_to_the_platform() {
    let mut pool = two_token_pool();
    pool.set_swap_fee(&id("owner"), &id("owner"), 10_000).unwrap();
    let (lp, platform) = pool.calculate_swap_fee(&big(1_000_000));
    assert_eq!(val(&lp), 6_700);
    assert_eq!(val(&platform), 3_300);
}

#[test]
fn liquidity_fee_follows_swap_fee() {
    let mut pool = two_token_pool();
    pool.set_swap_fee(&id("owner"), &id("owner"), 300).unwrap();
    assert_eq!(pool.swap_fee(), 300);
    assert_eq!(pool.liquidity_fee(), 150);
    assert_eq!(val(&pool.calculate_liquidity_fee(&big(1_000_000))), 150);
    let mut three = StablePool::init(
        100,
        vec![(id(DAI), big(1)), (id(USDC), big(1)), (id("USDT-f8c08c"), big(1))],
    )
    .unwrap();
    three.set_swap_fee(&id("owner"), &id("owner"), 300).unwrap();
    assert_eq!(three.liquidity_fee(), 112);
}

#[test]
fn imbalanced_deposit_pays_the_imbalance_fee() {
    let mut pool = funded_pool();
    let estimate = pool.estimate_add_liquidity(&vec![big(100 * E18), big(0)]).unwrap();
    assert_eq!(val(&estimate), 99_975_714_594_944_446_175);
    let shares = pool.add_liquidity(&vec![pay(DAI, 100 * E18)], &big(1)).unwrap();
    assert_eq!(val(&shares), 99_975_714_594_944_446_175);
    assert_eq!(val(&pool.lp_token_supply()), 2000 * E18 + 99_975_714_594_944_446_175);
    assert_eq!(val(&pool.reserves(0)), 1100 * E18);
}

#[test]
fn deposit_sums_payments_per_token() {
    let mut pool = funded_pool();
    let shares = pool
        .add_liquidity(&vec![pay(DAI, 5 * E18), pay(USDC, 10 * E6), pay(DAI, 5 * E18)], &big(1))
        .unwrap();
    assert_eq!(val(&pool.reserves(0)), 1010 * E18);
    assert_eq!(val(&pool.reserves(1)), 1010 * E6);
    assert_eq!(val(&shares), 20 * E18);
}

#[test]
fn deposit_refusals() {
    let mut pool = funded_pool();
    let r = pool.add_liquidity(&vec![], &big(1));
    assert_eq!(r.err(), Some(StablePoolError::NoPayment));
    let r = pool.add_liquidity(&vec![pay(DAI, E18), pay("OTHER-123456", E18)], &big(1));
    assert_eq!(r.err(), Some(StablePoolError::InvalidPaymentToken));
    let r = pool.add_liquidity(&vec![pay(DAI, E18)], &big(2000 * E18));
    assert_eq!(r.err(), Some(StablePoolError::MaxSlippageExceeded));
    let r = pool.add_liquidity(&vec![pay(DAI, 0)], &big(0));
    assert_eq!(r.err(), Some(StablePoolError::LiquidityDidNotIncrease));
    let r = pool.estimate_add_liquidity(&vec![big(E18)]);
    assert_eq!(r.err(), Some(StablePoolError::IndexOutOfRange));
    assert_eq!(val(&pool.reserves(0)), 1000 * E18);
    assert_eq!(val(&pool.lp_token_supply()), 2000 * E18);
}

#[test]
fn withdrawal_is_proportional() {
    let mut pool = funded_pool();
    let estimate = pool.estimate_remove_liquidity(&big(200 * E18)).unwrap();
    assert_eq!(val(&estimate[0]), 100 * E18);
    assert_eq!(val(&estimate[1]), 100 * E6);
    let out = pool
        .remove_liquidity(&id(LP), &big(200 * E18), &vec![big(100 * E18), big(100 * E6)])
        .unwrap();
    assert_eq!(out.len(), 2);
    assert_eq!(out[0].token_identifier, id(DAI));
    assert_eq!(out[1].token_identifier, id(USDC));
    assert_eq!(val(&out[0].amount), 100 * E18);
    assert_eq!(val(&out[1].amount), 100 * E6);
    assert_eq!(val(&pool.reserves(0)), 900 * E18);
    assert_eq!(val(&pool.reserves(1)), 900 * E6);
    assert_eq!(val(&pool.lp_token_supply()), 1800 * E18);
}

#[test]
fn withdrawal_refusals_change_nothing() {
    let mut pool = funded_pool();
    let r = pool.remove_liquidity(&id(DAI), &big(E18), &vec![big(0), big(0)]);
    assert_eq!(r.err(), Some(StablePoolError::InvalidPaymentToken));
    let r = pool.remove_liquidity(&id(LP), &big(200 * E18), &vec![big(0), big(100 * E6 + 1)]);
    assert_eq!(r.err(), Some(StablePoolError::MaxSlippageExceeded));
    let r = pool.remove_liquidity(&id(LP), &big(200 * E18), &vec![big(0)]);
    assert_eq!(r.err(), Some(StablePoolError::IndexOutOfRange));
    let r = pool.remove_liquidity(&id(LP), &big(2001 * E18), &vec![big(0), big(0)]);
    assert_eq!(r.err(), Some(StablePoolError::NegativeSubtraction));
    assert_eq!(val(&pool.reserves(0)), 1000 * E18);
    assert_eq!(val(&pool.reserves(1)), 1000 * E6);
    assert_eq!(val(&pool.lp_token_supply()), 2000 * E18);
}

#[test]
fn estimate_remove_liquidity_of_empty_pool_divides_by_zero() {
    let pool = two_token_pool();
    let r = pool.estimate_remove_liquidity(&big(1));
    assert_eq!(r.err(), Some(StablePoolError::DivisionByZero));
}

#[test]
fn single_token_withdrawal() {
    let mut pool = funded_pool();
    let (dy, fee) = pool.calculate_withdraw_one_token(&big(10 * E18), 1).unwrap();
    assert_eq!(val(&dy), 9_998_402);
    assert_eq!(val(&fee), 1_500);
    let estimate = pool.estimate_remove_liquidity_one_token(&big(10 * E18), &id(USDC)).unwrap();
    assert_eq!(val(&estimate), 9_998_402);
    let out = pool
        .remove_liquidity_one_token(&id(LP), &big(10 * E18), &id(USDC), &big(9_998_402))
        .unwrap();
    assert_eq!(out.token_identifier, id(USDC));
    assert_eq!(val(&out.amount), 9_998_402);
    assert_eq!(val(&pool.reserves(1)), 1000 * E6 - 9_998_402);
    assert_eq!(val(&pool.reserves(0)), 1000 * E18);
    assert_eq!(val(&pool.lp_token_supply()), 1990 * E18);
}

#[test]
fn single_token_withdrawal_refusals() {
    let mut pool = funded_pool();
    let r = pool.remove_liquidity_one_token(&id(LP), &big(10 * E18), &id(USDC), &big(9_998_403));
    assert_eq!(r.err(), Some(StablePoolError::MaxSlippageExceeded));
    let r = pool.remove_liquidity_one_token(&id(LP), &big(10 * E18), &id("OTHER-123456"), &big(1));
    assert_eq!(r.err(), Some(StablePoolError::InvalidToken));
    let r = pool.remove_liquidity_one_token(&id(USDC), &big(10 * E18), &id(USDC), &big(1));
    assert_eq!(r.err(), Some(StablePoolError::InvalidPaymentToken));
    let r = pool.calculate_withdraw_one_token(&big(10 * E18), 2);
    assert_eq!(r.err(), Some(StablePoolError::IndexOutOfRange));
    assert_eq!(val(&pool.reserves(1)), 1000 * E6);
    assert_eq!(val(&pool.lp_token_supply()), 2000 * E18);
}

#[test]
fn invariant_of_three_tokens() {
    let pool = StablePool::init(
        100,
        vec![(id(DAI), big(1)), (id(USDC), big(1_000_000_000_000)), (id("USDT-f8c08c"), big(1_000_000_000_000))],
    )
    .unwrap();
    let xp = vec![big(1000 * E18), big(2000 * E18), big(500 * E18)];
    assert_eq!(val(&pool.amm_get_d(&xp).unwrap()), 3_493_260_254_182_453_050_042);
    let balanced = vec![big(7 * E18), big(7 * E18), big(7 * E18)];
    assert_eq!(val(&pool.amm_get_d(&balanced).unwrap()), 21 * E18);
    let with_zero = vec![big(7 * E18), big(0), big(7 * E18)];
    assert_eq!(pool.amm_get_d(&with_zero).err(), Some(StablePoolError::DivisionByZero));
}

#[test]
fn solving_for_one_reserve_keeps_d() {
    let pool = two_token_pool();
    let xp = vec![big(1000 * E18), big(1000 * E18)];
    let y = pool.amm_get_y(0, 1, big(1000 * E18), vec![big(1000 * E18), big(1000 * E18)]).unwrap();
    assert!(val(&y) + 2 >= 1000 * E18 && val(&y) <= 1000 * E18 + 2);
    let yd = pool.amm_get_yd(1, &xp, &big(2000 * E18)).unwrap();
    assert!(val(&yd) + 2 >= 1000 * E18 && val(&yd) <= 1000 * E18 + 2);
}

#[test]
fn get_y_is_get_yd_on_the_updated_balances() {
    let pool = StablePool::init(
        100,
        vec![(id(DAI), big(1)), (id(USDC), big(1_000_000_000_000)), (id("USDT-f8c08c"), big(1_000_000_000_000))],
    )
    .unwrap();
    let xp = vec![big(1000 * E18), big(2000 * E18), big(500 * E18)];
    let d = pool.amm_get_d(&xp).unwrap();
    let y = pool.amm_get_y(0, 2, big(1100 * E18), vec![big(1000 * E18), big(2000 * E18), big(500 * E18)]).unwrap();
    let updated = vec![big(1100 * E18), big(2000 * E18), big(500 * E18)];
    let yd = pool.amm_get_yd(2, &updated, &d).unwrap();
    assert_eq!(val(&y), val(&yd));
    assert!(val(&y) < 500 * E18);
}

#[test]
fn get_yd_ignores_the_balance_it_solves_for() {
    let pool = StablePool::init(
        100,
        vec![(id(DAI), big(1)), (id(USDC), big(1_000_000_000_000)), (id("USDT-f8c08c"), big(1_000_000_000_000))],
    )
    .unwrap();
    let d = big(3_493_260_254_182_453_050_042);
    let a = pool.amm_get_yd(1, &vec![big(1000 * E18), big(2000 * E18), big(500 * E18)], &d).unwrap();
    let b = pool.amm_get_yd(1, &vec![big(1000 * E18), big(1), big(500 * E18)], &d).unwrap();
    let c = pool.amm_get_yd(1, &vec![big(1000 * E18), big(0), big(500 * E18)], &d).unwrap();
    assert_eq!(val(&a), val(&b));
    assert_eq!(val(&a), val(&c));
    assert!(val(&a) + 1_000_000 >= 2000 * E18 && val(&a) <= 2000 * E18 + 1_000_000);
}

#[test]
fn swap_refuses_a_smart_contract_that_is_not_allowed() {
    let mut pool = funded_pool();
    pool.do_enable_access_control();
    let r = pool.swap(&id("contract"), true, &id(DAI), &big(10 * E18), &id(USDC), &big(1), 1, 1_700_000_000);
    assert_eq!(r.err(), Some(StablePoolError::Unauthorized));
    assert_eq!(val(&pool.reserves(0)), 1000 * E18);
    assert_eq!(val(&pool.reserves(1)), 1000 * E6);
    // the check comes first: even a swap asking for nothing is refused for it
    let r = pool.swap(&id("contract"), true, &id(DAI), &big(E18), &id(USDC), &big(0), 1, 1_700_000_000);
    assert_eq!(r.err(), Some(StablePoolError::Unauthorized));
    // a user account is not filtered
    assert!(pool.swap(&id("contract"), false, &id(DAI), &big(E18), &id(USDC), &big(1), 1, 1_700_000_000).is_ok());
}

#[test]
fn swap_lets_an_allowed_smart_contract_in() {
    let mut pool = funded_pool();
    pool.do_enable_access_control();
    pool.do_allow_sc(&id("contract"), true);
    assert!(pool.swap(&id("contract"), true, &id(DAI), &big(E18), &id(USDC), &big(1), 1, 1_700_000_000).is_ok());
    pool.do_allow_sc(&id("contract"), false);
    let r = pool.swap(&id("contract"), true, &id(DAI), &big(E18), &id(USDC), &big(1), 1, 1_700_000_000);
    assert_eq!(r.err(), Some(StablePoolError::Unauthorized));
    pool.do_disable_access_control();
    assert!(pool.swap(&id("contract"), true, &id(DAI), &big(E18), &id(USDC), &big(1), 1, 1_700_000_000).is_ok());
}

#[test]
fn three_token_swap() {
    let mut pool = StablePool::init(
        100,
        vec![(id(DAI), big(1)), (id(USDC), big(1_000_000_000_000)), (id("USDT-f8c08c"), big(1_000_000_000_000))],
    )
    .unwrap();
    pool.resume(&id("owner"), &id("owner")).unwrap();
    pool.set_swap_fee(&id("owner"), &id("owner"), 10_000).unwrap();
    pool.configure_platform_fees_receiver(&id("owner"), &id("owner"), &id("platform")).unwrap();
    pool.add_liquidity(
        &vec![pay(DAI, 1000 * E18), pay(USDC, 2000 * E6), pay("USDT-f8c08c", 500 * E6)],
        &big(1),
    )
    .unwrap();
    let (out, lp, platform) = pool.do_swap(2, 0, &big(50 * E6), true).unwrap();
    assert_eq!(val(&out), 50_269_475_698_226_558_462);
    assert_eq!(val(&lp), 340_207_562_806_179_739);
    assert_eq!(val(&platform), 167_564_918_994_088_528);
    assert_eq!(val(&pool.reserves(2)), 500 * E6);
}

#[test]
fn abs_diff_either_way() {
    let pool = two_token_pool();
    assert_eq!(val(&pool.abs_diff(&big(7), &big(10))), 3);
    assert_eq!(val(&pool.abs_diff(&big(10), &big(7))), 3);
    assert_eq!(val(&pool.abs_diff(&big(5), &big(5))), 0);
}

#[test]
fn lp_supply_bookkeeping() {
    let mut pool = two_token_pool();
    pool.lp_mint(&big(100));
    assert_eq!(val(&pool.lp_token_supply()), 100);
    assert!(pool.lp_burn(&big(40)).is_ok());
    assert_eq!(val(&pool.lp_token_supply()), 60);
    assert_eq!(pool.lp_burn(&big(61)).err(), Some(StablePoolError::NegativeSubtraction));
    assert_eq!(val(&pool.lp_token_supply()), 60);
}

#[test]
fn xp_brings_reserves_to_one_precision() {
    let pool = funded_pool();
    let xp = pool.get_xp();
    assert_eq!(val(&xp[0]), 1000 * E18);
    assert_eq!(val(&xp[1]), 1000 * E18);
}

#[test]
fn lp_token_is_issued_once() {
    let mut pool = two_token_pool();
    let issuance = pool.issue_lp_token(&id("owner"), &id("owner"), &big(50_000_000_000_000_000), &id("StableLP"), &id("STABLE")).unwrap();
    assert_eq!(val(&issuance.egld_value), 50_000_000_000_000_000);
    assert_eq!(issuance.display_name, id("StableLP"));
    assert_eq!(issuance.ticker, id("STABLE"));
    assert_eq!(val(&issuance.initial_supply), 1000);
    assert_eq!(issuance.num_decimals, 18);
    assert!(issuance.can_mint && issuance.can_burn && issuance.can_add_special_roles);
    assert_eq!(pool.enable_mint_burn(&id("owner"), &id("owner"), &id("pool")).err(), Some(StablePoolError::LpTokenNotIssued));
    match pool.lp_token_issue_callback(true, &Some(id(LP)), &big(1000)).unwrap() {
        CallbackAction::SendEsdt { token, amount } => {
            assert_eq!(token, id(LP));
            assert_eq!(val(&amount), 1000);
        }
        other => panic!("unexpected {:?}", other),
    }
    assert_eq!(pool.lp_token(), id(LP));
    assert_eq!(
        pool.issue_lp_token(&id("owner"), &id("owner"), &big(1), &id("StableLP"), &id("STABLE")).err(),
        Some(StablePoolError::LpTokenAlreadyIssued)
    );
    assert_eq!(pool.enable_mint_burn(&id("owner"), &id("owner"), &id("pool")).unwrap().token, id(LP));
}

#[test]
fn failed_issuance_refunds_egld() {
    let mut pool = two_token_pool();
    match pool.lp_token_issue_callback(false, &None, &big(50)).unwrap() {
        CallbackAction::RefundEgld { amount } => assert_eq!(val(&amount), 50),
        other => panic!("unexpected {:?}", other),
    }
    assert!(matches!(pool.lp_token_issue_callback(false, &None, &big(0)).unwrap(), CallbackAction::Nothing));
    assert!(matches!(pool.lp_token_issue_callback(false, &Some(id(LP)), &big(5)).unwrap(), CallbackAction::Nothing));
    assert_eq!(pool.lp_token_issue_callback(true, &None, &big(5)).err(), Some(StablePoolError::EsdtExpected));
    assert_eq!(pool.lp_token(), Vec::<u8>::new());
}

#[test]
fn mint_burn_needs_a_valid_identifier() {
    let mut pool = two_token_pool();
    pool.lp_token_issue_callback(true, &Some(id("lowercase-abcdef")), &big(1)).unwrap();
    assert_eq!(pool.enable_mint_burn(&id("owner"), &id("owner"), &id("pool")).err(), Some(StablePoolError::LpTokenNotIssued));
    pool.lp_token_issue_callback(true, &Some(id("ABC-12345f")), &big(1)).unwrap();
    assert_eq!(pool.enable_mint_burn(&id("owner"), &id("owner"), &id("pool")).unwrap().token, id("ABC-12345f"));
}

#[test]
fn single_token_withdrawal_cannot_burn_more_than_the_supply() {
    let mut pool = funded_pool();
    let r = pool.remove_liquidity_one_token(&id(LP), &big(2001 * E18), &id(DAI), &big(1));
    assert_eq!(r.err(), Some(StablePoolError::NegativeSubtraction));
    assert_eq!(val(&pool.lp_token_supply()), 2000 * E18);
}

#[test]
fn owner_endpoints_refuse_anyone_else() {
    let mut pool = funded_pool();
    let stranger = id("stranger");
    let owner = id("owner");
    assert_eq!(pool.pause(&stranger, &owner).err(), Some(StablePoolError::NotOwner));
    assert!(!pool.is_paused());
    pool.pause(&owner, &owner).unwrap();
    assert_eq!(pool.resume(&stranger, &owner).err(), Some(StablePoolError::NotOwner));
    assert!(pool.is_paused());
    pool.resume(&owner, &owner).unwrap();
    assert_eq!(pool.set_swap_fee(&stranger, &owner, 5_000).err(), Some(StablePoolError::NotOwner));
    assert_eq!(pool.swap_fee(), 300);
    assert_eq!(
        pool.configure_platform_fees_receiver(&stranger, &owner, &id("other")).err(),
        Some(StablePoolError::NotOwner)
    );
    assert_eq!(
        pool.issue_lp_token(&stranger, &owner, &big(1), &id("StableLP"), &id("STABLE")).err(),
        Some(StablePoolError::NotOwner)
    );
    assert_eq!(pool.enable_mint_burn(&stranger, &owner, &id("pool")).err(), Some(StablePoolError::NotOwner));
}

#[test]
fn mint_burn_roles_go_to_the_pool() {
    let pool = funded_pool();
    let grant = pool.enable_mint_burn(&id("owner"), &id("owner"), &id("pool-address")).unwrap();
    assert_eq!(grant.address, id("pool-address"));
    assert_eq!(grant.token, id(LP));
    assert_eq!(grant.roles, vec![EsdtLocalRole::Mint, EsdtLocalRole::Burn]);
}

#[test]
fn swap_outcome_carries_its_event() {
    let mut pool = funded_pool();
    let o = pool
        .swap(&id("user"), false, &id(DAI), &big(10 * E18), &id(USDC), &big(1), 100, 1_234_567)
        .unwrap();
    assert_eq!(o.event.caller, id("user"));
    assert_eq!(o.event.token_in, id(DAI));
    assert_eq!(val(&o.event.amount_in), 10 * E18);
    assert_eq!(o.event.token_out, id(USDC));
    assert_eq!(val(&o.event.net_amount_out), 9_996_611);
    assert_eq!(val(&o.event.lp_fee_amount), 2010);
    assert_eq!(val(&o.event.platform_fee_amount), 989);
    assert_eq!(o.event.timestamp, 1_234_567);
}
