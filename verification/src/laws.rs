//! Properties of the pool as a whole, stated over the specifications that
//! the operations' contracts use.
use crate::access_control::spec_caller_authorized;
use crate::amm::{
    lemma_accumulate_replace, lemma_accumulate_skipped, lemma_get_y_error, spec_get_d, spec_get_y, spec_get_yd,
};
use crate::contract::{
    payment_amounts, spec_add_liquidity_call, spec_token_index, spec_estimate_add_liquidity,
    spec_estimate_amount_out, spec_estimate_remove_liquidity_one_token,
    check_min_amounts, spec_remove_liquidity_call, spec_remove_liquidity_one_token_call,
    spec_swap_call, EsdtTokenPayment,
};
use crate::fees::{spec_platform_fee, spec_swap_fee, spec_total_swap_fee};
use crate::liquidity::{
    deposit_xs, fee_adjusted_xs, imbalance_xs, spec_add_liquidity, spec_withdraw_one_token,
    lemma_quotient_le, lemma_share_le, spec_deposit, spec_remove_liquidity, spec_remove_liquidity_one_token,
    spec_swap, spec_swapped, spec_withdrawal, spec_withdrawn_one, spec_xp, withdrawn_amounts,
};
use crate::errors::StablePoolError;
use crate::PoolModel;
use vstd::prelude::*;

verus! {

/// While the pool is paused, swaps and deposits are refused, and so are
/// their estimates (a swap asking for nothing is refused for that first).
pub proof fn law_paused_pool_refuses_swaps_and_deposits(
    m: PoolModel,
    caller: Seq<u8>,
    caller_is_smart_contract: bool,
    token_in: Seq<u8>,
    amount_in: nat,
    token_out: Seq<u8>,
    min_amount_out: nat,
    payments: Seq<EsdtTokenPayment>,
    min_shares: nat,
    amounts: Seq<nat>,
)
    requires
        m.paused,
    ensures
        min_amount_out > 0 && spec_caller_authorized(
            m.ac_enabled,
            m.allowed_scs,
            caller,
            caller_is_smart_contract,
        ) ==> spec_swap_call(
            m,
            caller,
            caller_is_smart_contract,
            token_in,
            amount_in,
            token_out,
            min_amount_out,
        ) == Err::<(nat, nat, nat), StablePoolError>(StablePoolError::Paused),
        spec_add_liquidity_call(m, payments, min_shares) == Err::<nat, StablePoolError>(
            StablePoolError::Paused,
        ),
        spec_estimate_amount_out(m, token_in, amount_in, token_out) == Err::<nat, StablePoolError>(
            StablePoolError::Paused,
        ),
        spec_estimate_add_liquidity(m, amounts) == Err::<nat, StablePoolError>(
            StablePoolError::Paused,
        ),
{
}

/// A smart contract that access control does not let in cannot swap.
pub proof fn law_swap_respects_access_control(
    m: PoolModel,
    caller: Seq<u8>,
    caller_is_smart_contract: bool,
    token_in: Seq<u8>,
    amount_in: nat,
    token_out: Seq<u8>,
    min_amount_out: nat,
)
    ensures
        !spec_caller_authorized(m.ac_enabled, m.allowed_scs, caller, caller_is_smart_contract)
            <==> spec_swap_call(
            m,
            caller,
            caller_is_smart_contract,
            token_in,
            amount_in,
            token_out,
            min_amount_out,
        ) == Err::<(nat, nat, nat), StablePoolError>(StablePoolError::Unauthorized),
{
    if let Ok(i) = spec_token_index(m, token_in) {
        if let Ok(j) = spec_token_index(m, token_out) {
            let xp = spec_xp(m);
            if i != j && i < xp.len() && j < xp.len() {
                lemma_get_y_error(i, j, xp[i as int] + amount_in * m.multipliers[i as int], xp, m.amp_factor);
            }
        }
    }
}

/// The new balance of token `j` once token `i` holds `x` is the balance of
/// `j` that keeps the invariant `D` of the old balances, solved on the
/// balances where token `i` holds `x` (both fail alike, or agree).
pub proof fn law_get_y_solves_updated_balances(i: nat, j: nat, x: nat, xp: Seq<nat>, amp: nat)
    requires
        i < xp.len(),
        j < xp.len(),
        i != j,
    ensures
        spec_get_y(i, j, x, xp, amp) == match spec_get_d(xp, amp) {
            Err(e) => Err(e),
            Ok(d) => spec_get_yd(j, xp.update(i as int, x), d, amp),
        },
{
    if let Ok(d) = spec_get_d(xp, amp) {
        lemma_accumulate_replace(xp, i, j, x, d, 0, 0, d);
        assert(xp.update(i as int, x).len() == xp.len());
    }
}

/// The balance of token `i` for a given invariant depends only on the
/// other balances, not on the one token `i` has now.
pub proof fn law_get_yd_ignores_own_balance(i: nat, xp: Seq<nat>, v: nat, d: nat, amp: nat)
    requires
        i < xp.len(),
    ensures
        spec_get_yd(i, xp.update(i as int, v), d, amp) == spec_get_yd(i, xp, d, amp),
{
    lemma_accumulate_skipped(xp, i, v, d, 0, 0, d);
    assert(xp.update(i as int, v).len() == xp.len());
}

/// Pausing does not stop withdrawals: what they pay, and how they change
/// the pool, does not depend on the pause flag.
pub proof fn law_withdrawals_ignore_pause(
    m: PoolModel,
    paused: bool,
    token_in: Seq<u8>,
    shares: nat,
    min_amounts: Seq<nat>,
    token_out: Seq<u8>,
    min_amount_out: nat,
)
    ensures
        spec_remove_liquidity_call(m.with_paused(paused), token_in, shares, min_amounts)
            == spec_remove_liquidity_call(m, token_in, shares, min_amounts),
        spec_remove_liquidity_one_token_call(
            m.with_paused(paused),
            token_in,
            shares,
            token_out,
            min_amount_out,
        ) == spec_remove_liquidity_one_token_call(m, token_in, shares, token_out, min_amount_out),
        forall|amounts: Seq<nat>|
            #[trigger] spec_withdrawal(m.with_paused(paused), shares, amounts) == spec_withdrawal(
                m,
                shares,
                amounts,
            ).with_paused(paused),
{
    let p = m.with_paused(paused);
    assert(spec_xp(p) == spec_xp(m));
    assert(withdrawn_amounts(p, shares) == withdrawn_amounts(m, shares));
}

/// The estimate of a swap is what the swap pays.
pub proof fn law_estimate_amount_out_matches_swap(
    m: PoolModel,
    caller: Seq<u8>,
    caller_is_smart_contract: bool,
    token_in: Seq<u8>,
    amount_in: nat,
    token_out: Seq<u8>,
    min_amount_out: nat,
)
    ensures
        spec_swap_call(
            m,
            caller,
            caller_is_smart_contract,
            token_in,
            amount_in,
            token_out,
            min_amount_out,
        ) matches Ok(r)
            ==> spec_estimate_amount_out(m, token_in, amount_in, token_out) == Ok::<
            nat,
            StablePoolError,
        >(r.0),
{
}

/// The estimate of a deposit is the number of shares that the deposit mints.
pub proof fn law_estimate_add_liquidity_matches_deposit(
    m: PoolModel,
    payments: Seq<EsdtTokenPayment>,
    min_shares: nat,
)
    ensures
        spec_add_liquidity_call(m, payments, min_shares) matches Ok(s)
            ==> spec_estimate_add_liquidity(m, payment_amounts(m, payments)) == Ok::<
            nat,
            StablePoolError,
        >(s),
{
}

/// The estimates of withdrawals are what the withdrawals pay.
pub proof fn law_estimate_withdrawals_match(
    m: PoolModel,
    token_in: Seq<u8>,
    shares: nat,
    min_amounts: Seq<nat>,
    token_out: Seq<u8>,
    min_amount_out: nat,
)
    ensures
        spec_remove_liquidity_call(m, token_in, shares, min_amounts) matches Ok(a)
            ==> spec_remove_liquidity(m, shares, true) == Ok::<Seq<nat>, StablePoolError>(a),
        spec_remove_liquidity_one_token_call(m, token_in, shares, token_out, min_amount_out) matches Ok(
            a,
        ) ==> spec_estimate_remove_liquidity_one_token(m, shares, token_out) == Ok::<
            nat,
            StablePoolError,
        >(a),
{
}

/// No operation pays less than the minimum the caller asked for.
pub proof fn law_slippage_limits_hold(
    m: PoolModel,
    caller: Seq<u8>,
    caller_is_smart_contract: bool,
    token_in: Seq<u8>,
    amount_in: nat,
    token_out: Seq<u8>,
    min_amount_out: nat,
    payments: Seq<EsdtTokenPayment>,
    min_shares: nat,
)
    ensures
        spec_swap_call(
            m,
            caller,
            caller_is_smart_contract,
            token_in,
            amount_in,
            token_out,
            min_amount_out,
        ) matches Ok(r) ==> r.0
            >= min_amount_out,
        spec_add_liquidity_call(m, payments, min_shares) matches Ok(s) ==> s >= min_shares,
        spec_remove_liquidity_one_token_call(m, token_in, amount_in, token_out, min_amount_out) matches Ok(
            a,
        ) ==> a >= min_amount_out,
{
}

/// The swap fee splits into the LP fee and the platform fee, the platform
/// taking 33% of it (rounded down).
pub proof fn law_swap_fee_split(amount: nat, swap_fee: nat)
    ensures
        spec_swap_fee(amount, swap_fee).0 + spec_swap_fee(amount, swap_fee).1 == spec_total_swap_fee(
            amount,
            swap_fee,
        ),
        spec_swap_fee(amount, swap_fee).1 == spec_platform_fee(
            spec_total_swap_fee(amount, swap_fee),
        ),
{
    let t = spec_total_swap_fee(amount, swap_fee);
    assert((t * 33) / 100 <= t) by (nonlinear_arith);
}

/// A swap moves exactly the amount paid in into its reserve, and takes out of
/// the other reserve exactly the amount paid out and the platform fee; the
/// LP fee stays in the pool, the other reserves and the shares are untouched.
pub proof fn law_swap_conserves_reserves(m: PoolModel, i: nat, j: nat, dx: nat)
    requires
        m.wf(),
    ensures
        spec_swap(m, i, j, dx) matches Ok(r) ==> {
            let after = spec_swapped(m, i, j, dx, r.0, r.2);
            &&& i != j && i < m.reserves.len() && j < m.reserves.len()
            &&& after.reserves[i as int] == m.reserves[i as int] + dx
            &&& after.reserves[j as int] + r.0 + r.2 == m.reserves[j as int]
            &&& forall|k: int|
                0 <= k < m.reserves.len() && k != i && k != j ==> after.reserves[k]
                    == m.reserves[k]
            &&& after.lp_token_supply == m.lp_token_supply
        },
{
    if let Ok(r) = spec_swap(m, i, j, dx) {
        let xp = spec_xp(m);
        let x = xp[i as int] + dx * m.multipliers[i as int];
        let y1 = spec_get_y(i, j, x, xp, m.amp_factor)->Ok_0;
        let t = (xp[j as int] - (y1 + 1)) as nat;
        let dy = t / m.multipliers[j as int];
        assert(r.0 + r.1 + r.2 == dy);
        assert(xp[j as int] == m.reserves[j as int] * m.multipliers[j as int]);
        lemma_quotient_le(t, m.reserves[j as int], m.multipliers[j as int]);
    }
}

/// Burning shares pays each token in proportion (`reserve * shares /
/// supply`), never more than its reserve; the reserves drop by exactly what
/// is paid and the supply by exactly the shares burnt.
pub proof fn law_withdrawal_is_proportional(m: PoolModel, shares: nat)
    requires
        m.wf(),
    ensures
        spec_remove_liquidity(m, shares, false) matches Ok(a) ==> {
            let after = spec_withdrawal(m, shares, a);
            &&& a.len() == m.reserves.len()
            &&& forall|k: int|
                #![trigger a[k]]
                0 <= k < a.len() ==> a[k] == (m.reserves[k] * shares) / m.lp_token_supply && a[k]
                    <= m.reserves[k] && after.reserves[k] + a[k] == m.reserves[k]
            &&& after.lp_token_supply + shares == m.lp_token_supply
        },
{
    if let Ok(a) = spec_remove_liquidity(m, shares, false) {
        assert forall|k: int| 0 <= k < a.len() implies #[trigger] a[k] <= m.reserves[k] by {
            lemma_share_le(m.reserves[k], shares, m.lp_token_supply);
        }
    }
}

/// A single-token withdrawal that is carried out burns shares that exist.
pub proof fn law_single_token_withdrawal_burns_existing_shares(m: PoolModel, shares: nat, i: nat)
    ensures
        spec_remove_liquidity_one_token(m, shares, i, false) is Ok ==> shares <= m.lp_token_supply,
{
}

/// Access control only ever refuses smart contracts, only while it is on,
/// and never one that is allowed.
pub proof fn law_access_control(
    enabled: bool,
    allowed: Set<Seq<u8>>,
    caller: Seq<u8>,
    caller_is_smart_contract: bool,
)
    ensures
        spec_caller_authorized(false, allowed, caller, caller_is_smart_contract),
        spec_caller_authorized(enabled, allowed, caller, false),
        allowed.contains(caller) ==> spec_caller_authorized(
            enabled,
            allowed,
            caller,
            caller_is_smart_contract,
        ),
        enabled && caller_is_smart_contract && !allowed.contains(caller) ==> !spec_caller_authorized(
            enabled,
            allowed,
            caller,
            caller_is_smart_contract,
        ),
{
}

/// Resuming undoes pausing.
pub proof fn law_resume_undoes_pause(m: PoolModel)
    requires
        !m.paused,
    ensures
        m.with_paused(true).with_paused(false) == m,
{
}

/// The bookkeeping of every operation keeps a pool well formed: its tokens,
/// their multipliers and number of reserves, and its amplification factor.
pub proof fn law_operations_keep_pool_well_formed(
    m: PoolModel,
    i: nat,
    j: nat,
    dx: nat,
    out: nat,
    platform_fee: nat,
    shares: nat,
    amounts: Seq<nat>,
)
    requires
        m.wf(),
    ensures
        spec_withdrawal(m, shares, amounts).wf(),
        i < m.reserves.len() && j < m.reserves.len() ==> spec_swapped(
            m,
            i,
            j,
            dx,
            out,
            platform_fee,
        ).wf(),
        spec_deposit(m, amounts, shares).wf(),
        i < m.reserves.len() ==> spec_withdrawn_one(m, shares, i, out).wf(),
        m.with_paused(true).wf(),
        m.with_paused(false).wf(),
{
}

/// The precision-adjusted balances of a pool: `reserve_k * multiplier_k`.
pub open spec fn balances(m: PoolModel) -> Seq<nat> {
    Seq::new(m.reserves.len(), |k: int| m.reserves[k] * m.multipliers[k])
}

proof fn lemma_balances(m: PoolModel)
    ensures
        balances(m) == spec_xp(m),
{
    assert(balances(m) =~= spec_xp(m));
}

/// Every amount from position `k` on has a minimum and meets it.
spec fn minimums_met(amounts: Seq<nat>, mins: Seq<nat>, k: int) -> bool {
    forall|q: int| k <= q < amounts.len() ==> #[trigger] meets_minimum(amounts, mins, q)
}

spec fn meets_minimum(amounts: Seq<nat>, mins: Seq<nat>, q: int) -> bool {
    q < mins.len() && amounts[q] >= mins[q]
}

proof fn lemma_min_amounts(amounts: Seq<nat>, mins: Seq<nat>, k: nat)
    ensures
        check_min_amounts(amounts, mins, k) is Ok <==> minimums_met(amounts, mins, k as int),
        mins.len() >= amounts.len() ==> (check_min_amounts(amounts, mins, k) is Err
            ==> check_min_amounts(amounts, mins, k) == Err::<(), StablePoolError>(
            StablePoolError::MaxSlippageExceeded,
        )),
    decreases amounts.len() - k,
{
    if k < amounts.len() {
        lemma_min_amounts(amounts, mins, k + 1);
        if meets_minimum(amounts, mins, k as int) {
            if minimums_met(amounts, mins, k + 1int) {
                assert forall|q: int| k <= q < amounts.len() implies #[trigger] meets_minimum(
                    amounts,
                    mins,
                    q,
                ) by {
                    if q != k {
                        assert(k + 1 <= q);
                    }
                }
            }
        } else {
            assert(!minimums_met(amounts, mins, k as int));
        }
    }
}

/// A withdrawal of every token that is carried out pays each token its
/// share of the reserve, and at least the minimum asked for that token; a
/// withdrawal that would pay some token less than its minimum is refused
/// for slippage.
pub proof fn law_remove_liquidity_meets_every_minimum(
    m: PoolModel,
    token_in: Seq<u8>,
    shares: nat,
    min_amounts: Seq<nat>,
)
    requires
        m.wf(),
    ensures
        spec_remove_liquidity_call(m, token_in, shares, min_amounts) matches Ok(a) ==> {
            &&& a.len() == m.reserves.len()
            &&& min_amounts.len() >= a.len()
            &&& forall|k: int|
                0 <= k < a.len() ==> #[trigger] a[k] >= min_amounts[k] && a[k] == (m.reserves[k]
                    * shares) / m.lp_token_supply
        },
        token_in == m.lp_token && 0 < m.lp_token_supply && shares <= m.lp_token_supply
            && min_amounts.len() >= m.reserves.len() && (exists|k: int|
            0 <= k < m.reserves.len() && #[trigger] min_amounts[k] > (m.reserves[k] * shares)
                / m.lp_token_supply) ==> spec_remove_liquidity_call(
            m,
            token_in,
            shares,
            min_amounts,
        ) == Err::<Seq<nat>, StablePoolError>(StablePoolError::MaxSlippageExceeded),
{
    let a = withdrawn_amounts(m, shares);
    lemma_min_amounts(a, min_amounts, 0);
    if spec_remove_liquidity_call(m, token_in, shares, min_amounts) is Ok {
        assert(spec_remove_liquidity_call(m, token_in, shares, min_amounts) == Ok::<
            Seq<nat>,
            StablePoolError,
        >(a));
        assert forall|k: int| 0 <= k < a.len() implies k < min_amounts.len() && #[trigger] a[k]
            >= min_amounts[k] && a[k] == (m.reserves[k] * shares) / m.lp_token_supply by {
            assert(meets_minimum(a, min_amounts, k));
        }
        assert(a.len() == m.reserves.len());
        assert(meets_minimum(a, min_amounts, a.len() - 1));
    }
    if token_in == m.lp_token && 0 < m.lp_token_supply && shares <= m.lp_token_supply
        && min_amounts.len() >= m.reserves.len() && (exists|k: int|
        0 <= k < m.reserves.len() && #[trigger] min_amounts[k] > (m.reserves[k] * shares)
            / m.lp_token_supply) {
        let k = choose|k: int|
            0 <= k < m.reserves.len() && #[trigger] min_amounts[k] > (m.reserves[k] * shares)
                / m.lp_token_supply;
        assert(!meets_minimum(a, min_amounts, k));
    }
}

/// A swap of `dx` of token `i` for token `j` pays out what the reserve of
/// `j` (and of no other token) drops by when the balance of `i` grows by
/// `dx` at constant `D`, less one unit, converted to units of `j`; of that,
/// `swap_fee` millionths are kept as fee, 33% of it for the platform. It is
/// carried out whenever that drop is not negative, whatever the balances of
/// the tokens outside the trade.
pub proof fn law_swap_pays_the_drop_of_the_output_reserve(m: PoolModel, i: nat, j: nat, dx: nat)
    requires
        m.wf(),
        i != j,
        i < m.reserves.len(),
        j < m.reserves.len(),
    ensures
        spec_get_y(
            i,
            j,
            m.reserves[i as int] * m.multipliers[i as int] + dx * m.multipliers[i as int],
            balances(m),
            m.amp_factor,
        ) matches Ok(y1) ==> {
            let y0 = m.reserves[j as int] * m.multipliers[j as int];
            let dy = ((y0 - (y1 + 1)) as nat) / m.multipliers[j as int];
            let fee = (dy * m.swap_fee) / 1_000_000;
            let platform = (fee * 33) / 100;
            y0 >= y1 + 1 && m.multipliers[j as int] > 0 && m.swap_fee <= 1_000_000 ==> spec_swap(
                m,
                i,
                j,
                dx,
            ) == Ok::<(nat, nat, nat), StablePoolError>(
                ((dy - fee) as nat, (fee - platform) as nat, platform),
            )
        },
        spec_swap(m, i, j, dx) matches Ok(r) ==> spec_get_y(
            i,
            j,
            m.reserves[i as int] * m.multipliers[i as int] + dx * m.multipliers[i as int],
            balances(m),
            m.amp_factor,
        ) matches Ok(y1) && m.reserves[j as int] * m.multipliers[j as int] >= y1 + 1 && r.0 + r.1
            + r.2 == ((m.reserves[j as int] * m.multipliers[j as int] - (y1 + 1)) as nat)
            / m.multipliers[j as int],
{
    lemma_balances(m);
    let xp = spec_xp(m);
    let x = m.reserves[i as int] * m.multipliers[i as int] + dx * m.multipliers[i as int];
    if let Ok(y1) = spec_get_y(i, j, x, xp, m.amp_factor) {
        let y0 = m.reserves[j as int] * m.multipliers[j as int];
        let dy = ((y0 - (y1 + 1)) as nat) / m.multipliers[j as int];
        let fee = (dy * m.swap_fee) / 1_000_000;
        let platform = (fee * 33) / 100;
        assert(platform <= fee) by (nonlinear_arith)
            requires
                platform == (fee * 33) / 100,
        ;
        if m.swap_fee <= 1_000_000 {
            assert(fee <= dy) by (nonlinear_arith)
                requires
                    fee == (dy * m.swap_fee) / 1_000_000,
                    m.swap_fee <= 1_000_000,
            ;
        }
    }
}

/// The balances after depositing `amounts`: `reserve_k * multiplier_k +
/// amount_k * multiplier_k`.
pub open spec fn balances_after_deposit(m: PoolModel, amounts: Seq<nat>) -> Seq<nat> {
    Seq::new(
        m.reserves.len(),
        |k: int| m.reserves[k] * m.multipliers[k] + amounts[k] * m.multipliers[k],
    )
}

proof fn lemma_no_fee_keeps_balances(
    old_xs: Seq<nat>,
    new_xs: Seq<nat>,
    d0: nat,
    d1: nat,
    k: nat,
)
    requires
        d0 > 0,
        old_xs.len() == new_xs.len(),
        k <= old_xs.len(),
    ensures
        fee_adjusted_xs(old_xs, new_xs, d0, d1, 0, k, new_xs.take(k as int)) == Ok::<
            Seq<nat>,
            StablePoolError,
        >(new_xs),
    decreases old_xs.len() - k,
{
    if k < old_xs.len() {
        assert(new_xs.take(k as int).push(new_xs[k as int]) =~= new_xs.take(k + 1int));
        lemma_no_fee_keeps_balances(old_xs, new_xs, d0, d1, k + 1);
    } else {
        assert(new_xs.take(k as int) =~= new_xs);
    }
}

/// A deposit into a pool that has shares mints in proportion to the rise of
/// the invariant: without an imbalance fee, `(D_after - D_before) * supply /
/// D_before`, where `D_before` and `D_after` are the invariants of the
/// balances before and after the deposit; it is refused for not raising
/// liquidity exactly when `D` does not rise. Whatever the fee, a deposit
/// carried out raised the invariant of the balances; the first deposit
/// mints `D_after` itself.
pub proof fn law_deposit_mints_the_rise_of_d(m: PoolModel, amounts: Seq<nat>)
    requires
        m.wf(),
        amounts.len() >= m.reserves.len(),
    ensures
        m.lp_token_supply > 0 && m.liquidity_fee == 0 ==> (spec_get_d(balances(m), m.amp_factor) matches Ok(d0)
            ==> (spec_get_d(balances_after_deposit(m, amounts), m.amp_factor) matches Ok(d1)
            ==> spec_add_liquidity(m, amounts) == if d1 <= d0 {
            Err::<nat, StablePoolError>(StablePoolError::LiquidityDidNotIncrease)
        } else if d0 == 0 {
            Err::<nat, StablePoolError>(StablePoolError::DivisionByZero)
        } else {
            Ok::<nat, StablePoolError>((((d1 - d0) as nat) * m.lp_token_supply) / d0)
        })),
        m.lp_token_supply > 0 && spec_add_liquidity(m, amounts) is Ok ==> (spec_get_d(
            balances(m),
            m.amp_factor,
        ) matches Ok(d0) && spec_get_d(balances_after_deposit(m, amounts), m.amp_factor) matches Ok(
            d1,
        ) && d0 < d1),
        m.lp_token_supply == 0 ==> (spec_get_d(balances_after_deposit(m, amounts), m.amp_factor) matches Ok(d1)
            ==> spec_add_liquidity(m, amounts) == if d1 == 0 {
            Err::<nat, StablePoolError>(StablePoolError::LiquidityDidNotIncrease)
        } else {
            Ok::<nat, StablePoolError>(d1)
        }),
{
    lemma_balances(m);
    let old_xs = spec_xp(m);
    let new_xs = deposit_xs(old_xs, amounts, m.multipliers);
    assert(balances_after_deposit(m, amounts) =~= new_xs);
    if m.lp_token_supply > 0 && m.liquidity_fee == 0 {
        if let Ok(d0) = spec_get_d(old_xs, m.amp_factor) {
            if d0 > 0 {
                lemma_no_fee_keeps_balances(old_xs, new_xs, d0, spec_get_d(new_xs, m.amp_factor)->Ok_0, 0);
                assert(new_xs.take(0) =~= seq![]);
            }
        }
    }
}

/// The balances once a withdrawal in token `i` lowers the invariant from
/// `d0` to `d1`, each charged the liquidity fee (`lf` millionths) on its
/// distance to where the withdrawal moves it: token `i` on `x_i * d1 / d0 -
/// y0`, where `y0` is its balance at invariant `d1`, every other token `j`
/// on `x_j - x_j * d1 / d0`.
pub open spec fn charged_balances(xp: Seq<nat>, i: nat, d0: nat, d1: nat, y0: nat, lf: nat) -> Seq<nat> {
    Seq::new(
        xp.len(),
        |j: int|
            {
                let base = if j == i {
                    ((xp[j] * d1) / d0 - y0) as nat
                } else {
                    (xp[j] - (xp[j] * d1) / d0) as nat
                };
                (xp[j] - (base * lf) / 1_000_000) as nat
            },
    )
}

proof fn lemma_fee_le(b: nat, lf: nat)
    requires
        lf <= 1_000_000,
    ensures
        (b * lf) / 1_000_000 <= b,
{
    assert(b * lf <= b * 1_000_000) by (nonlinear_arith)
        requires
            lf <= 1_000_000,
    ;
    lemma_quotient_le(b * lf, b, 1_000_000);
}

proof fn lemma_charged_balances(
    xp: Seq<nat>,
    i: nat,
    d0: nat,
    d1: nat,
    y0: nat,
    lf: nat,
    k: nat,
)
    requires
        0 < d0,
        d1 <= d0,
        i < xp.len(),
        y0 <= (xp[i as int] * d1) / d0,
        lf <= 1_000_000,
        k <= xp.len(),
    ensures
        imbalance_xs(xp, i, d0, d1, y0, lf, k, charged_balances(xp, i, d0, d1, y0, lf).take(k as int))
            == Ok::<Seq<nat>, StablePoolError>(charged_balances(xp, i, d0, d1, y0, lf)),
    decreases xp.len() - k,
{
    let c = charged_balances(xp, i, d0, d1, y0, lf);
    if k < xp.len() {
        let x = xp[k as int];
        let q = (x * d1) / d0;
        lemma_share_le(x, d1, d0);
        let base: nat = if k == i {
            (q - y0) as nat
        } else {
            (x - q) as nat
        };
        lemma_fee_le(base, lf);
        assert(c[k as int] == (x - (base * lf) / 1_000_000) as nat);
        assert(c.take(k as int).push(c[k as int]) =~= c.take(k + 1int));
        lemma_charged_balances(xp, i, d0, d1, y0, lf, k + 1);
    } else {
        assert(c.take(k as int) =~= c);
    }
}

/// A withdrawal of token `i` alone charges each token the liquidity fee on
/// its distance to where the withdrawal moves it (token `i` on `x_i * d1 /
/// d0 - y0`, every other token `j` on `x_j - x_j * d1 / d0`, with `d0` the
/// invariant of the balances, `d1 = d0 - d0 * shares / supply` and `y0` the
/// balance of `i` at invariant `d1`), never refusing for a negative fee
/// base; it pays the drop of the balance of `i` that brings the charged
/// balances to invariant `d1`, less one unit, in units of `i`, and reports
/// as fee what the charge took from the drop without fee.
pub proof fn law_single_token_withdrawal_charges_imbalance(m: PoolModel, shares: nat, i: nat)
    requires
        m.wf(),
        i < m.reserves.len(),
        m.liquidity_fee <= 1_000_000,
        0 < m.lp_token_supply,
        shares <= m.lp_token_supply,
    ensures
        spec_get_d(balances(m), m.amp_factor) matches Ok(d0) ==> ({
            let xp = balances(m);
            let d1 = (d0 - (d0 * shares) / m.lp_token_supply) as nat;
            spec_get_yd(i, xp, d1, m.amp_factor) matches Ok(y0) ==> ({
                let charged = charged_balances(xp, i, d0, d1, y0, m.liquidity_fee);
                let dy0 = ((xp[i as int] - y0) as nat) / m.multipliers[i as int];
                0 < d0 && y0 <= (xp[i as int] * d1) / d0 && 0 < m.multipliers[i as int]
                    ==> spec_withdraw_one_token(m, shares, i) == match spec_get_yd(
                    i,
                    charged,
                    d1,
                    m.amp_factor,
                ) {
                    Err(e) => Err(e),
                    Ok(y1) => if charged[i as int] < y1 + 1 {
                        Err(StablePoolError::NegativeSubtraction)
                    } else {
                        let dy = ((charged[i as int] - (y1 + 1)) as nat) / m.multipliers[i as int];
                        if dy0 < dy {
                            Err(StablePoolError::NegativeSubtraction)
                        } else {
                            Ok((dy, (dy0 - dy) as nat))
                        }
                    },
                }
            })
        }),
{
    lemma_balances(m);
    let xp = spec_xp(m);
    if let Ok(d0) = spec_get_d(xp, m.amp_factor) {
        lemma_share_le(d0, shares, m.lp_token_supply);
        let d1 = (d0 - (d0 * shares) / m.lp_token_supply) as nat;
        if let Ok(y0) = spec_get_yd(i, xp, d1, m.amp_factor) {
            if 0 < d0 && y0 <= (xp[i as int] * d1) / d0 && 0 < m.multipliers[i as int] {
                lemma_share_le(xp[i as int], d1, d0);
                lemma_charged_balances(xp, i, d0, d1, y0, m.liquidity_fee, 0);
                assert(charged_balances(xp, i, d0, d1, y0, m.liquidity_fee).take(0) =~= seq![]);
            }
        }
    }
}

} // verus!
