//! Deposits, withdrawals and swaps: how the reserves and the share supply move.
use crate::amm::{spec_get_d, spec_get_y, spec_get_yd, AmmModule};
use crate::biguint::{values_of, BigUint};
use crate::errors::{
    div_or_err, pair_result, sub_or_err, triple_result, value_result, values_result,
    StablePoolError,
};
use crate::fees::{spec_liquidity_fee, spec_swap_fee, FeesModule};
use crate::maths::{spec_abs_diff, MathsModule};
use crate::{PoolModel, StablePool};
use vstd::prelude::*;

verus! {

/// The number of decimals of the LP token.
pub open spec fn lp_token_decimals() -> nat {
    18
}

/// Reserves brought to a common precision: `reserve_k * multiplier_k`.
pub open spec fn xp_of(reserves: Seq<nat>, multipliers: Seq<nat>) -> Seq<nat> {
    Seq::new(reserves.len(), |k: int| reserves[k] * multipliers[k])
}

/// The precision-adjusted reserves of a pool.
pub open spec fn spec_xp(m: PoolModel) -> Seq<nat> {
    xp_of(m.reserves, m.multipliers)
}

/// The value of one share, in units of 10^-18: `D * 10^18 / supply`, or 0
/// while no share exists.
pub open spec fn spec_virtual_price(m: PoolModel) -> Result<nat, StablePoolError> {
    match spec_get_d(spec_xp(m), m.amp_factor) {
        Err(e) => Err(e),
        Ok(d) => if m.lp_token_supply > 0 {
            Ok((d * vstd::arithmetic::power::pow(10, lp_token_decimals()) as nat)
                / m.lp_token_supply)
        } else {
            Ok(0)
        },
    }
}

/// The reserves, from position `j` on, once `D` falls from `d0` to `d1` by a
/// withdrawal in token `i` whose new reserve is `y0`, each charged the
/// liquidity fee on its distance to its ideal value (`x_j * d1 / d0`, or
/// `y0` for token `i`).
pub open spec fn imbalance_xs(
    xp: Seq<nat>,
    i: nat,
    d0: nat,
    d1: nat,
    y0: nat,
    lf: nat,
    j: nat,
    acc: Seq<nat>,
) -> Result<Seq<nat>, StablePoolError>
    decreases xp.len() - j,
{
    if j >= xp.len() {
        Ok(acc)
    } else if d0 == 0 {
        Err(StablePoolError::DivisionByZero)
    } else {
        let q = (xp[j as int] * d1) / d0;
        let dx = if j == i {
            sub_or_err(q, y0)
        } else {
            sub_or_err(xp[j as int], q)
        };
        match dx {
            Err(e) => Err(e),
            Ok(dx) => match sub_or_err(xp[j as int], spec_liquidity_fee(dx, lf)) {
                Err(e) => Err(e),
                Ok(v) => imbalance_xs(xp, i, d0, d1, y0, lf, j + 1, acc.push(v)),
            },
        }
    }
}

/// `(amount out, fee)` of burning `shares` for token `i` alone: the drop of
/// the reserve of `i` that keeps the invariant at `D * (1 - shares/supply)`,
/// recomputed on reserves charged the imbalance fee, minus one unit, in
/// units of token `i`; the fee is what the imbalance fee took from it.
pub open spec fn spec_withdraw_one_token(m: PoolModel, shares: nat, i: nat) -> Result<
    (nat, nat),
    StablePoolError,
> {
    let xp = spec_xp(m);
    let amp = m.amp_factor;
    match spec_get_d(xp, amp) {
        Err(e) => Err(e),
        Ok(d0) => match div_or_err(d0 * shares, m.lp_token_supply) {
            Err(e) => Err(e),
            Ok(t) => match sub_or_err(d0, t) {
                Err(e) => Err(e),
                Ok(d1) => match spec_get_yd(i, xp, d1, amp) {
                    Err(e) => Err(e),
                    Ok(y0) => if i >= xp.len() {
                        Err(StablePoolError::IndexOutOfRange)
                    } else {
                        match sub_or_err(xp[i as int], y0) {
                            Err(e) => Err(e),
                            Ok(t0) => match div_or_err(t0, m.multipliers[i as int]) {
                                Err(e) => Err(e),
                                Ok(dy0) => match imbalance_xs(
                                    xp,
                                    i,
                                    d0,
                                    d1,
                                    y0,
                                    m.liquidity_fee,
                                    0,
                                    seq![],
                                ) {
                                    Err(e) => Err(e),
                                    Ok(new_xs) => match spec_get_yd(i, new_xs, d1, amp) {
                                        Err(e) => Err(e),
                                        Ok(y1) => match sub_or_err(new_xs[i as int], y1 + 1) {
                                            Err(e) => Err(e),
                                            Ok(t1) => match div_or_err(t1, m.multipliers[i as int]) {
                                                Err(e) => Err(e),
                                                Ok(dy) => match sub_or_err(dy0, dy) {
                                                    Err(e) => Err(e),
                                                    Ok(fee) => Ok((dy, fee)),
                                                },
                                            },
                                        },
                                    },
                                },
                            },
                        }
                    },
                },
            },
        },
    }
}

/// The precision-adjusted reserves after depositing `amounts`.
pub open spec fn deposit_xs(old_xs: Seq<nat>, amounts: Seq<nat>, multipliers: Seq<nat>) -> Seq<nat> {
    Seq::new(old_xs.len(), |k: int| old_xs[k] + amounts[k] * multipliers[k])
}

/// The deposited reserves from position `k` on, each charged the liquidity
/// fee on its distance to its ideal value `old_k * d1 / d0`.
pub open spec fn fee_adjusted_xs(
    old_xs: Seq<nat>,
    new_xs: Seq<nat>,
    d0: nat,
    d1: nat,
    lf: nat,
    k: nat,
    acc: Seq<nat>,
) -> Result<Seq<nat>, StablePoolError>
    decreases old_xs.len() - k,
{
    if k >= old_xs.len() {
        Ok(acc)
    } else if d0 == 0 {
        Err(StablePoolError::DivisionByZero)
    } else {
        let ideal = (old_xs[k as int] * d1) / d0;
        let fee = spec_liquidity_fee(spec_abs_diff(new_xs[k as int], ideal), lf);
        match sub_or_err(new_xs[k as int], fee) {
            Err(e) => Err(e),
            Ok(v) => fee_adjusted_xs(old_xs, new_xs, d0, d1, lf, k + 1, acc.push(v)),
        }
    }
}

/// The shares minted for depositing `amounts` (one per token): all of the
/// new `D` for the first deposit, else `(d2 - d0) * supply / d0`, where `d0`
/// is `D` before, and `d2` is `D` after the deposit with the imbalance fee
/// taken out; refused unless the deposit raises `D`.
pub open spec fn spec_add_liquidity(m: PoolModel, amounts: Seq<nat>) -> Result<nat, StablePoolError> {
    let old_xs = spec_xp(m);
    let amp = m.amp_factor;
    let supply = m.lp_token_supply;
    let d0r = if supply > 0 {
        spec_get_d(old_xs, amp)
    } else {
        Ok(0nat)
    };
    match d0r {
        Err(e) => Err(e),
        Ok(d0) => if amounts.len() < old_xs.len() {
            Err(StablePoolError::IndexOutOfRange)
        } else {
            let new_xs = deposit_xs(old_xs, amounts, m.multipliers);
            match spec_get_d(new_xs, amp) {
                Err(e) => Err(e),
                Ok(d1) => if d1 <= d0 {
                    Err(StablePoolError::LiquidityDidNotIncrease)
                } else if supply == 0 {
                    Ok(d1)
                } else {
                    match fee_adjusted_xs(old_xs, new_xs, d0, d1, m.liquidity_fee, 0, seq![]) {
                        Err(e) => Err(e),
                        Ok(xs2) => match spec_get_d(xs2, amp) {
                            Err(e) => Err(e),
                            Ok(d2) => match sub_or_err(d2, d0) {
                                Err(e) => Err(e),
                                Ok(g) => div_or_err(g * supply, d0),
                            },
                        },
                    }
                },
            }
        },
    }
}

/// The pool after a deposit of `amounts` that minted `shares`.
pub open spec fn spec_deposit(m: PoolModel, amounts: Seq<nat>, shares: nat) -> PoolModel {
    m.with_reserves_supply(
        Seq::new(m.reserves.len(), |k: int| m.reserves[k] + amounts[k]),
        m.lp_token_supply + shares,
    )
}

/// What burning `shares` pays out of each reserve: `reserve * shares / supply`.
pub open spec fn withdrawn_amounts(m: PoolModel, shares: nat) -> Seq<nat> {
    Seq::new(m.reserves.len(), |k: int| (m.reserves[k] * shares) / m.lp_token_supply)
}

/// The amounts paid out for `shares`; a withdrawal that is carried out
/// (not `readonly`) cannot burn more shares than exist.
pub open spec fn spec_remove_liquidity(m: PoolModel, shares: nat, readonly: bool) -> Result<
    Seq<nat>,
    StablePoolError,
> {
    if m.lp_token_supply == 0 {
        Err(StablePoolError::DivisionByZero)
    } else if !readonly && shares > m.lp_token_supply {
        Err(StablePoolError::NegativeSubtraction)
    } else {
        Ok(withdrawn_amounts(m, shares))
    }
}

/// The pool after `shares` were burnt for `amounts`.
pub open spec fn spec_withdrawal(m: PoolModel, shares: nat, amounts: Seq<nat>) -> PoolModel {
    m.with_reserves_supply(
        Seq::new(m.reserves.len(), |k: int| (m.reserves[k] - amounts[k]) as nat),
        (m.lp_token_supply - shares) as nat,
    )
}

/// `(amount out, lp fee, platform fee)` of selling `dx` of token `i` for
/// token `j`: the drop of the reserve of `j` that keeps `D`, minus one unit,
/// in units of `j`, less the swap fee.
pub open spec fn spec_swap(m: PoolModel, i: nat, j: nat, dx: nat) -> Result<
    (nat, nat, nat),
    StablePoolError,
> {
    let xp = spec_xp(m);
    if i == j {
        Err(StablePoolError::SameToken)
    } else if i >= xp.len() || j >= xp.len() {
        Err(StablePoolError::IndexOutOfRange)
    } else {
        let x = xp[i as int] + dx * m.multipliers[i as int];
        match spec_get_y(i, j, x, xp, m.amp_factor) {
            Err(e) => Err(e),
            Ok(y1) => match sub_or_err(xp[j as int], y1 + 1) {
                Err(e) => Err(e),
                Ok(t) => match div_or_err(t, m.multipliers[j as int]) {
                    Err(e) => Err(e),
                    Ok(dy) => {
                        let fees = spec_swap_fee(dy, m.swap_fee);
                        match sub_or_err(dy, fees.0 + fees.1) {
                            Err(e) => Err(e),
                            Ok(out) => Ok((out, fees.0, fees.1)),
                        }
                    },
                },
            },
        }
    }
}

/// The pool after a swap: the reserve of `i` grows by `dx`; the reserve of
/// `j` pays the amount out and the platform fee (the LP fee stays).
pub open spec fn spec_swapped(m: PoolModel, i: nat, j: nat, dx: nat, out: nat, platform_fee: nat) -> PoolModel {
    m.with_reserves_supply(
        m.reserves.update(i as int, m.reserves[i as int] + dx).update(
            j as int,
            (m.reserves[j as int] - out - platform_fee) as nat,
        ),
        m.lp_token_supply,
    )
}

/// The amount of token `i` paid for `shares`; a withdrawal that is carried
/// out (not `readonly`) cannot burn more shares than exist.
pub open spec fn spec_remove_liquidity_one_token(m: PoolModel, shares: nat, i: nat, readonly: bool) -> Result<
    nat,
    StablePoolError,
> {
    match spec_withdraw_one_token(m, shares, i) {
        Err(e) => Err(e),
        Ok(r) => if !readonly && shares > m.lp_token_supply {
            Err(StablePoolError::NegativeSubtraction)
        } else {
            Ok(r.0)
        },
    }
}

/// The pool after `shares` were burnt for `amount` of token `i`.
pub open spec fn spec_withdrawn_one(m: PoolModel, shares: nat, i: nat, amount: nat) -> PoolModel {
    m.with_reserves_supply(
        m.reserves.update(i as int, (m.reserves[i as int] - amount) as nat),
        (m.lp_token_supply - shares) as nat,
    )
}

/// `t / m <= r` when `t <= r * m`.
pub(crate) proof fn lemma_quotient_le(t: nat, r: nat, m: nat)
    requires
        m > 0,
        t <= r * m,
    ensures
        t / m <= r,
{
    assert(t / m <= r) by (nonlinear_arith)
        requires
            m > 0,
            t <= r * m,
    ;
}

/// A share of a reserve never exceeds the reserve.
pub(crate) proof fn lemma_share_le(r: nat, shares: nat, supply: nat)
    requires
        0 < supply,
        shares <= supply,
    ensures
        (r * shares) / supply <= r,
{
    assert(r * shares <= r * supply) by (nonlinear_arith)
        requires
            shares <= supply,
    ;
    lemma_quotient_le(r * shares, r, supply);
}

/// The fee-charged reserves are as many as the reserves and none exceeds its
/// reserve.
proof fn lemma_imbalance_le(
    xp: Seq<nat>,
    i: nat,
    d0: nat,
    d1: nat,
    y0: nat,
    lf: nat,
    j: nat,
    acc: Seq<nat>,
)
    requires
        acc.len() == j,
        j <= xp.len(),
        forall|k: int| 0 <= k < j ==> acc[k] <= xp[k],
    ensures
        imbalance_xs(xp, i, d0, d1, y0, lf, j, acc) matches Ok(r) ==> r.len() == xp.len() && forall|
            k: int,
        |
            0 <= k < xp.len() ==> r[k] <= xp[k],
    decreases xp.len() - j,
{
    if j < xp.len() && d0 != 0 {
        let q = (xp[j as int] * d1) / d0;
        let dx = if j == i {
            sub_or_err(q, y0)
        } else {
            sub_or_err(xp[j as int], q)
        };
        if let Ok(dx) = dx {
            if let Ok(v) = sub_or_err(xp[j as int], spec_liquidity_fee(dx, lf)) {
                lemma_imbalance_le(xp, i, d0, d1, y0, lf, j + 1, acc.push(v));
            }
        }
    }
}

/// Pool operations on liquidity.
pub trait LiquidityModule: AmmModule + FeesModule + MathsModule {
    /// The value of one share.
    fn get_virtual_price(&self) -> Result<BigUint, StablePoolError>;

    /// `(amount out, fee)` of burning `shares` for token `i`.
    fn calculate_withdraw_one_token(&self, shares: &BigUint, i: usize) -> Result<
        (BigUint, BigUint),
        StablePoolError,
    >;

    /// Deposits `amounts` (one per token) and mints shares for them; with
    /// `readonly`, only computes the shares.
    fn do_add_liquidity(&mut self, amounts: &Vec<BigUint>, readonly: bool) -> Result<
        BigUint,
        StablePoolError,
    >;

    /// Burns `shares` for a part of every reserve; with `readonly`, only
    /// computes the amounts.
    fn do_remove_liquidity(&mut self, shares: &BigUint, readonly: bool) -> Result<
        Vec<BigUint>,
        StablePoolError,
    >;

    /// Sells `dx` of token `i` for token `j`: `(amount out, lp fee, platform
    /// fee)`; with `readonly`, only computes them.
    fn do_swap(&mut self, i: usize, j: usize, dx: &BigUint, readonly: bool) -> Result<
        (BigUint, BigUint, BigUint),
        StablePoolError,
    >;

    /// Burns `shares` for token `i` alone; with `readonly`, only computes the
    /// amount.
    fn do_remove_liquidity_one_token(&mut self, shares: &BigUint, i: usize, readonly: bool) -> Result<
        BigUint,
        StablePoolError,
    >;

    /// The precision-adjusted reserves.
    fn get_xp(&self) -> Vec<BigUint>;

    /// Removes `amount` shares from the supply.
    fn lp_burn(&mut self, amount: &BigUint) -> Result<(), StablePoolError>;

    /// Adds `amount` shares to the supply.
    fn lp_mint(&mut self, amount: &BigUint);

    /// The reserve of token `i` (0 past the last token).
    fn reserves(&self, i: usize) -> BigUint;

    /// The number of shares in circulation.
    fn lp_token_supply(&self) -> BigUint;

    /// The identifier of the LP token (empty until issued).
    fn lp_token(&self) -> Vec<u8>;

    /// The multiplier of token `i` (0 past the last token).
    fn multipliers(&self, i: usize) -> BigUint;

    /// The number of tokens.
    fn nb_tokens(&self) -> usize;
}

impl StablePool {
    /// The shares that a deposit of `amounts` mints.
    #[verifier::loop_isolation(false)]
    pub(crate) fn compute_add_liquidity(&self, amounts: &Vec<BigUint>) -> (r: Result<BigUint, StablePoolError>)
        ensures
            value_result(r) == spec_add_liquidity(self@, values_of(amounts@)),
    {
        proof {
            use_type_invariant(self);
        }
        let ghost m = self@;
        let ghost am = values_of(amounts@);
        let zero = BigUint::from_u64(0);
        let total_supply = self.lp_token_supply.clone_value();
        let old_xs = self.get_xp();
        let ghost oxs = values_of(old_xs@);
        let supply_pos = zero.less_than(&total_supply);
        let d0 = if supply_pos {
            match self.amm_get_d(&old_xs) {
                Ok(d) => d,
                Err(e) => {
                    return Err(e);
                },
            }
        } else {
            BigUint::from_u64(0)
        };
        let n = old_xs.len();
        if amounts.len() < n {
            return Err(StablePoolError::IndexOutOfRange);
        }
        let mut new_xs: Vec<BigUint> = Vec::new();
        let mut k: usize = 0;
        while k < n
            invariant
                n == old_xs.len(),
                n == self.multipliers.len(),
                n <= amounts.len(),
                zero@ == 0,
                oxs == values_of(old_xs@),
                am == values_of(amounts@),
                m == self@,
                0 <= k <= n,
                new_xs.len() == k,
                forall|t: int|
                    0 <= t < k ==> #[trigger] new_xs@[t]@ == oxs[t] + am[t] * m.multipliers[t],
            decreases n - k,
        {
            let amount = &amounts[k];
            proof {
                assert(oxs[k as int] == old_xs@[k as int]@);
                assert(am[k as int] == amounts@[k as int]@);
                assert(m.multipliers[k as int] == self.multipliers@[k as int]@);
            }
            if zero.less_than(amount) {
                new_xs.push(old_xs[k].plus(&amount.times(&self.multipliers[k])));
            } else {
                proof {
                    let z = am[k as int];
                    let mk = m.multipliers[k as int];
                    assert(z * mk == 0) by (nonlinear_arith)
                        requires
                            z == 0,
                    ;
                }
                new_xs.push(old_xs[k].clone_value());
            }
            k += 1;
        }
        proof {
            assert(values_of(new_xs@) =~= deposit_xs(oxs, am, m.multipliers));
        }
        let d1 = match self.amm_get_d(&new_xs) {
            Ok(d) => d,
            Err(e) => {
                return Err(e);
            },
        };
        if !d0.less_than(&d1) {
            return Err(StablePoolError::LiquidityDidNotIncrease);
        }
        if !supply_pos {
            return Ok(d1);
        }
        let ghost nxs = values_of(new_xs@);
        let mut xs2: Vec<BigUint> = Vec::new();
        proof {
            assert(values_of(xs2@) =~= seq![]);
        }
        let mut k: usize = 0;
        while k < n
            invariant
                n == old_xs.len(),
                n == new_xs.len(),
                zero@ == 0,
                oxs == values_of(old_xs@),
                nxs == values_of(new_xs@),
                m == self@,
                0 <= k <= n,
                xs2.len() == k,
                fee_adjusted_xs(oxs, nxs, d0@, d1@, m.liquidity_fee, k as nat, values_of(xs2@))
                    == fee_adjusted_xs(oxs, nxs, d0@, d1@, m.liquidity_fee, 0, seq![]),
            decreases n - k,
        {
            if d0.equals(&zero) {
                return Err(StablePoolError::DivisionByZero);
            }
            let ideal = old_xs[k].times(&d1).quotient(&d0);
            let diff = self.abs_diff(&new_xs[k], &ideal);
            let fee = self.calculate_liquidity_fee(&diff);
            if new_xs[k].less_than(&fee) {
                return Err(StablePoolError::NegativeSubtraction);
            }
            let ghost before = xs2@;
            xs2.push(new_xs[k].minus(&fee));
            proof {
                assert(values_of(xs2@) =~= values_of(before).push(xs2@[k as int]@));
            }
            k += 1;
        }
        proof {
            assert(values_of(seq![]) =~= seq![]);
        }
        let d2 = match self.amm_get_d(&xs2) {
            Ok(d) => d,
            Err(e) => {
                return Err(e);
            },
        };
        if d2.less_than(&d0) {
            return Err(StablePoolError::NegativeSubtraction);
        }
        if d0.equals(&zero) {
            return Err(StablePoolError::DivisionByZero);
        }
        Ok(d2.minus(&d0).times(&total_supply).quotient(&d0))
    }

    /// The amounts that burning `shares` pays out.
    #[verifier::loop_isolation(false)]
    pub(crate) fn compute_remove_liquidity(&self, shares: &BigUint, readonly: bool) -> (r: Result<
        Vec<BigUint>,
        StablePoolError,
    >)
        ensures
            values_result(r) == spec_remove_liquidity(self@, shares@, readonly),
    {
        proof {
            use_type_invariant(self);
        }
        let ghost m = self@;
        let zero = BigUint::from_u64(0);
        let total_supply = &self.lp_token_supply;
        if total_supply.equals(&zero) {
            return Err(StablePoolError::DivisionByZero);
        }
        let n = self.nb_tokens;
        let mut amounts_out: Vec<BigUint> = Vec::new();
        let mut k: usize = 0;
        while k < n
            invariant
                n == self.reserves.len(),
                m == self@,
                total_supply@ == m.lp_token_supply,
                m.lp_token_supply > 0,
                0 <= k <= n,
                amounts_out.len() == k,
                forall|t: int|
                    0 <= t < k ==> #[trigger] amounts_out@[t]@ == withdrawn_amounts(m, shares@)[t],
            decreases n - k,
        {
            let balance = &self.reserves[k];
            let amount_out = balance.times(shares).quotient(total_supply);
            if !readonly && balance.less_than(&amount_out) {
                proof {
                    if shares@ <= m.lp_token_supply {
                        lemma_share_le(balance@, shares@, m.lp_token_supply);
                    }
                }
                return Err(StablePoolError::NegativeSubtraction);
            }
            amounts_out.push(amount_out);
            k += 1;
        }
        if !readonly && total_supply.less_than(shares) {
            return Err(StablePoolError::NegativeSubtraction);
        }
        proof {
            assert(values_of(amounts_out@) =~= withdrawn_amounts(m, shares@));
        }
        Ok(amounts_out)
    }

    /// `(amount out, lp fee, platform fee)` of selling `dx` of token `i` for
    /// token `j`.
    pub(crate) fn compute_swap(&self, i: usize, j: usize, dx: &BigUint) -> (r: Result<
        (BigUint, BigUint, BigUint),
        StablePoolError,
    >)
        ensures
            triple_result(r) == spec_swap(self@, i as nat, j as nat, dx@),
    {
        proof {
            use_type_invariant(self);
        }
        if i == j {
            return Err(StablePoolError::SameToken);
        }
        let xp = self.get_xp();
        if i >= xp.len() {
            return Err(StablePoolError::IndexOutOfRange);
        }
        let x = xp[i].plus(&dx.times(&self.multipliers[i]));
        if j >= xp.len() {
            return Err(StablePoolError::IndexOutOfRange);
        }
        let y0 = xp[j].clone_value();
        let y1 = match self.amm_get_y(i, j, x, xp) {
            Ok(y) => y,
            Err(e) => {
                return Err(e);
            },
        };
        let t = y1.plus(&BigUint::from_u64(1));
        if y0.less_than(&t) {
            return Err(StablePoolError::NegativeSubtraction);
        }
        let mj = &self.multipliers[j];
        if mj.equals(&BigUint::from_u64(0)) {
            return Err(StablePoolError::DivisionByZero);
        }
        let dy = y0.minus(&t).quotient(mj);
        let (lp_fee, platform_fee) = self.calculate_swap_fee(&dy);
        let total_fee = lp_fee.plus(&platform_fee);
        if dy.less_than(&total_fee) {
            return Err(StablePoolError::NegativeSubtraction);
        }
        Ok((dy.minus(&total_fee), lp_fee, platform_fee))
    }

    /// Books a deposit of `amounts` that minted `shares`.
    #[verifier::loop_isolation(false)]
    pub(crate) fn apply_deposit(&mut self, amounts: &Vec<BigUint>, shares: &BigUint)
        requires
            spec_add_liquidity(old(self)@, values_of(amounts@)) == Ok::<nat, StablePoolError>(
                shares@,
            ),
        ensures
            final(self)@ == spec_deposit(old(self)@, values_of(amounts@), shares@),
    {
        proof {
            use_type_invariant(&*self);
        }
        let ghost m = self@;
        let n = self.nb_tokens;
        let mut new_reserves: Vec<BigUint> = Vec::new();
        let mut k: usize = 0;
        while k < n
            invariant
                n == self.reserves.len(),
                n <= amounts.len(),
                m == self@,
                0 <= k <= n,
                new_reserves.len() == k,
                forall|t: int|
                    0 <= t < k ==> #[trigger] new_reserves@[t]@ == m.reserves[t] + values_of(
                        amounts@,
                    )[t],
            decreases n - k,
        {
            new_reserves.push(self.reserves[k].plus(&amounts[k]));
            k += 1;
        }
        let new_supply = self.lp_token_supply.plus(shares);
        proof {
            assert(values_of(new_reserves@) =~= Seq::new(
                m.reserves.len(),
                |t: int| m.reserves[t] + values_of(amounts@)[t],
            ));
        }
        self.reserves = new_reserves;
        self.lp_token_supply = new_supply;
    }

    /// Books the burning of `shares` for `amounts_out`.
    #[verifier::loop_isolation(false)]
    pub(crate) fn apply_withdrawal(&mut self, shares: &BigUint, amounts_out: &Vec<BigUint>)
        requires
            spec_remove_liquidity(old(self)@, shares@, false) == Ok::<Seq<nat>, StablePoolError>(
                values_of(amounts_out@),
            ),
        ensures
            final(self)@ == spec_withdrawal(old(self)@, shares@, values_of(amounts_out@)),
    {
        proof {
            use_type_invariant(&*self);
        }
        let ghost m = self@;
        proof {
            assert(values_of(amounts_out@).len() == amounts_out@.len());
        }
        let n = self.nb_tokens;
        let mut new_reserves: Vec<BigUint> = Vec::new();
        let mut k: usize = 0;
        while k < n
            invariant
                n == self.reserves.len(),
                n == amounts_out.len(),
                m == self@,
                m.lp_token_supply > 0,
                shares@ <= m.lp_token_supply,
                values_of(amounts_out@) == withdrawn_amounts(m, shares@),
                0 <= k <= n,
                new_reserves.len() == k,
                forall|t: int|
                    0 <= t < k ==> #[trigger] new_reserves@[t]@ == m.reserves[t] - values_of(
                        amounts_out@,
                    )[t],
            decreases n - k,
        {
            proof {
                lemma_share_le(m.reserves[k as int], shares@, m.lp_token_supply);
                assert(values_of(amounts_out@)[k as int] == amounts_out@[k as int]@);
                assert(m.reserves[k as int] == self.reserves@[k as int]@);
                assert(withdrawn_amounts(m, shares@)[k as int] == (m.reserves[k as int] * shares@)
                    / m.lp_token_supply);
            }
            new_reserves.push(self.reserves[k].minus(&amounts_out[k]));
            k += 1;
        }
        let new_supply = self.lp_token_supply.minus(shares);
        proof {
            assert(values_of(new_reserves@) =~= Seq::new(
                m.reserves.len(),
                |t: int| (m.reserves[t] - values_of(amounts_out@)[t]) as nat,
            ));
        }
        self.reserves = new_reserves;
        self.lp_token_supply = new_supply;
    }

    /// Books a swap of `dx` of token `i` for `out` of token `j`.
    #[verifier::loop_isolation(false)]
    pub(crate) fn apply_swap(
        &mut self,
        i: usize,
        j: usize,
        dx: &BigUint,
        out: &BigUint,
        lp_fee: &BigUint,
        platform_fee: &BigUint,
    )
        requires
            spec_swap(old(self)@, i as nat, j as nat, dx@) == Ok::<
                (nat, nat, nat),
                StablePoolError,
            >((out@, lp_fee@, platform_fee@)),
        ensures
            final(self)@ == spec_swapped(old(self)@, i as nat, j as nat, dx@, out@, platform_fee@),
    {
        proof {
            use_type_invariant(&*self);
        }
        let ghost m = self@;
        let paid = out.plus(platform_fee);
        proof {
            let xp = spec_xp(m);
            let x = xp[i as int] + dx@ * m.multipliers[i as int];
            let y1 = spec_get_y(i as nat, j as nat, x, xp, m.amp_factor)->Ok_0;
            let t = (xp[j as int] - (y1 + 1)) as nat;
            let dy = t / m.multipliers[j as int];
            assert(out@ + lp_fee@ + platform_fee@ == dy);
            assert(xp[j as int] == m.reserves[j as int] * m.multipliers[j as int]);
            lemma_quotient_le(t, m.reserves[j as int], m.multipliers[j as int]);
        }
        let reserve_i = self.reserves[i].plus(dx);
        let reserve_j = self.reserves[j].minus(&paid);
        let mut new_reserves: Vec<BigUint> = Vec::new();
        let n = self.nb_tokens;
        let mut k: usize = 0;
        while k < n
            invariant
                n == self.reserves.len(),
                m == self@,
                i < n,
                j < n,
                0 <= k <= n,
                new_reserves.len() == k,
                forall|t: int|
                    0 <= t < k ==> #[trigger] new_reserves@[t]@ == m.reserves.update(
                        i as int,
                        reserve_i@,
                    ).update(j as int, reserve_j@)[t],
            decreases n - k,
        {
            if k == i {
                new_reserves.push(reserve_i.clone_value());
            } else if k == j {
                new_reserves.push(reserve_j.clone_value());
            } else {
                new_reserves.push(self.reserves[k].clone_value());
            }
            k += 1;
        }
        proof {
            assert(values_of(new_reserves@) =~= m.reserves.update(i as int, reserve_i@).update(
                j as int,
                reserve_j@,
            ));
        }
        self.reserves = new_reserves;
    }

    /// Books the burning of `shares` for `amount` of token `i`.
    #[verifier::loop_isolation(false)]
    pub(crate) fn apply_withdrawal_one(&mut self, shares: &BigUint, i: usize, amount: &BigUint)
        requires
            spec_remove_liquidity_one_token(old(self)@, shares@, i as nat, false) == Ok::<
                nat,
                StablePoolError,
            >(amount@),
        ensures
            final(self)@ == spec_withdrawn_one(old(self)@, shares@, i as nat, amount@),
    {
        proof {
            use_type_invariant(&*self);
        }
        let ghost m = self@;
        proof {
            let xp = spec_xp(m);
            let d0 = spec_get_d(xp, m.amp_factor)->Ok_0;
            let d1 = (d0 - (d0 * shares@) / m.lp_token_supply) as nat;
            let y0 = spec_get_yd(i as nat, xp, d1, m.amp_factor)->Ok_0;
            lemma_imbalance_le(xp, i as nat, d0, d1, y0, m.liquidity_fee, 0, seq![]);
            let new_xs = imbalance_xs(xp, i as nat, d0, d1, y0, m.liquidity_fee, 0, seq![])->Ok_0;
            let y1 = spec_get_yd(i as nat, new_xs, d1, m.amp_factor)->Ok_0;
            let t1 = (new_xs[i as int] - (y1 + 1)) as nat;
            assert(xp[i as int] == m.reserves[i as int] * m.multipliers[i as int]);
            lemma_quotient_le(t1, m.reserves[i as int], m.multipliers[i as int]);
        }
        let reserve_i = self.reserves[i].minus(amount);
        let new_supply = self.lp_token_supply.minus(shares);
        let mut new_reserves: Vec<BigUint> = Vec::new();
        let n = self.nb_tokens;
        let mut k: usize = 0;
        while k < n
            invariant
                n == self.reserves.len(),
                m == self@,
                i < n,
                0 <= k <= n,
                new_reserves.len() == k,
                forall|t: int|
                    0 <= t < k ==> #[trigger] new_reserves@[t]@ == m.reserves.update(
                        i as int,
                        reserve_i@,
                    )[t],
            decreases n - k,
        {
            if k == i {
                new_reserves.push(reserve_i.clone_value());
            } else {
                new_reserves.push(self.reserves[k].clone_value());
            }
            k += 1;
        }
        proof {
            assert(values_of(new_reserves@) =~= m.reserves.update(i as int, reserve_i@));
        }
        self.reserves = new_reserves;
        self.lp_token_supply = new_supply;
    }
}

impl LiquidityModule for StablePool {
    fn get_virtual_price(&self) -> (r: Result<BigUint, StablePoolError>)
        ensures
            value_result(r) == spec_virtual_price(self@),
    {
        proof {
            use_type_invariant(self);
        }
        let xp = self.get_xp();
        let d = match self.amm_get_d(&xp) {
            Ok(d) => d,
            Err(e) => {
                return Err(e);
            },
        };
        let total_supply = &self.lp_token_supply;
        if BigUint::from_u64(0).less_than(total_supply) {
            Ok(d.times(&BigUint::from_u64(10).power(18)).quotient(total_supply))
        } else {
            Ok(BigUint::from_u64(0))
        }
    }

    #[verifier::loop_isolation(false)]
    fn calculate_withdraw_one_token(&self, shares: &BigUint, i: usize) -> (r: Result<
        (BigUint, BigUint),
        StablePoolError,
    >)
        ensures
            pair_result(r) == spec_withdraw_one_token(self@, shares@, i as nat),
    {
        proof {
            use_type_invariant(self);
        }
        let ghost m = self@;
        let zero = BigUint::from_u64(0);
        let total_supply = &self.lp_token_supply;
        let n = self.nb_tokens;
        let xp = self.get_xp();
        let ghost xs = values_of(xp@);
        let d0 = match self.amm_get_d(&xp) {
            Ok(d) => d,
            Err(e) => {
                return Err(e);
            },
        };
        if total_supply.equals(&zero) {
            return Err(StablePoolError::DivisionByZero);
        }
        let t = d0.times(shares).quotient(total_supply);
        if d0.less_than(&t) {
            return Err(StablePoolError::NegativeSubtraction);
        }
        let d1 = d0.minus(&t);
        let y0 = match self.amm_get_yd(i, &xp, &d1) {
            Ok(y) => y,
            Err(e) => {
                return Err(e);
            },
        };
        if i >= n {
            return Err(StablePoolError::IndexOutOfRange);
        }
        if xp[i].less_than(&y0) {
            return Err(StablePoolError::NegativeSubtraction);
        }
        let mi = &self.multipliers[i];
        if mi.equals(&zero) {
            return Err(StablePoolError::DivisionByZero);
        }
        let dy0 = xp[i].minus(&y0).quotient(mi);
        let mut new_xs: Vec<BigUint> = Vec::new();
        proof {
            assert(values_of(new_xs@) =~= seq![]);
        }
        let mut j: usize = 0;
        while j < n
            invariant
                n == xp.len(),
                zero@ == 0,
                xs == values_of(xp@),
                m == self@,
                0 <= j <= n,
                new_xs.len() == j,
                imbalance_xs(xs, i as nat, d0@, d1@, y0@, m.liquidity_fee, j as nat, values_of(new_xs@))
                    == imbalance_xs(xs, i as nat, d0@, d1@, y0@, m.liquidity_fee, 0, seq![]),
            decreases n - j,
        {
            if d0.equals(&zero) {
                return Err(StablePoolError::DivisionByZero);
            }
            let xpj = &xp[j];
            let q = xpj.times(&d1).quotient(&d0);
            let dx = if j == i {
                if q.less_than(&y0) {
                    return Err(StablePoolError::NegativeSubtraction);
                }
                q.minus(&y0)
            } else {
                if xpj.less_than(&q) {
                    return Err(StablePoolError::NegativeSubtraction);
                }
                xpj.minus(&q)
            };
            let fee = self.calculate_liquidity_fee(&dx);
            if xpj.less_than(&fee) {
                return Err(StablePoolError::NegativeSubtraction);
            }
            let ghost before = new_xs@;
            new_xs.push(xpj.minus(&fee));
            proof {
                assert(values_of(new_xs@) =~= values_of(before).push(new_xs@[j as int]@));
            }
            j += 1;
        }
        proof {
            assert(values_of(seq![]) =~= seq![]);
            lemma_imbalance_le(xs, i as nat, d0@, d1@, y0@, m.liquidity_fee, 0, seq![]);
        }
        let y1 = match self.amm_get_yd(i, &new_xs, &d1) {
            Ok(y) => y,
            Err(e) => {
                return Err(e);
            },
        };
        let t1 = y1.plus(&BigUint::from_u64(1));
        if new_xs[i].less_than(&t1) {
            return Err(StablePoolError::NegativeSubtraction);
        }
        let dy = new_xs[i].minus(&t1).quotient(mi);
        if dy0.less_than(&dy) {
            return Err(StablePoolError::NegativeSubtraction);
        }
        let fee = dy0.minus(&dy);
        Ok((dy, fee))
    }

    fn do_add_liquidity(&mut self, amounts: &Vec<BigUint>, readonly: bool) -> (r: Result<
        BigUint,
        StablePoolError,
    >)
        ensures
            value_result(r) == spec_add_liquidity(old(self)@, values_of(amounts@)),
            readonly || r is Err ==> final(self)@ == old(self)@,
            !readonly && r is Ok ==> final(self)@ == spec_deposit(
                old(self)@,
                values_of(amounts@),
                r->Ok_0@,
            ),
    {
        let shares = match self.compute_add_liquidity(amounts) {
            Ok(s) => s,
            Err(e) => {
                return Err(e);
            },
        };
        if !readonly {
            self.apply_deposit(amounts, &shares);
        }
        Ok(shares)
    }

    fn do_remove_liquidity(&mut self, shares: &BigUint, readonly: bool) -> (r: Result<
        Vec<BigUint>,
        StablePoolError,
    >)
        ensures
            values_result(r) == spec_remove_liquidity(old(self)@, shares@, readonly),
            readonly || r is Err ==> final(self)@ == old(self)@,
            !readonly && r is Ok ==> final(self)@ == spec_withdrawal(
                old(self)@,
                shares@,
                values_of(r->Ok_0@),
            ),
    {
        let amounts_out = match self.compute_remove_liquidity(shares, readonly) {
            Ok(a) => a,
            Err(e) => {
                return Err(e);
            },
        };
        if !readonly {
            self.apply_withdrawal(shares, &amounts_out);
        }
        Ok(amounts_out)
    }

    fn do_swap(&mut self, i: usize, j: usize, dx: &BigUint, readonly: bool) -> (r: Result<
        (BigUint, BigUint, BigUint),
        StablePoolError,
    >)
        ensures
            triple_result(r) == spec_swap(old(self)@, i as nat, j as nat, dx@),
            readonly || r is Err ==> final(self)@ == old(self)@,
            !readonly && r is Ok ==> final(self)@ == spec_swapped(
                old(self)@,
                i as nat,
                j as nat,
                dx@,
                r->Ok_0.0@,
                r->Ok_0.2@,
            ),
    {
        let (out, lp_fee, platform_fee) = match self.compute_swap(i, j, dx) {
            Ok(t) => t,
            Err(e) => {
                return Err(e);
            },
        };
        if !readonly {
            self.apply_swap(i, j, dx, &out, &lp_fee, &platform_fee);
        }
        Ok((out, lp_fee, platform_fee))
    }

    fn do_remove_liquidity_one_token(&mut self, shares: &BigUint, i: usize, readonly: bool) -> (r:
        Result<BigUint, StablePoolError>)
        ensures
            value_result(r) == spec_remove_liquidity_one_token(old(self)@, shares@, i as nat, readonly),
            readonly || r is Err ==> final(self)@ == old(self)@,
            !readonly && r is Ok ==> final(self)@ == spec_withdrawn_one(
                old(self)@,
                shares@,
                i as nat,
                r->Ok_0@,
            ),
    {
        let (amount_out, _fee) = match self.calculate_withdraw_one_token(shares, i) {
            Ok(t) => t,
            Err(e) => {
                return Err(e);
            },
        };
        if !readonly {
            if self.lp_token_supply.less_than(shares) {
                return Err(StablePoolError::NegativeSubtraction);
            }
            self.apply_withdrawal_one(shares, i, &amount_out);
        }
        Ok(amount_out)
    }

    fn get_xp(&self) -> (r: Vec<BigUint>)
        ensures
            values_of(r@) == spec_xp(self@),
    {
        proof {
            use_type_invariant(self);
        }
        let mut xp: Vec<BigUint> = Vec::new();
        let n = self.nb_tokens;
        let mut k: usize = 0;
        while k < n
            invariant
                n == self.reserves.len(),
                n == self.multipliers.len(),
                0 <= k <= n,
                xp.len() == k,
                forall|t: int|
                    0 <= t < k ==> #[trigger] xp@[t]@ == self.reserves@[t]@ * self.multipliers@[t]@,
            decreases n - k,
        {
            xp.push(self.reserves[k].times(&self.multipliers[k]));
            k += 1;
        }
        proof {
            assert(values_of(xp@) =~= spec_xp(self@));
        }
        xp
    }

    fn lp_burn(&mut self, amount: &BigUint) -> (r: Result<(), StablePoolError>)
        ensures
            r is Ok <==> amount@ <= old(self)@.lp_token_supply,
            r is Err ==> r == Err::<(), StablePoolError>(StablePoolError::NegativeSubtraction)
                && final(self)@ == old(self)@,
            r is Ok ==> final(self)@ == old(self)@.with_reserves_supply(
                old(self)@.reserves,
                (old(self)@.lp_token_supply - amount@) as nat,
            ),
    {
        proof {
            use_type_invariant(&*self);
        }
        if self.lp_token_supply.less_than(amount) {
            return Err(StablePoolError::NegativeSubtraction);
        }
        let new_supply = self.lp_token_supply.minus(amount);
        self.lp_token_supply = new_supply;
        Ok(())
    }

    fn lp_mint(&mut self, amount: &BigUint)
        ensures
            final(self)@ == old(self)@.with_reserves_supply(
                old(self)@.reserves,
                old(self)@.lp_token_supply + amount@,
            ),
    {
        proof {
            use_type_invariant(&*self);
        }
        let new_supply = self.lp_token_supply.plus(amount);
        self.lp_token_supply = new_supply;
    }

    fn reserves(&self, i: usize) -> (r: BigUint)
        ensures
            r@ == if i < self@.reserves.len() {
                self@.reserves[i as int]
            } else {
                0
            },
    {
        if i < self.reserves.len() {
            self.reserves[i].clone_value()
        } else {
            BigUint::from_u64(0)
        }
    }

    fn lp_token_supply(&self) -> (r: BigUint)
        ensures
            r@ == self@.lp_token_supply,
    {
        self.lp_token_supply.clone_value()
    }

    fn lp_token(&self) -> (r: Vec<u8>)
        ensures
            r@ == self@.lp_token,
    {
        self.lp_token.clone()
    }

    fn multipliers(&self, i: usize) -> (r: BigUint)
        ensures
            r@ == if i < self@.multipliers.len() {
                self@.multipliers[i as int]
            } else {
                0
            },
    {
        if i < self.multipliers.len() {
            self.multipliers[i].clone_value()
        } else {
            BigUint::from_u64(0)
        }
    }

    fn nb_tokens(&self) -> (r: usize)
        ensures
            r == self@.nb_tokens(),
    {
        proof {
            use_type_invariant(self);
        }
        self.nb_tokens
    }
}

} // verus!
