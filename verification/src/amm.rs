//! The StableSwap invariant, solved with Newton's method.
//!
//! With `n` tokens, amplification `A` and precision-adjusted reserves `x_i`,
//! the invariant `D` satisfies
//! `A n^n sum(x_i) + D = A D n^n + D^(n+1) / (n^n prod(x_i))`.
//! `amm_get_d` finds `D` from the reserves; `amm_get_y` and `amm_get_yd` find
//! the reserve of one token that keeps (or sets) `D` when the others are given.
//! Each runs at most 255 Newton steps, in integer arithmetic rounded down, and
//! stops at the first step that moves its estimate by at most 1.
use crate::biguint::{values_of, BigUint};
use crate::errors::{div_or_err, value_result, StablePoolError};
use crate::maths::{spec_abs_diff, MathsModule};
use crate::StablePool;
use vstd::prelude::*;

verus! {

/// The number of Newton steps tried before giving up.
pub open spec fn newton_rounds() -> nat {
    255
}

/// `x_0 + x_1 + ... + x_(n-1)`.
pub open spec fn sum_nats(s: Seq<nat>) -> nat
    decreases s.len(),
{
    if s.len() == 0 {
        0
    } else {
        sum_nats(s.drop_last()) + s.last()
    }
}

/// The term `p = D^(n+1) / (n^n prod(x_i))` of a Newton step on `D`, built one
/// factor at a time from `j` on, each partial product rounded down:
/// `p <- p * D / (n * x_j)`.
pub open spec fn d_product(xp: Seq<nat>, d: nat, j: nat, p: nat) -> Result<nat, StablePoolError>
    decreases xp.len() - j,
{
    if j >= xp.len() {
        Ok(p)
    } else if xp.len() * xp[j as int] == 0 {
        Err(StablePoolError::DivisionByZero)
    } else {
        d_product(xp, d, j + 1, (p * d) / (xp.len() * xp[j as int]))
    }
}

/// One Newton step on `D`: `((a s + n p) D) / ((a - 1) D + (n + 1) p)` where
/// `a = A n`, `s` is the sum of the reserves and `p` is `d_product`.
pub open spec fn d_next(xp: Seq<nat>, a: nat, s: nat, d: nat) -> Result<nat, StablePoolError> {
    match d_product(xp, d, 0, d) {
        Err(e) => Err(e),
        Ok(p) => if a == 0 {
            Err(StablePoolError::NegativeSubtraction)
        } else {
            div_or_err((s * a + xp.len() * p) * d, d * ((a - 1) as nat) + p * (xp.len() + 1))
        },
    }
}

/// Newton's method on `D` from the estimate `d`, with `rounds` steps left.
pub open spec fn d_iterate(xp: Seq<nat>, a: nat, s: nat, d: nat, rounds: nat) -> Result<
    nat,
    StablePoolError,
>
    decreases rounds,
{
    if rounds == 0 {
        Err(StablePoolError::DDidNotConverge)
    } else {
        match d_next(xp, a, s, d) {
            Err(e) => Err(e),
            Ok(d2) => if spec_abs_diff(d2, d) <= 1 {
                Ok(d2)
            } else {
                d_iterate(xp, a, s, d2, (rounds - 1) as nat)
            },
        }
    }
}

/// `D` for the precision-adjusted reserves `xp` and amplification `amp`:
/// Newton's method started from the sum of the reserves.
pub open spec fn spec_get_d(xp: Seq<nat>, amp: nat) -> Result<nat, StablePoolError> {
    d_iterate(xp, xp.len() * amp, sum_nats(xp), sum_nats(xp), newton_rounds())
}

/// The sum `s` and the term `c` of the equation on one reserve, accumulated
/// from index `k` on: the reserve at `skip` is left out and the one at
/// `replace` is taken as `x` (`replace` wins over `skip`); each other reserve
/// `x_k` adds to `s` and turns `c` into `c * D / (n * x_k)`.
pub open spec fn sc_accumulate(
    xp: Seq<nat>,
    skip: int,
    replace: int,
    x: nat,
    d: nat,
    k: nat,
    s: nat,
    c: nat,
) -> Result<(nat, nat), StablePoolError>
    decreases xp.len() - k,
{
    if k >= xp.len() {
        Ok((s, c))
    } else if k != replace && k == skip {
        sc_accumulate(xp, skip, replace, x, d, k + 1, s, c)
    } else {
        let xk = if k == replace {
            x
        } else {
            xp[k as int]
        };
        if xp.len() * xk == 0 {
            Err(StablePoolError::DivisionByZero)
        } else {
            sc_accumulate(xp, skip, replace, x, d, k + 1, s + xk, (c * d) / (xp.len() * xk))
        }
    }
}

/// Newton's method on `y^2 + (b - D) y = c`: `y <- (y^2 + c) / (2y + b - D)`,
/// with `rounds` steps left.
pub open spec fn y_newton(c: nat, b: nat, d: nat, y: nat, rounds: nat) -> Result<
    nat,
    StablePoolError,
>
    decreases rounds,
{
    if rounds == 0 {
        Err(StablePoolError::YDidNotConverge)
    } else if y * 2 + b < d {
        Err(StablePoolError::NegativeSubtraction)
    } else if y * 2 + b - d == 0 {
        Err(StablePoolError::DivisionByZero)
    } else {
        let y2 = (y * y + c) / ((y * 2 + b - d) as nat);
        if spec_abs_diff(y2, y) <= 1 {
            Ok(y2)
        } else {
            y_newton(c, b, d, y2, (rounds - 1) as nat)
        }
    }
}

/// The reserve of one token for which the invariant equals `d`, given the
/// other reserves (see `sc_accumulate` for `skip`, `replace` and `x`):
/// `b = s + D / a`, `c = (c_acc * D) / (n a)` with `a = A n`, and Newton's
/// method on `y` started from `D`.
pub open spec fn y_from_d(xp: Seq<nat>, amp: nat, skip: int, replace: int, x: nat, d: nat) -> Result<
    nat,
    StablePoolError,
> {
    let a = xp.len() * amp;
    match sc_accumulate(xp, skip, replace, x, d, 0, 0, d) {
        Err(e) => Err(e),
        Ok(sc) => if xp.len() * a == 0 {
            Err(StablePoolError::DivisionByZero)
        } else {
            y_newton((sc.1 * d) / (xp.len() * a), sc.0 + d / a, d, d, newton_rounds())
        },
    }
}

/// The new reserve of token `j` once the reserve of token `i` becomes `x`,
/// keeping `D` of the reserves `xp`.
pub open spec fn spec_get_y(i: nat, j: nat, x: nat, xp: Seq<nat>, amp: nat) -> Result<
    nat,
    StablePoolError,
> {
    match spec_get_d(xp, amp) {
        Err(e) => Err(e),
        Ok(d) => y_from_d(xp, amp, j as int, i as int, x, d),
    }
}

/// The reserve of token `i` for which the invariant of `xp` equals `d`.
pub open spec fn spec_get_yd(i: nat, xp: Seq<nat>, d: nat, amp: nat) -> Result<nat, StablePoolError> {
    y_from_d(xp, amp, i as int, -1, 0, d)
}

/// An error of the arithmetic of the invariant: a division by zero, a
/// negative difference, or a Newton iteration that did not settle.
pub open spec fn is_arithmetic_error(e: StablePoolError) -> bool {
    ||| e == StablePoolError::DivisionByZero
    ||| e == StablePoolError::NegativeSubtraction
    ||| e == StablePoolError::DDidNotConverge
    ||| e == StablePoolError::YDidNotConverge
}

proof fn lemma_d_product_error(xp: Seq<nat>, d: nat, j: nat, p: nat)
    ensures
        d_product(xp, d, j, p) matches Err(e) ==> is_arithmetic_error(e),
    decreases xp.len() - j,
{
    if j < xp.len() && xp.len() * xp[j as int] != 0 {
        lemma_d_product_error(xp, d, j + 1, (p * d) / (xp.len() * xp[j as int]));
    }
}

proof fn lemma_d_iterate_error(xp: Seq<nat>, a: nat, s: nat, d: nat, rounds: nat)
    ensures
        d_iterate(xp, a, s, d, rounds) matches Err(e) ==> is_arithmetic_error(e),
    decreases rounds,
{
    if rounds > 0 {
        lemma_d_product_error(xp, d, 0, d);
        if let Ok(d2) = d_next(xp, a, s, d) {
            lemma_d_iterate_error(xp, a, s, d2, (rounds - 1) as nat);
        }
    }
}

proof fn lemma_accumulate_error(
    xp: Seq<nat>,
    skip: int,
    replace: int,
    x: nat,
    d: nat,
    k: nat,
    s: nat,
    c: nat,
)
    ensures
        sc_accumulate(xp, skip, replace, x, d, k, s, c) matches Err(e) ==> is_arithmetic_error(e),
    decreases xp.len() - k,
{
    if k < xp.len() {
        if k != replace && k == skip {
            lemma_accumulate_error(xp, skip, replace, x, d, k + 1, s, c);
        } else {
            let xk = if k == replace {
                x
            } else {
                xp[k as int]
            };
            if xp.len() * xk != 0 {
                lemma_accumulate_error(xp, skip, replace, x, d, k + 1, s + xk, (c * d) / (xp.len() * xk));
            }
        }
    }
}

proof fn lemma_y_newton_error(c: nat, b: nat, d: nat, y: nat, rounds: nat)
    ensures
        y_newton(c, b, d, y, rounds) matches Err(e) ==> is_arithmetic_error(e),
    decreases rounds,
{
    if rounds > 0 && y * 2 + b >= d && y * 2 + b - d != 0 {
        let y2 = (y * y + c) / ((y * 2 + b - d) as nat);
        lemma_y_newton_error(c, b, d, y2, (rounds - 1) as nat);
    }
}

/// Solving for one reserve fails, if it does, only by an arithmetic error.
pub(crate) proof fn lemma_get_y_error(i: nat, j: nat, x: nat, xp: Seq<nat>, amp: nat)
    ensures
        spec_get_y(i, j, x, xp, amp) matches Err(e) ==> is_arithmetic_error(e),
{
    lemma_d_iterate_error(xp, xp.len() * amp, sum_nats(xp), sum_nats(xp), newton_rounds());
    if let Ok(d) = spec_get_d(xp, amp) {
        lemma_accumulate_error(xp, j as int, i as int, x, d, 0, 0, d);
        if let Ok(sc) = sc_accumulate(xp, j as int, i as int, x, d, 0, 0, d) {
            let a = xp.len() * amp;
            if xp.len() * a != 0 {
                lemma_y_newton_error((sc.1 * d) / (xp.len() * a), sc.0 + d / a, d, d, newton_rounds());
            }
        }
    }
}

/// Reading the reserve at `i` as `x` is reading `xp` with `x` written at `i`.
pub(crate) proof fn lemma_accumulate_replace(
    xp: Seq<nat>,
    i: nat,
    j: nat,
    x: nat,
    d: nat,
    k: nat,
    s: nat,
    c: nat,
)
    requires
        i < xp.len(),
        i != j,
    ensures
        sc_accumulate(xp, j as int, i as int, x, d, k, s, c) == sc_accumulate(
            xp.update(i as int, x),
            j as int,
            -1,
            0,
            d,
            k,
            s,
            c,
        ),
    decreases xp.len() - k,
{
    let ys = xp.update(i as int, x);
    assert(ys.len() == xp.len());
    if k < xp.len() {
        if k != i && k == j {
            lemma_accumulate_replace(xp, i, j, x, d, k + 1, s, c);
        } else {
            let xk = if k == i {
                x
            } else {
                xp[k as int]
            };
            assert(ys[k as int] == xk);
            lemma_accumulate_replace(
                xp,
                i,
                j,
                x,
                d,
                k + 1,
                s + xk,
                (c * d) / (xp.len() * xk),
            );
        }
    }
}

/// The reserve left out does not enter the sums.
pub(crate) proof fn lemma_accumulate_skipped(
    xp: Seq<nat>,
    i: nat,
    v: nat,
    d: nat,
    k: nat,
    s: nat,
    c: nat,
)
    requires
        i < xp.len(),
    ensures
        sc_accumulate(xp.update(i as int, v), i as int, -1, 0, d, k, s, c) == sc_accumulate(
            xp,
            i as int,
            -1,
            0,
            d,
            k,
            s,
            c,
        ),
    decreases xp.len() - k,
{
    let ys = xp.update(i as int, v);
    assert(ys.len() == xp.len());
    if k < xp.len() {
        if k == i {
            lemma_accumulate_skipped(xp, i, v, d, k + 1, s, c);
        } else {
            assert(ys[k as int] == xp[k as int]);
            let xk = xp[k as int];
            lemma_accumulate_skipped(xp, i, v, d, k + 1, s + xk, (c * d) / (xp.len() * xk));
        }
    }
}

/// The position that `sc_accumulate` reads as `x`, if any.
pub open spec fn replace_index(replace: Option<usize>) -> int {
    match replace {
        Some(i) => i as int,
        None => -1,
    }
}

/// The StableSwap equations.
pub trait AmmModule: MathsModule {
    /// The amplification factor `A`.
    fn amp_factor(&self) -> u32;

    /// `D` of the precision-adjusted reserves `xp`.
    fn amm_get_d(&self, xp: &Vec<BigUint>) -> Result<BigUint, StablePoolError>
        requires
            xp.len() <= i64::MAX,
    ;

    /// The new balance of token `j` once the balance of token `i` is `x`.
    fn amm_get_y(&self, i: usize, j: usize, x: BigUint, xp: Vec<BigUint>) -> Result<
        BigUint,
        StablePoolError,
    >
        requires
            xp.len() <= i64::MAX,
    ;

    /// The balance of token `i` for which the invariant of `xp` equals `d`.
    fn amm_get_yd(&self, i: usize, xp: &Vec<BigUint>, d: &BigUint) -> Result<
        BigUint,
        StablePoolError,
    >
        requires
            xp.len() <= i64::MAX,
    ;
}

impl StablePool {
    /// Newton's method on `y`, given `D`, the reserves and which of them to
    /// leave out or replace.
    fn solve_y(
        &self,
        xp: &Vec<BigUint>,
        skip: usize,
        replace: Option<usize>,
        x: &BigUint,
        d: &BigUint,
    ) -> (r: Result<BigUint, StablePoolError>)
        requires
            xp.len() <= i64::MAX,
        ensures
            value_result(r) == y_from_d(
                values_of(xp@),
                self@.amp_factor,
                skip as int,
                replace_index(replace),
                x@,
                d@,
            ),
    {
        let ghost xs = values_of(xp@);
        let ghost amp = self@.amp_factor;
        let ghost sk = skip as int;
        let ghost rp = replace_index(replace);
        let n = xp.len();
        let n_big = BigUint::from_u64(n as u64);
        let a = n_big.times(&BigUint::from_u64(self.amp_factor as u64));
        proof {
            assert(a@ == xs.len() * amp);
        }
        let zero = BigUint::from_u64(0);
        let mut s = BigUint::from_u64(0);
        let mut c = d.clone_value();
        let mut k: usize = 0;
        while k < n
            invariant
                n == xp.len(),
                xs == values_of(xp@),
                n_big@ == n,
                zero@ == 0,
                sk == skip as int,
                rp == replace_index(replace),
                0 <= k <= n,
                sc_accumulate(xs, sk, rp, x@, d@, k as nat, s@, c@) == sc_accumulate(
                    xs,
                    sk,
                    rp,
                    x@,
                    d@,
                    0,
                    0,
                    d@,
                ),
            decreases n - k,
        {
            let is_replaced = match replace {
                Some(ri) => ri == k,
                None => false,
            };
            if !is_replaced && k == skip {
                k += 1;
                continue;
            }
            let xk = if is_replaced {
                x
            } else {
                &xp[k]
            };
            let den = n_big.times(xk);
            if den.equals(&zero) {
                return Err(StablePoolError::DivisionByZero);
            }
            s = s.plus(xk);
            c = c.times(d).quotient(&den);
            k += 1;
        }
        let den = n_big.times(&a);
        if den.equals(&zero) {
            return Err(StablePoolError::DivisionByZero);
        }
        let c = c.times(d).quotient(&den);
        proof {
            let (nb, aa) = (n_big@, a@);
            assert(aa > 0) by (nonlinear_arith)
                requires
                    nb * aa != 0,
            ;
        }
        let b = s.plus(&d.quotient(&a));
        let one = BigUint::from_u64(1);
        let two = BigUint::from_u64(2);
        let mut y = d.clone_value();
        let mut round: u32 = 0;
        while round < 255
            invariant
                one@ == 1,
                two@ == 2,
                zero@ == 0,
                round <= 255,
                y_from_d(xs, amp, sk, rp, x@, d@) == y_newton(c@, b@, d@, y@, (255 - round) as nat),
                xs == values_of(xp@),
                amp == self@.amp_factor,
                sk == skip as int,
                rp == replace_index(replace),
            decreases 255 - round,
        {
            let num = y.times(&y).plus(&c);
            let t = y.times(&two).plus(&b);
            if t.less_than(d) {
                return Err(StablePoolError::NegativeSubtraction);
            }
            let den = t.minus(d);
            if den.equals(&zero) {
                return Err(StablePoolError::DivisionByZero);
            }
            let y_prev = y;
            y = num.quotient(&den);
            if !one.less_than(&self.abs_diff(&y, &y_prev)) {
                return Ok(y);
            }
            round += 1;
        }
        Err(StablePoolError::YDidNotConverge)
    }
}

impl AmmModule for StablePool {
    fn amp_factor(&self) -> (r: u32)
        ensures
            r == self@.amp_factor,
    {
        self.amp_factor
    }

    fn amm_get_d(&self, xp: &Vec<BigUint>) -> (r: Result<BigUint, StablePoolError>)
        ensures
            value_result(r) == spec_get_d(values_of(xp@), self@.amp_factor),
    {
        let ghost xs = values_of(xp@);
        let n = xp.len();
        let n_big = BigUint::from_u64(n as u64);
        let a = n_big.times(&BigUint::from_u64(self.amp_factor as u64));
        let zero = BigUint::from_u64(0);
        let one = BigUint::from_u64(1);
        let mut s = BigUint::from_u64(0);
        let mut k: usize = 0;
        while k < n
            invariant
                n == xp.len(),
                xs == values_of(xp@),
                0 <= k <= n,
                s@ == sum_nats(xs.take(k as int)),
            decreases n - k,
        {
            proof {
                assert(xs.take(k + 1).drop_last() =~= xs.take(k as int));
            }
            s = s.plus(&xp[k]);
            k += 1;
        }
        proof {
            assert(xs.take(n as int) =~= xs);
        }
        let mut d = s.clone_value();
        let mut round: u32 = 0;
        while round < 255
            invariant
                n == xp.len(),
                xs == values_of(xp@),
                n_big@ == n,
                a@ == xs.len() * self@.amp_factor,
                zero@ == 0,
                one@ == 1,
                round <= 255,
                spec_get_d(xs, self@.amp_factor) == d_iterate(
                    xs,
                    a@,
                    s@,
                    d@,
                    (255 - round) as nat,
                ),
            decreases 255 - round,
        {
            let mut p = d.clone_value();
            let mut j: usize = 0;
            while j < n
                invariant
                    n == xp.len(),
                    xs == values_of(xp@),
                    n_big@ == n,
                    zero@ == 0,
                    0 <= j <= n,
                    d_product(xs, d@, j as nat, p@) == d_product(xs, d@, 0, d@),
                    round < 255,
                    spec_get_d(xs, self@.amp_factor) == d_iterate(
                        xs,
                        a@,
                        s@,
                        d@,
                        (255 - round) as nat,
                    ),
                decreases n - j,
            {
                let den = n_big.times(&xp[j]);
                if den.equals(&zero) {
                        return Err(StablePoolError::DivisionByZero);
                }
                p = p.times(&d).quotient(&den);
                j += 1;
            }
            let num = s.times(&a).plus(&n_big.times(&p)).times(&d);
            if a.less_than(&one) {
                return Err(StablePoolError::NegativeSubtraction);
            }
            let den = d.times(&a.minus(&one)).plus(&p.times(&n_big.plus(&one)));
            if den.equals(&zero) {
                return Err(StablePoolError::DivisionByZero);
            }
            let d_prev = d;
            d = num.quotient(&den);
            if !one.less_than(&self.abs_diff(&d, &d_prev)) {
                return Ok(d);
            }
            round += 1;
        }
        Err(StablePoolError::DDidNotConverge)
    }

    fn amm_get_y(&self, i: usize, j: usize, x: BigUint, xp: Vec<BigUint>) -> (r: Result<
        BigUint,
        StablePoolError,
    >)
        ensures
            value_result(r) == spec_get_y(i as nat, j as nat, x@, values_of(xp@), self@.amp_factor),
    {
        let d = match self.amm_get_d(&xp) {
            Ok(d) => d,
            Err(e) => {
                return Err(e);
            },
        };
        self.solve_y(&xp, j, Some(i), &x, &d)
    }

    fn amm_get_yd(&self, i: usize, xp: &Vec<BigUint>, d: &BigUint) -> (r: Result<
        BigUint,
        StablePoolError,
    >)
        ensures
            value_result(r) == spec_get_yd(i as nat, values_of(xp@), d@, self@.amp_factor),
    {
        self.solve_y(xp, i, None, &BigUint::from_u64(0), d)
    }
}

} // verus!
