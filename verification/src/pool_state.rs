//! The pool-wide totals, how interest accrues to them, and how one
//! operation changes them together with one account.
//!
//! Everything here works on plain records, so that a caller who keeps the
//! records elsewhere can load the two it needs, ask for the change, and
//! store the result.

use crate::collateral::{Account, CollateralManager, Liquidation};
use crate::error::Error;
use crate::fixed_point::{
    checked_mul3_div, checked_mul_div, fits, lemma_trunc_div_bounds, mul3_div, mul_div,
    mul_div_fits, INDEX_SCALE, SCALE, YEAR_SCALE,
};
use crate::interest_rate_model::{InterestRateModel, RateCurveParameters};
use vstd::prelude::*;

verus! {

/// The totals of a pool.
#[derive(Clone, Copy, Debug, PartialEq, Eq, Structural)]
pub struct PoolState {
    /// Units of the lendable asset supplied and not withdrawn.
    pub total_deposits: i128,
    /// Units of the lendable asset lent out, with the interest accrued on
    /// them.
    pub total_borrows: i128,
    /// The growth of one unit of debt since the pool was opened, at scale
    /// `INDEX_SCALE`.
    pub borrow_index: i128,
    /// The clock reading up to which interest has accrued, in seconds.
    pub last_accrual_time: u64,
}

impl PoolState {
    /// The state of a pool opened at the time `now`.
    pub open spec fn opened_at(now: u64) -> PoolState {
        PoolState {
            total_deposits: 0,
            total_borrows: 0,
            borrow_index: INDEX_SCALE,
            last_accrual_time: now,
        }
    }

    /// The pool has lent out no more than was supplied to it.
    pub open spec fn solvent(self) -> bool {
        self.total_borrows <= self.total_deposits
    }

    /// What the pool can still hand out.
    pub open spec fn liquidity(self) -> int {
        self.total_deposits - self.total_borrows
    }

    /// The share of the deposits that is lent out, at scale `SCALE`; zero
    /// for a pool without deposits.
    pub open spec fn utilization(self) -> int {
        if self.total_deposits == 0 {
            0
        } else {
            mul_div(self.total_borrows as int, SCALE as int, self.total_deposits as int)
        }
    }

    /// Whether every step of `utilization` fits in 128 bits.
    pub open spec fn utilization_fits(self) -> bool {
        self.total_deposits == 0 || mul_div_fits(
            self.total_borrows as int,
            SCALE as int,
            self.total_deposits as int,
        )
    }

    /// The seconds from the last accrual to `now`; zero where `now` is not
    /// later.
    pub open spec fn elapsed(self, now: u64) -> int {
        if now > self.last_accrual_time {
            now - self.last_accrual_time
        } else {
            0
        }
    }

    /// The interest on the total debt from the last accrual to `now` at the
    /// annual `rate`: simple interest, linear in the time.
    pub open spec fn interest(self, rate: int, now: u64) -> int {
        mul3_div(self.total_borrows as int, rate, self.elapsed(now), YEAR_SCALE as int)
    }

    /// What the borrow index gains from the last accrual to `now` at the
    /// annual `rate`: the same proportion as the total debt.
    pub open spec fn index_growth(self, rate: int, now: u64) -> int {
        mul3_div(self.borrow_index as int, rate, self.elapsed(now), YEAR_SCALE as int)
    }

    /// Whether the accrual up to `now` fits in 128 bits: the interest and
    /// the new total debt, the growth of the index and the new index. The
    /// products behind them are held exactly, however wide they are.
    pub open spec fn accrual_fits(self, rate: int, now: u64) -> bool {
        &&& fits(self.interest(rate, now))
        &&& fits(self.total_borrows + self.interest(rate, now))
        &&& fits(self.index_growth(rate, now))
        &&& fits(self.borrow_index + self.index_growth(rate, now))
    }

    /// The state after interest accrued up to `now` at the annual `rate`.
    pub open spec fn accrued(self, rate: int, now: u64) -> PoolState {
        PoolState {
            total_deposits: self.total_deposits,
            total_borrows: (self.total_borrows + self.interest(rate, now)) as i128,
            borrow_index: (self.borrow_index + self.index_growth(rate, now)) as i128,
            last_accrual_time: now,
        }
    }

    /// What `accrue` returns.
    pub open spec fn accrual_result(self, rate: i128, now: u64) -> Result<PoolState, Error> {
        if now <= self.last_accrual_time {
            Ok(self)
        } else if !self.accrual_fits(rate as int, now) {
            Err(Error::Overflow)
        } else {
            Ok(self.accrued(rate as int, now))
        }
    }

    /// What `accrue_with` returns: the accrual up to `now` at the rate that
    /// `curve` gives for the utilization before it.
    pub open spec fn accrual_outcome(self, curve: RateCurveParameters, now: u64) -> Result<
        PoolState,
        Error,
    > {
        if now <= self.last_accrual_time {
            Ok(self)
        } else if !self.utilization_fits() || !curve.borrow_rate_fits(self.utilization()) {
            Err(Error::Overflow)
        } else {
            self.accrual_result(curve.borrow_rate(self.utilization()) as i128, now)
        }
    }

    /// Whether an accrual up to `now` under `curve` charges no negative
    /// rate: no time has passed, or the rate at the present utilization is
    /// not negative.
    pub open spec fn accrues_without_loss(self, curve: RateCurveParameters, now: u64) -> bool {
        now <= self.last_accrual_time || curve.borrow_rate(self.utilization()) >= 0
    }

    /// What `deposit` returns.
    pub open spec fn deposit_outcome(self, account: Account, amount: i128) -> Result<
        (PoolState, Account),
        Error,
    > {
        if amount <= 0 {
            Err(Error::InvalidInput)
        } else if !fits(account.deposit_balance + amount) || !fits(self.total_deposits + amount) {
            Err(Error::Overflow)
        } else {
            Ok(
                (
                    PoolState { total_deposits: (self.total_deposits + amount) as i128, ..self },
                    Account {
                        deposit_balance: (account.deposit_balance + amount) as i128,
                        ..account
                    },
                ),
            )
        }
    }

    /// What `withdraw` returns.
    pub open spec fn withdraw_outcome(self, account: Account, amount: i128) -> Result<
        (PoolState, Account),
        Error,
    > {
        if amount <= 0 {
            Err(Error::InvalidInput)
        } else if amount > account.deposit_balance {
            Err(Error::InsufficientBalance)
        } else if amount > self.liquidity() {
            Err(Error::InsufficientLiquidity)
        } else if !fits(self.total_deposits - amount) {
            Err(Error::Overflow)
        } else {
            Ok(
                (
                    PoolState { total_deposits: (self.total_deposits - amount) as i128, ..self },
                    Account {
                        deposit_balance: (account.deposit_balance - amount) as i128,
                        ..account
                    },
                ),
            )
        }
    }

    /// What `borrow` returns.
    pub open spec fn borrow_outcome(self, account: Account, amount: i128, capacity: i128) -> Result<
        (PoolState, Account),
        Error,
    > {
        if amount <= 0 {
            Err(Error::InvalidInput)
        } else if amount > self.liquidity() {
            Err(Error::InsufficientLiquidity)
        } else if account.borrow_balance + amount > capacity {
            Err(Error::ExceedsCapacity)
        } else if !fits(self.total_borrows + amount) {
            Err(Error::Overflow)
        } else {
            Ok(
                (
                    PoolState { total_borrows: (self.total_borrows + amount) as i128, ..self },
                    Account {
                        borrow_balance: (account.borrow_balance + amount) as i128,
                        borrow_index_snapshot: self.borrow_index,
                        ..account
                    },
                ),
            )
        }
    }

    /// The units that a repayment of `amount` settles: `amount`, capped at
    /// what the account owes.
    pub open spec fn repayment(account: Account, amount: i128) -> i128 {
        if amount > account.borrow_balance {
            account.borrow_balance
        } else {
            amount
        }
    }

    /// What `repay` returns.
    pub open spec fn repay_outcome(self, account: Account, amount: i128) -> Result<
        (PoolState, Account, i128),
        Error,
    > {
        let repaid = Self::repayment(account, amount);
        if amount <= 0 {
            Err(Error::InvalidInput)
        } else if account.borrow_balance <= 0 {
            Err(Error::NoOutstandingDebt)
        } else if !fits(self.total_borrows - repaid) {
            Err(Error::Overflow)
        } else {
            Ok(
                (
                    PoolState { total_borrows: (self.total_borrows - repaid) as i128, ..self },
                    Account {
                        borrow_balance: (account.borrow_balance - repaid) as i128,
                        borrow_index_snapshot: self.borrow_index,
                        ..account
                    },
                    repaid,
                ),
            )
        }
    }

    /// What `liquidate` returns.
    pub open spec fn liquidation_outcome(
        self,
        manager: CollateralManager,
        borrower: Account,
        collateral_price: i128,
        borrow_price: i128,
    ) -> Result<(PoolState, Account, Liquidation), Error> {
        match manager.liquidation_outcome(borrower, collateral_price, borrow_price) {
            Err(e) => Err(e),
            Ok((after, moved)) => if !fits(self.total_borrows - moved.repaid) {
                Err(Error::Overflow)
            } else {
                Ok(
                    (
                        PoolState {
                            total_borrows: (self.total_borrows - moved.repaid) as i128,
                            ..self
                        },
                        Account { borrow_index_snapshot: self.borrow_index, ..after },
                        moved,
                    ),
                )
            },
        }
    }

    /// Accruing twice up to the same time is accruing once: the second
    /// accrual changes nothing, whatever rate it is given.
    pub proof fn lemma_accrual_idempotent(self, rate: i128, again: i128, now: u64)
        requires
            self.accrual_result(rate, now) is Ok,
        ensures
            self.accrual_result(rate, now).unwrap().accrual_result(again, now)
                == self.accrual_result(rate, now),
    {
    }

    /// Accruing twice up to the same time is accruing once, with the rate
    /// read from a curve each time.
    pub proof fn lemma_accrual_outcome_idempotent(
        self,
        curve: RateCurveParameters,
        again: RateCurveParameters,
        now: u64,
    )
        requires
            self.accrual_outcome(curve, now) is Ok,
        ensures
            self.accrual_outcome(curve, now).unwrap().accrual_outcome(again, now)
                == self.accrual_outcome(curve, now),
    {
    }

    /// At a rate that is not negative, an accrual takes nothing from the
    /// total debt of a pool whose debt is not negative, nor from its borrow
    /// index where that is not negative.
    pub proof fn lemma_accrual_grows(self, rate: int, now: u64)
        requires
            rate >= 0,
        ensures
            self.total_borrows >= 0 ==> self.interest(rate, now) >= 0,
            self.borrow_index >= 0 ==> self.index_growth(rate, now) >= 0,
    {
        let t = self.elapsed(now);
        if self.total_borrows >= 0 {
            let b = self.total_borrows as int;
            assert(b * rate * t >= 0) by (nonlinear_arith)
                requires
                    b >= 0,
                    rate >= 0,
                    t >= 0,
            ;
            lemma_trunc_div_bounds(b * rate * t, YEAR_SCALE as int);
        }
        if self.borrow_index >= 0 {
            let i = self.borrow_index as int;
            assert(i * rate * t >= 0) by (nonlinear_arith)
                requires
                    i >= 0,
                    rate >= 0,
                    t >= 0,
            ;
            lemma_trunc_div_bounds(i * rate * t, YEAR_SCALE as int);
        }
    }

    /// The state of a pool opened at the time `now`: no deposits, no debt,
    /// a borrow index of 1.0.
    pub fn new(now: u64) -> (state: PoolState)
        ensures
            state == PoolState::opened_at(now),
    {
        PoolState {
            total_deposits: 0,
            total_borrows: 0,
            borrow_index: INDEX_SCALE,
            last_accrual_time: now,
        }
    }

    /// The utilization: `total_borrows * SCALE / total_deposits`, or zero for
    /// a pool without deposits.
    ///
    /// Refused with `Overflow` exactly where a step does not fit in 128 bits.
    pub fn get_utilization_rate(&self) -> (r: Result<i128, Error>)
        ensures
            match r {
                Ok(utilization) => {
                    &&& self.utilization_fits()
                    &&& utilization == self.utilization()
                },
                Err(e) => e == Error::Overflow && !self.utilization_fits(),
            },
    {
        if self.total_deposits == 0 {
            return Ok(0);
        }
        match checked_mul_div(self.total_borrows, SCALE, self.total_deposits) {
            Some(utilization) => Ok(utilization),
            None => Err(Error::Overflow),
        }
    }

    fn grown(amount: i128, rate: i128, seconds: u64) -> (r: Option<i128>)
        ensures
            r is Some <==> {
                &&& fits(mul3_div(amount as int, rate as int, seconds as int, YEAR_SCALE as int))
                &&& fits(
                    amount + mul3_div(amount as int, rate as int, seconds as int, YEAR_SCALE as int),
                )
            },
            r matches Some(v) ==> v == amount + mul3_div(
                amount as int,
                rate as int,
                seconds as int,
                YEAR_SCALE as int,
            ),
    {
        match checked_mul3_div(amount, rate, seconds, YEAR_SCALE as u64) {
            Some(gain) => amount.checked_add(gain),
            None => None,
        }
    }

    /// The state after interest accrued up to `now` at the annual `rate`.
    ///
    /// Where `now` is not later than the last accrual, the state is
    /// returned as it is. Otherwise the interest
    /// `total_borrows * rate * elapsed / (SECONDS_PER_YEAR * SCALE)` is added
    /// to the total debt, the borrow index grows in the same proportion,
    /// and the time of the last accrual becomes `now`.
    ///
    /// The products are held exactly, however wide they are. Refused with
    /// `Overflow` exactly where time has passed and the interest, the new
    /// total debt, the growth of the index or the new index does not fit in
    /// 128 bits.
    pub fn accrue(&self, rate: i128, now: u64) -> (r: Result<PoolState, Error>)
        ensures
            r == self.accrual_result(rate, now),
            now <= self.last_accrual_time ==> r == Ok::<PoolState, Error>(*self),
    {
        if now <= self.last_accrual_time {
            return Ok(*self);
        }
        let seconds: u64 = now - self.last_accrual_time;
        let Some(total_borrows) = Self::grown(self.total_borrows, rate, seconds) else {
            return Err(Error::Overflow);
        };
        let Some(borrow_index) = Self::grown(self.borrow_index, rate, seconds) else {
            return Err(Error::Overflow);
        };
        Ok(
            PoolState {
                total_deposits: self.total_deposits,
                total_borrows,
                borrow_index,
                last_accrual_time: now,
            },
        )
    }

    /// The state after interest accrued up to `now`, at the borrow rate
    /// that `model` gives for the utilization before the accrual.
    ///
    /// Where `now` is not later than the last accrual, the state is
    /// returned as it is and the model is not asked. Otherwise refused with
    /// `Overflow` exactly where the utilization, the rate or the accrual
    /// does not fit in 128 bits.
    pub fn accrue_with(&self, model: &InterestRateModel, now: u64) -> (r: Result<PoolState, Error>)
        ensures
            r == self.accrual_outcome(model.curve(), now),
            now <= self.last_accrual_time ==> r == Ok::<PoolState, Error>(*self),
    {
        if now <= self.last_accrual_time {
            return Ok(*self);
        }
        let utilization: i128 = self.get_utilization_rate()?;
        let rate: i128 = model.get_borrow_rate(utilization)?;
        self.accrue(rate, now)
    }

    /// Whether the pool's deposits exceed its debt by less than `amount`.
    pub fn lacks_liquidity(&self, amount: i128) -> (short: bool)
        ensures
            short == (amount > self.liquidity()),
    {
        match self.total_deposits.checked_sub(self.total_borrows) {
            Some(liquidity) => amount > liquidity,
            None => self.total_borrows > 0,
        }
    }

    /// Adds `amount` to the account's deposits and to the pool's.
    ///
    /// Refused with `InvalidInput` where `amount` is not positive, else with
    /// `Overflow` where a new balance does not fit in 128 bits.
    pub fn deposit(&self, account: &Account, amount: i128) -> (r: Result<(PoolState, Account), Error>)
        ensures
            r == self.deposit_outcome(*account, amount),
    {
        if amount <= 0 {
            return Err(Error::InvalidInput);
        }
        let Some(deposit_balance) = account.deposit_balance.checked_add(amount) else {
            return Err(Error::Overflow);
        };
        let Some(total_deposits) = self.total_deposits.checked_add(amount) else {
            return Err(Error::Overflow);
        };
        Ok((PoolState { total_deposits, ..*self }, Account { deposit_balance, ..*account }))
    }

    /// Takes `amount` from the account's deposits and from the pool's.
    ///
    /// Refused with `InvalidInput` where `amount` is not positive, else with
    /// `InsufficientBalance` where the account has deposited less, else with
    /// `InsufficientLiquidity` where the pool's deposits exceed its debt by
    /// less, else with `Overflow` where the new total does not fit in 128
    /// bits.
    pub fn withdraw(&self, account: &Account, amount: i128) -> (r: Result<
        (PoolState, Account),
        Error,
    >)
        ensures
            r == self.withdraw_outcome(*account, amount),
    {
        if amount <= 0 {
            return Err(Error::InvalidInput);
        }
        if amount > account.deposit_balance {
            return Err(Error::InsufficientBalance);
        }
        if self.lacks_liquidity(amount) {
            return Err(Error::InsufficientLiquidity);
        }
        let Some(total_deposits) = self.total_deposits.checked_sub(amount) else {
            return Err(Error::Overflow);
        };
        Ok(
            (
                PoolState { total_deposits, ..*self },
                Account { deposit_balance: account.deposit_balance - amount, ..*account },
            ),
        )
    }

    /// Adds `amount` to the account's debt and to the pool's; `capacity` is
    /// the most that the account may owe.
    ///
    /// Refused with `InvalidInput` where `amount` is not positive, else with
    /// `InsufficientLiquidity` where the pool's deposits exceed its debt by
    /// less, else with `ExceedsCapacity` where the account would owe more
    /// than `capacity`, else with `Overflow` where the new total does not
    /// fit in 128 bits.
    pub fn borrow(&self, account: &Account, amount: i128, capacity: i128) -> (r: Result<
        (PoolState, Account),
        Error,
    >)
        ensures
            r == self.borrow_outcome(*account, amount, capacity),
    {
        if amount <= 0 {
            return Err(Error::InvalidInput);
        }
        if self.lacks_liquidity(amount) {
            return Err(Error::InsufficientLiquidity);
        }
        let Some(borrow_balance) = account.borrow_balance.checked_add(amount) else {
            return Err(Error::ExceedsCapacity);
        };
        if borrow_balance > capacity {
            return Err(Error::ExceedsCapacity);
        }
        let Some(total_borrows) = self.total_borrows.checked_add(amount) else {
            return Err(Error::Overflow);
        };
        Ok(
            (
                PoolState { total_borrows, ..*self },
                Account { borrow_balance, borrow_index_snapshot: self.borrow_index, ..*account },
            ),
        )
    }

    /// Takes `amount`, or the whole debt where that is less, from the
    /// account's debt and from the pool's, and says how much it took.
    ///
    /// Refused with `InvalidInput` where `amount` is not positive, else with
    /// `NoOutstandingDebt` where the account owes nothing, else with
    /// `Overflow` where the new total does not fit in 128 bits.
    pub fn repay(&self, account: &Account, amount: i128) -> (r: Result<
        (PoolState, Account, i128),
        Error,
    >)
        ensures
            r == self.repay_outcome(*account, amount),
    {
        if amount <= 0 {
            return Err(Error::InvalidInput);
        }
        if account.borrow_balance <= 0 {
            return Err(Error::NoOutstandingDebt);
        }
        let repaid: i128 = if amount > account.borrow_balance {
            account.borrow_balance
        } else {
            amount
        };
        let Some(total_borrows) = self.total_borrows.checked_sub(repaid) else {
            return Err(Error::Overflow);
        };
        Ok(
            (
                PoolState { total_borrows, ..*self },
                Account {
                    borrow_balance: account.borrow_balance - repaid,
                    borrow_index_snapshot: self.borrow_index,
                    ..*account
                },
                repaid,
            ),
        )
    }

    /// Liquidates the borrower's position as `manager` rules, and takes the
    /// repaid debt from the pool's.
    ///
    /// Refused as `CollateralManager::liquidate` refuses, else with
    /// `Overflow` where the new total does not fit in 128 bits.
    pub fn liquidate(
        &self,
        manager: &CollateralManager,
        borrower: &Account,
        collateral_price: i128,
        borrow_price: i128,
    ) -> (r: Result<(PoolState, Account, Liquidation), Error>)
        ensures
            r == self.liquidation_outcome(*manager, *borrower, collateral_price, borrow_price),
    {
        let (after, moved): (Account, Liquidation) = manager.liquidate(
            borrower,
            collateral_price,
            borrow_price,
        )?;
        let Some(total_borrows) = self.total_borrows.checked_sub(moved.repaid) else {
            return Err(Error::Overflow);
        };
        Ok(
            (
                PoolState { total_borrows, ..*self },
                Account { borrow_index_snapshot: self.borrow_index, ..after },
                moved,
            ),
        )
    }
}

} // verus!
