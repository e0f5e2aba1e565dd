//! The pool ledger: the totals of the pool, the account of every
//! participant, and the operations that change them.
//!
//! Every operation that changes the ledger first lets interest accrue up to
//! the present, then checks, then commits. An operation that is refused
//! leaves the ledger exactly as it was, accrual included.

use crate::collateral::{Account, CollateralManager, Liquidation, RiskParameters, HEALTH_FACTOR_MAX};
use crate::error::Error;
use crate::fixed_point::{lemma_mul_div_nonnegative, INDEX_SCALE, SCALE};
use crate::interest_rate_model::{InterestRateModel, RateCurveParameters};
use crate::pool_state::PoolState;
use crate::price_oracle::{PriceOracle, PriceOracleView, USDC, XLM};
use crate::totals::{lemma_sum_empty, lemma_sum_insert, lemma_sum_non_negative, sum};
use std::collections::HashMap;
use vstd::prelude::*;

verus! {

/// What each account has deposited.
pub open spec fn deposit_balances(accounts: Map<u64, Account>) -> Map<u64, int> {
    Map::new(
        |user: u64| accounts.contains_key(user),
        |user: u64| accounts[user].deposit_balance as int,
    )
}

/// What each account owes.
pub open spec fn borrow_balances(accounts: Map<u64, Account>) -> Map<u64, int> {
    Map::new(
        |user: u64| accounts.contains_key(user),
        |user: u64| accounts[user].borrow_balance as int,
    )
}

/// What a lending pool holds.
pub struct LendingPoolView {
    /// Who set the pool up; `None` before initialization.
    pub admin: Option<u64>,
    /// The risk engine.
    pub manager: CollateralManager,
    /// The totals.
    pub state: PoolState,
    /// The accounts of those who have dealt with the pool.
    pub accounts: Map<u64, Account>,
}

/// What an operation finds outside the pool when it is called.
pub struct Conditions {
    /// The rate curve in force.
    pub curve: RateCurveParameters,
    /// The oracle's prices.
    pub oracle: PriceOracleView,
    /// The clock reading, in seconds.
    pub now: u64,
}

/// A call of one operation that may change the ledger.
pub enum Operation {
    /// Let interest accrue.
    Accrue,
    /// Supply the lendable asset.
    Deposit { caller: u64, user: u64, amount: i128 },
    /// Take supplied units back.
    Withdraw { caller: u64, user: u64, amount: i128 },
    /// Put up collateral.
    DepositCollateral { caller: u64, user: u64, amount: i128 },
    /// Take collateral back.
    WithdrawCollateral { caller: u64, user: u64, amount: i128 },
    /// Draw the lendable asset against collateral.
    Borrow { caller: u64, user: u64, amount: i128 },
    /// Pay debt back.
    Repay { caller: u64, user: u64, amount: i128 },
    /// Close an undercollateralized position.
    Liquidate { caller: u64, liquidator: u64, borrower: u64 },
}

impl LendingPoolView {
    /// The account of `user`; the empty account where `user` never dealt
    /// with the pool.
    pub open spec fn account(self, user: u64) -> Account {
        if self.accounts.contains_key(user) {
            self.accounts[user]
        } else {
            Account::empty()
        }
    }

    /// Every account is well formed, the risk parameters are valid, and a
    /// pool that was not initialized has no accounts.
    pub open spec fn wf(self) -> bool {
        &&& self.accounts.dom().finite()
        &&& forall|user: u64| self.accounts.contains_key(user) ==> #[trigger] self.accounts[user].wf()
        &&& self.manager.risk.valid()
        &&& self.admin is None ==> self.accounts == Map::<u64, Account>::empty()
    }

    /// The books balance: the total of deposits is the sum of what the
    /// accounts have deposited, the total debt is at least the sum of what
    /// the accounts owe (the rest is accrued interest), and the borrow
    /// index has not fallen below 1.0.
    pub open spec fn balanced(self) -> bool {
        &&& self.state.total_deposits == sum(deposit_balances(self.accounts))
        &&& self.state.total_borrows >= sum(borrow_balances(self.accounts))
        &&& self.state.borrow_index >= INDEX_SCALE
    }

    /// Why `caller` may not act for `principal`, if so.
    pub open spec fn gate(self, caller: u64, principal: u64) -> Option<Error> {
        if self.admin is None {
            Some(Error::NotInitialized)
        } else if caller != principal {
            Some(Error::Unauthorized)
        } else {
            None
        }
    }

    /// How an operation that `caller` asks for on behalf of `principal`
    /// begins: with the totals after interest accrued up to `now`, unless
    /// the caller is turned away or the accrual does not fit in 128 bits.
    pub open spec fn entry(
        self,
        curve: RateCurveParameters,
        caller: u64,
        principal: u64,
        now: u64,
    ) -> Result<PoolState, Error> {
        match self.gate(caller, principal) {
            Some(e) => Err(e),
            None => self.state.accrual_outcome(curve, now),
        }
    }

    /// The pool with the totals `state` and with `account` as the account of
    /// `user`.
    pub open spec fn updated(self, state: PoolState, user: u64, account: Account) -> LendingPoolView {
        LendingPoolView { state, accounts: self.accounts.insert(user, account), ..self }
    }

    /// The prices of the collateral asset and of the lendable asset, as a
    /// solvency decision may use them at the time `now`. The collateral
    /// asset is asked for first.
    pub open spec fn prices(self, oracle: PriceOracleView, now: u64) -> Result<(i128, i128), Error> {
        match oracle.entry(self.manager.collateral_asset).safe_price(oracle.staleness_threshold, now) {
            Err(e) => Err(e),
            Ok(collateral_price) => match oracle.entry(self.manager.borrow_asset).safe_price(
                oracle.staleness_threshold,
                now,
            ) {
                Err(e) => Err(e),
                Ok(borrow_price) => Ok((collateral_price, borrow_price)),
            },
        }
    }

    /// What `LendingPool::accrue` does.
    pub open spec fn accrue_outcome(self, curve: RateCurveParameters, now: u64) -> Result<
        LendingPoolView,
        Error,
    > {
        if self.admin is None {
            Err(Error::NotInitialized)
        } else {
            match self.state.accrual_outcome(curve, now) {
                Err(e) => Err(e),
                Ok(state) => Ok(LendingPoolView { state, ..self }),
            }
        }
    }

    /// What `LendingPool::deposit` does.
    pub open spec fn deposit_outcome(
        self,
        curve: RateCurveParameters,
        caller: u64,
        user: u64,
        amount: i128,
        now: u64,
    ) -> Result<LendingPoolView, Error> {
        match self.entry(curve, caller, user, now) {
            Err(e) => Err(e),
            Ok(accrued) => match accrued.deposit_outcome(self.account(user), amount) {
                Err(e) => Err(e),
                Ok((state, account)) => Ok(self.updated(state, user, account)),
            },
        }
    }

    /// What `LendingPool::withdraw` does.
    pub open spec fn withdraw_outcome(
        self,
        curve: RateCurveParameters,
        caller: u64,
        user: u64,
        amount: i128,
        now: u64,
    ) -> Result<LendingPoolView, Error> {
        match self.entry(curve, caller, user, now) {
            Err(e) => Err(e),
            Ok(accrued) => match accrued.withdraw_outcome(self.account(user), amount) {
                Err(e) => Err(e),
                Ok((state, account)) => Ok(self.updated(state, user, account)),
            },
        }
    }

    /// What `LendingPool::deposit_collateral` does.
    pub open spec fn deposit_collateral_outcome(
        self,
        curve: RateCurveParameters,
        caller: u64,
        user: u64,
        amount: i128,
        now: u64,
    ) -> Result<LendingPoolView, Error> {
        match self.entry(curve, caller, user, now) {
            Err(e) => Err(e),
            Ok(accrued) => match CollateralManager::deposit_collateral_outcome(
                self.account(user),
                amount,
            ) {
                Err(e) => Err(e),
                Ok(account) => Ok(self.updated(accrued, user, account)),
            },
        }
    }

    /// Whether a withdrawal of `amount` units of collateral by `user` is
    /// decided by the prices: the amount is in range and the account owes
    /// something.
    pub open spec fn withdrawal_needs_prices(self, user: u64, amount: i128) -> bool {
        &&& 0 < amount <= self.account(user).collateral_balance
        &&& self.account(user).borrow_balance != 0
    }

    /// What `LendingPool::withdraw_collateral` does.
    pub open spec fn withdraw_collateral_outcome(
        self,
        conditions: Conditions,
        caller: u64,
        user: u64,
        amount: i128,
    ) -> Result<LendingPoolView, Error> {
        let prices = if self.withdrawal_needs_prices(user, amount) {
            self.prices(conditions.oracle, conditions.now)
        } else {
            Ok((0i128, 0i128))
        };
        match self.entry(conditions.curve, caller, user, conditions.now) {
            Err(e) => Err(e),
            Ok(accrued) => match prices {
                Err(e) => Err(e),
                Ok((collateral_price, borrow_price)) => match self.manager.withdraw_collateral_outcome(
                    self.account(user),
                    amount,
                    collateral_price,
                    borrow_price,
                ) {
                    Err(e) => Err(e),
                    Ok(account) => Ok(self.updated(accrued, user, account)),
                },
            },
        }
    }

    /// What `LendingPool::borrow` does.
    pub open spec fn borrow_outcome(
        self,
        conditions: Conditions,
        caller: u64,
        user: u64,
        amount: i128,
    ) -> Result<LendingPoolView, Error> {
        let account = self.account(user);
        match self.entry(conditions.curve, caller, user, conditions.now) {
            Err(e) => Err(e),
            Ok(accrued) => if amount <= 0 {
                Err(Error::InvalidInput)
            } else if amount > accrued.liquidity() {
                Err(Error::InsufficientLiquidity)
            } else {
                match self.prices(conditions.oracle, conditions.now) {
                    Err(e) => Err(e),
                    Ok((collateral_price, borrow_price)) => match self.manager.risk.max_borrow_result(
                        account.collateral_balance,
                        collateral_price,
                        borrow_price,
                    ) {
                        Err(e) => Err(e),
                        Ok(capacity) => match accrued.borrow_outcome(account, amount, capacity) {
                            Err(e) => Err(e),
                            Ok((state, after)) => Ok(self.updated(state, user, after)),
                        },
                    },
                }
            },
        }
    }

    /// What `LendingPool::repay` does, and what it returns.
    pub open spec fn repay_outcome(
        self,
        curve: RateCurveParameters,
        caller: u64,
        user: u64,
        amount: i128,
        now: u64,
    ) -> Result<(LendingPoolView, i128), Error> {
        match self.entry(curve, caller, user, now) {
            Err(e) => Err(e),
            Ok(accrued) => match accrued.repay_outcome(self.account(user), amount) {
                Err(e) => Err(e),
                Ok((state, account, repaid)) => Ok((self.updated(state, user, account), repaid)),
            },
        }
    }

    /// What `LendingPool::liquidate` does, and what it returns.
    pub open spec fn liquidate_outcome(
        self,
        conditions: Conditions,
        caller: u64,
        liquidator: u64,
        borrower: u64,
    ) -> Result<(LendingPoolView, Liquidation), Error> {
        let account = self.account(borrower);
        match self.entry(conditions.curve, caller, liquidator, conditions.now) {
            Err(e) => Err(e),
            Ok(accrued) => if account.borrow_balance == 0 {
                Err(Error::PositionHealthy)
            } else {
                match self.prices(conditions.oracle, conditions.now) {
                    Err(e) => Err(e),
                    Ok((collateral_price, borrow_price)) => match accrued.liquidation_outcome(
                        self.manager,
                        account,
                        collateral_price,
                        borrow_price,
                    ) {
                        Err(e) => Err(e),
                        Ok((state, after, moved)) => Ok((self.updated(state, borrower, after), moved)),
                    },
                }
            },
        }
    }

    /// What `LendingPool::get_health_factor` returns.
    pub open spec fn health_factor_outcome(
        self,
        oracle: PriceOracleView,
        user: u64,
        now: u64,
    ) -> Result<i128, Error> {
        let account = self.account(user);
        if account.borrow_balance == 0 {
            Ok(HEALTH_FACTOR_MAX)
        } else {
            match self.prices(oracle, now) {
                Err(e) => Err(e),
                Ok((collateral_price, borrow_price)) => self.manager.risk.health_factor_result(
                    account.collateral_balance,
                    account.borrow_balance,
                    collateral_price,
                    borrow_price,
                ),
            }
        }
    }

    /// Whether an accrual up to `now` under `curve` charges no negative
    /// rate: the curve is valid and has no negative parameter, or no time
    /// has passed, or the rate at the present utilization is not negative.
    pub open spec fn charges_no_negative_rate(self, curve: RateCurveParameters, now: u64) -> bool {
        (curve.valid() && curve.non_negative()) || self.state.accrues_without_loss(curve, now)
    }

    /// What an operation must keep, where `post` is the ledger that it
    /// leaves, `curve` the rate curve and `now` the time it was called with.
    ///
    /// It keeps a well-formed ledger well formed. Where the accrual on
    /// entry charges no negative rate, it keeps the books of such a ledger
    /// balanced and does not lower its borrow index. And where the pool is
    /// solvent once interest has accrued up to `now`, it leaves the pool
    /// solvent.
    pub open spec fn respected_by(
        self,
        post: LendingPoolView,
        curve: RateCurveParameters,
        now: u64,
    ) -> bool {
        self.wf() ==> {
            &&& post.wf()
            &&& self.balanced() && self.charges_no_negative_rate(curve, now) ==> {
                &&& post.balanced()
                &&& post.state.borrow_index >= self.state.borrow_index
            }
            &&& (self.state.accrual_outcome(curve, now) matches Ok(accrued) && accrued.solvent())
                ==> post.state.solvent()
        }
    }

    /// Replacing one account changes each sum over the accounts by what
    /// that account's balance changed by.
    pub proof fn lemma_updated_sums(self, state: PoolState, user: u64, account: Account)
        requires
            self.accounts.dom().finite(),
        ensures
            sum(deposit_balances(self.updated(state, user, account).accounts)) == sum(
                deposit_balances(self.accounts),
            ) + account.deposit_balance - self.account(user).deposit_balance,
            sum(borrow_balances(self.updated(state, user, account).accounts)) == sum(
                borrow_balances(self.accounts),
            ) + account.borrow_balance - self.account(user).borrow_balance,
    {
        let after = self.accounts.insert(user, account);
        assert(deposit_balances(self.accounts).dom() =~= self.accounts.dom());
        assert(borrow_balances(self.accounts).dom() =~= self.accounts.dom());
        assert(deposit_balances(after) =~= deposit_balances(self.accounts).insert(
            user,
            account.deposit_balance as int,
        ));
        assert(borrow_balances(after) =~= borrow_balances(self.accounts).insert(
            user,
            account.borrow_balance as int,
        ));
        lemma_sum_insert(deposit_balances(self.accounts), user, account.deposit_balance as int);
        lemma_sum_insert(borrow_balances(self.accounts), user, account.borrow_balance as int);
    }

    /// In a well-formed ledger every account is well formed, also that of a
    /// participant who never dealt with the pool.
    pub proof fn lemma_account_wf(self, user: u64)
        requires
            self.wf(),
        ensures
            self.account(user).wf(),
    {
        if self.accounts.contains_key(user) {
            assert(self.accounts[user].wf());
        }
    }

    /// Replacing one account by a well-formed one keeps an initialized
    /// ledger well formed.
    pub proof fn lemma_updated_wf(self, state: PoolState, user: u64, account: Account)
        requires
            self.wf(),
            self.admin is Some,
            account.wf(),
        ensures
            self.updated(state, user, account).wf(),
    {
        let after = self.updated(state, user, account);
        assert forall|other: u64| after.accounts.contains_key(other) implies (
        #[trigger] after.accounts[other]).wf() by {
            if other != user {
                assert(self.accounts[other].wf());
            }
        }
    }

    /// In a well-formed ledger no sum over the accounts is negative.
    pub proof fn lemma_sums_non_negative(self)
        requires
            self.wf(),
        ensures
            sum(deposit_balances(self.accounts)) >= 0,
            sum(borrow_balances(self.accounts)) >= 0,
    {
        assert(deposit_balances(self.accounts).dom() =~= self.accounts.dom());
        assert(borrow_balances(self.accounts).dom() =~= self.accounts.dom());
        let deposited = deposit_balances(self.accounts);
        let owed = borrow_balances(self.accounts);
        assert forall|user: u64| deposited.contains_key(user) implies #[trigger] deposited[user]
            >= 0 by {
            assert(self.accounts[user].wf());
        }
        assert forall|user: u64| owed.contains_key(user) implies #[trigger] owed[user] >= 0 by {
            assert(self.accounts[user].wf());
        }
        lemma_sum_non_negative(deposit_balances(self.accounts));
        lemma_sum_non_negative(borrow_balances(self.accounts));
    }

    /// An accrual on balanced books that charges no negative rate leaves
    /// the deposits as they are and lowers neither the total debt nor the
    /// borrow index.
    pub proof fn lemma_accrual_respects(self, curve: RateCurveParameters, now: u64)
        requires
            self.wf(),
            self.balanced(),
            self.charges_no_negative_rate(curve, now),
            self.state.accrual_outcome(curve, now) is Ok,
        ensures
            ({
                let accrued = self.state.accrual_outcome(curve, now).unwrap();
                &&& accrued.total_deposits == self.state.total_deposits
                &&& accrued.total_borrows >= self.state.total_borrows
                &&& accrued.borrow_index >= self.state.borrow_index
            }),
    {
        self.lemma_sums_non_negative();
        if now > self.state.last_accrual_time {
            let utilization = self.state.utilization();
            if curve.valid() && curve.non_negative() {
                if self.state.total_deposits != 0 {
                    lemma_mul_div_nonnegative(
                        self.state.total_borrows as int,
                        SCALE as int,
                        self.state.total_deposits as int,
                    );
                }
                curve.lemma_borrow_rate_non_negative(utilization);
            }
            self.state.lemma_accrual_grows(curve.borrow_rate(utilization), now);
        }
    }

    /// Letting interest accrue keeps what an operation must keep.
    pub proof fn lemma_accrue_respects(self, curve: RateCurveParameters, now: u64)
        requires
            self.accrue_outcome(curve, now) is Ok,
        ensures
            self.respected_by(self.accrue_outcome(curve, now).unwrap(), curve, now),
    {
        if self.wf() && self.balanced() && self.charges_no_negative_rate(curve, now) {
            self.lemma_accrual_respects(curve, now);
        }
    }

    /// A deposit keeps what an operation must keep.
    pub proof fn lemma_deposit_respects(
        self,
        curve: RateCurveParameters,
        caller: u64,
        user: u64,
        amount: i128,
        now: u64,
    )
        requires
            self.deposit_outcome(curve, caller, user, amount, now) is Ok,
        ensures
            self.respected_by(
                self.deposit_outcome(curve, caller, user, amount, now).unwrap(),
                curve,
                now,
            ),
    {
        let accrued = self.entry(curve, caller, user, now).unwrap();
        let (state, account) = accrued.deposit_outcome(self.account(user), amount).unwrap();
        if self.wf() {
            self.lemma_account_wf(user);
            self.lemma_updated_wf(state, user, account);
            self.lemma_updated_sums(state, user, account);
            if self.balanced() && self.charges_no_negative_rate(curve, now) {
                self.lemma_accrual_respects(curve, now);
            }
        }
    }

    /// A withdrawal keeps what an operation must keep.
    pub proof fn lemma_withdraw_respects(
        self,
        curve: RateCurveParameters,
        caller: u64,
        user: u64,
        amount: i128,
        now: u64,
    )
        requires
            self.withdraw_outcome(curve, caller, user, amount, now) is Ok,
        ensures
            self.respected_by(
                self.withdraw_outcome(curve, caller, user, amount, now).unwrap(),
                curve,
                now,
            ),
    {
        let accrued = self.entry(curve, caller, user, now).unwrap();
        let (state, account) = accrued.withdraw_outcome(self.account(user), amount).unwrap();
        if self.wf() {
            self.lemma_account_wf(user);
            self.lemma_updated_wf(state, user, account);
            self.lemma_updated_sums(state, user, account);
            if self.balanced() && self.charges_no_negative_rate(curve, now) {
                self.lemma_accrual_respects(curve, now);
            }
        }
    }

    /// A deposit of collateral keeps what an operation must keep.
    pub proof fn lemma_deposit_collateral_respects(
        self,
        curve: RateCurveParameters,
        caller: u64,
        user: u64,
        amount: i128,
        now: u64,
    )
        requires
            self.deposit_collateral_outcome(curve, caller, user, amount, now) is Ok,
        ensures
            self.respected_by(
                self.deposit_collateral_outcome(curve, caller, user, amount, now).unwrap(),
                curve,
                now,
            ),
    {
        let accrued = self.entry(curve, caller, user, now).unwrap();
        let account = CollateralManager::deposit_collateral_outcome(
            self.account(user),
            amount,
        ).unwrap();
        if self.wf() {
            self.lemma_account_wf(user);
            self.lemma_updated_wf(accrued, user, account);
            self.lemma_updated_sums(accrued, user, account);
            if self.balanced() && self.charges_no_negative_rate(curve, now) {
                self.lemma_accrual_respects(curve, now);
            }
        }
    }

    /// A withdrawal of collateral keeps what an operation must keep.
    pub proof fn lemma_withdraw_collateral_respects(
        self,
        conditions: Conditions,
        caller: u64,
        user: u64,
        amount: i128,
    )
        requires
            self.withdraw_collateral_outcome(conditions, caller, user, amount) is Ok,
        ensures
            self.respected_by(
                self.withdraw_collateral_outcome(conditions, caller, user, amount).unwrap(),
                conditions.curve,
                conditions.now,
            ),
    {
        let curve = conditions.curve;
        let now = conditions.now;
        let before = self.account(user);
        let accrued = self.entry(curve, caller, user, now).unwrap();
        let after = self.withdraw_collateral_outcome(conditions, caller, user, amount).unwrap();
        let account = after.accounts[user];
        if self.wf() {
            self.lemma_account_wf(user);
            if before.borrow_balance != 0 && before.collateral_balance - amount == 0 {
                let (collateral_price, borrow_price) = self.prices(
                    conditions.oracle,
                    conditions.now,
                ).unwrap();
                self.manager.risk.lemma_no_collateral_no_health(
                    before.borrow_balance as int,
                    collateral_price as int,
                    borrow_price as int,
                );
            }
            assert(account.wf());
            self.lemma_updated_wf(accrued, user, account);
            self.lemma_updated_sums(accrued, user, account);
            if self.balanced() && self.charges_no_negative_rate(curve, now) {
                self.lemma_accrual_respects(curve, now);
            }
        }
    }

    /// A borrow keeps what an operation must keep.
    pub proof fn lemma_borrow_respects(
        self,
        conditions: Conditions,
        caller: u64,
        user: u64,
        amount: i128,
    )
        requires
            self.borrow_outcome(conditions, caller, user, amount) is Ok,
        ensures
            self.respected_by(
                self.borrow_outcome(conditions, caller, user, amount).unwrap(),
                conditions.curve,
                conditions.now,
            ),
    {
        let curve = conditions.curve;
        let now = conditions.now;
        let before = self.account(user);
        let accrued = self.entry(curve, caller, user, now).unwrap();
        let (collateral_price, borrow_price) = self.prices(conditions.oracle, now).unwrap();
        let capacity = self.manager.risk.max_borrow_result(
            before.collateral_balance,
            collateral_price,
            borrow_price,
        ).unwrap();
        let (state, account) = accrued.borrow_outcome(before, amount, capacity).unwrap();
        if self.wf() {
            self.lemma_account_wf(user);
            if before.collateral_balance == 0 {
                self.manager.risk.lemma_no_collateral_no_credit(
                    collateral_price as int,
                    borrow_price as int,
                );
            }
            assert(account.wf());
            self.lemma_updated_wf(state, user, account);
            self.lemma_updated_sums(state, user, account);
            if self.balanced() && self.charges_no_negative_rate(curve, now) {
                self.lemma_accrual_respects(curve, now);
            }
        }
    }

    /// A repayment keeps what an operation must keep.
    pub proof fn lemma_repay_respects(
        self,
        curve: RateCurveParameters,
        caller: u64,
        user: u64,
        amount: i128,
        now: u64,
    )
        requires
            self.repay_outcome(curve, caller, user, amount, now) is Ok,
        ensures
            self.respected_by(
                self.repay_outcome(curve, caller, user, amount, now).unwrap().0,
                curve,
                now,
            ),
    {
        let accrued = self.entry(curve, caller, user, now).unwrap();
        let (state, account, repaid) = accrued.repay_outcome(self.account(user), amount).unwrap();
        if self.wf() {
            self.lemma_account_wf(user);
            self.lemma_updated_wf(state, user, account);
            self.lemma_updated_sums(state, user, account);
            if self.balanced() && self.charges_no_negative_rate(curve, now) {
                self.lemma_accrual_respects(curve, now);
            }
        }
    }

    /// A liquidation keeps what an operation must keep.
    pub proof fn lemma_liquidate_respects(
        self,
        conditions: Conditions,
        caller: u64,
        liquidator: u64,
        borrower: u64,
    )
        requires
            self.liquidate_outcome(conditions, caller, liquidator, borrower) is Ok,
        ensures
            self.respected_by(
                self.liquidate_outcome(conditions, caller, liquidator, borrower).unwrap().0,
                conditions.curve,
                conditions.now,
            ),
    {
        let curve = conditions.curve;
        let now = conditions.now;
        let before = self.account(borrower);
        let accrued = self.entry(curve, caller, liquidator, now).unwrap();
        let (collateral_price, borrow_price) = self.prices(conditions.oracle, now).unwrap();
        let (state, account, moved) = accrued.liquidation_outcome(
            self.manager,
            before,
            collateral_price,
            borrow_price,
        ).unwrap();
        if self.wf() {
            self.lemma_account_wf(borrower);
            assert(account.wf());
            self.lemma_updated_wf(state, borrower, account);
            self.lemma_updated_sums(state, borrower, account);
            if self.balanced() && self.charges_no_negative_rate(curve, now) {
                self.lemma_accrual_respects(curve, now);
            }
        }
    }

    /// The ledger after `operation` was called under `conditions`, or why
    /// it was refused.
    pub open spec fn step(self, operation: Operation, conditions: Conditions) -> Result<
        LendingPoolView,
        Error,
    > {
        match operation {
            Operation::Accrue => self.accrue_outcome(conditions.curve, conditions.now),
            Operation::Deposit { caller, user, amount } => self.deposit_outcome(
                conditions.curve,
                caller,
                user,
                amount,
                conditions.now,
            ),
            Operation::Withdraw { caller, user, amount } => self.withdraw_outcome(
                conditions.curve,
                caller,
                user,
                amount,
                conditions.now,
            ),
            Operation::DepositCollateral { caller, user, amount } => self.deposit_collateral_outcome(
                conditions.curve,
                caller,
                user,
                amount,
                conditions.now,
            ),
            Operation::WithdrawCollateral { caller, user, amount } => self.withdraw_collateral_outcome(
                conditions,
                caller,
                user,
                amount,
            ),
            Operation::Borrow { caller, user, amount } => self.borrow_outcome(
                conditions,
                caller,
                user,
                amount,
            ),
            Operation::Repay { caller, user, amount } => match self.repay_outcome(
                conditions.curve,
                caller,
                user,
                amount,
                conditions.now,
            ) {
                Err(e) => Err(e),
                Ok((after, _)) => Ok(after),
            },
            Operation::Liquidate { caller, liquidator, borrower } => match self.liquidate_outcome(
                conditions,
                caller,
                liquidator,
                borrower,
            ) {
                Err(e) => Err(e),
                Ok((after, _)) => Ok(after),
            },
        }
    }

    /// The ledger after the calls were made one after the other. A call
    /// that is refused leaves the ledger as it found it.
    pub open spec fn after(self, calls: Seq<(Operation, Conditions)>) -> LendingPoolView
        decreases calls.len(),
    {
        if calls.len() == 0 {
            self
        } else {
            let before = self.after(calls.drop_last());
            match before.step(calls.last().0, calls.last().1) {
                Ok(post) => post,
                Err(_) => before,
            }
        }
    }

    /// Whether interest accruing under `conditions` leaves a solvent pool
    /// solvent.
    pub open spec fn stays_solvent_under(self, conditions: Conditions) -> bool {
        self.state.solvent() ==> (self.state.accrual_outcome(
            conditions.curve,
            conditions.now,
        ) matches Ok(accrued) ==> accrued.solvent())
    }

    /// Every operation keeps what an operation must keep.
    pub proof fn lemma_step_respects(self, operation: Operation, conditions: Conditions)
        requires
            self.step(operation, conditions) is Ok,
        ensures
            self.respected_by(
                self.step(operation, conditions).unwrap(),
                conditions.curve,
                conditions.now,
            ),
    {
        let curve = conditions.curve;
        let now = conditions.now;
        match operation {
            Operation::Accrue => self.lemma_accrue_respects(curve, now),
            Operation::Deposit { caller, user, amount } => self.lemma_deposit_respects(
                curve,
                caller,
                user,
                amount,
                now,
            ),
            Operation::Withdraw { caller, user, amount } => self.lemma_withdraw_respects(
                curve,
                caller,
                user,
                amount,
                now,
            ),
            Operation::DepositCollateral {
                caller,
                user,
                amount,
            } => self.lemma_deposit_collateral_respects(curve, caller, user, amount, now),
            Operation::WithdrawCollateral {
                caller,
                user,
                amount,
            } => self.lemma_withdraw_collateral_respects(conditions, caller, user, amount),
            Operation::Borrow { caller, user, amount } => self.lemma_borrow_respects(
                conditions,
                caller,
                user,
                amount,
            ),
            Operation::Repay { caller, user, amount } => self.lemma_repay_respects(
                curve,
                caller,
                user,
                amount,
                now,
            ),
            Operation::Liquidate { caller, liquidator, borrower } => self.lemma_liquidate_respects(
                conditions,
                caller,
                liquidator,
                borrower,
            ),
        }
    }

    /// No operation leaves the pool with more lent out than supplied, unless
    /// the interest accrued on entry already did; and none leaves an
    /// account with a negative balance.
    ///
    /// Interest alone can do it: in a pool with deposits of 1000 and a
    /// total debt of 1000, any interest at all lifts the debt above the
    /// deposits.
    pub proof fn lemma_operation_keeps_solvency(self, operation: Operation, conditions: Conditions)
        requires
            self.wf(),
            self.state.accrual_outcome(conditions.curve, conditions.now) matches Ok(accrued)
                && accrued.solvent(),
            self.step(operation, conditions) is Ok,
        ensures
            ({
                let post = self.step(operation, conditions).unwrap();
                &&& post.state.total_borrows <= post.state.total_deposits
                &&& forall|user: u64|
                    {
                        &&& (#[trigger] post.account(user)).deposit_balance >= 0
                        &&& post.account(user).borrow_balance >= 0
                        &&& post.account(user).collateral_balance >= 0
                    }
            }),
    {
        self.lemma_step_respects(operation, conditions);
        let post = self.step(operation, conditions).unwrap();
        assert forall|user: u64|
            {
                &&& (#[trigger] post.account(user)).deposit_balance >= 0
                &&& post.account(user).borrow_balance >= 0
                &&& post.account(user).collateral_balance >= 0
            } by {
            post.lemma_account_wf(user);
        }
    }

    /// No operation lowers the borrow index of a ledger whose books
    /// balance, and every operation leaves the books balanced, unless the
    /// accrual on entry charges a negative rate.
    ///
    /// A negative rate does lower the index: at a base rate of -1.0 a
    /// year, a year's accrual takes the whole index away.
    pub proof fn lemma_operation_keeps_borrow_index(
        self,
        operation: Operation,
        conditions: Conditions,
    )
        requires
            self.wf(),
            self.balanced(),
            self.charges_no_negative_rate(conditions.curve, conditions.now),
            self.step(operation, conditions) is Ok,
        ensures
            ({
                let post = self.step(operation, conditions).unwrap();
                &&& post.wf()
                &&& post.balanced()
                &&& post.state.borrow_index >= self.state.borrow_index
            }),
    {
        self.lemma_step_respects(operation, conditions);
    }

    /// Whatever calls are made, every account keeps balances that are not
    /// negative.
    pub proof fn lemma_balances_never_negative(self, calls: Seq<(Operation, Conditions)>, user: u64)
        requires
            self.wf(),
        ensures
            self.after(calls).wf(),
            self.after(calls).account(user).deposit_balance >= 0,
            self.after(calls).account(user).borrow_balance >= 0,
            self.after(calls).account(user).collateral_balance >= 0,
        decreases calls.len(),
    {
        if calls.len() > 0 {
            let before = self.after(calls.drop_last());
            self.lemma_balances_never_negative(calls.drop_last(), user);
            if before.step(calls.last().0, calls.last().1) is Ok {
                before.lemma_step_respects(calls.last().0, calls.last().1);
            }
        }
        self.after(calls).lemma_account_wf(user);
    }

    /// Whatever calls are made, a solvent pool stays solvent, provided that
    /// the interest accrued on entry to each call leaves it so.
    pub proof fn lemma_pool_stays_solvent(self, calls: Seq<(Operation, Conditions)>)
        requires
            self.wf(),
            self.state.solvent(),
            forall|i: int|
                0 <= i < calls.len() ==> (#[trigger] self.after(calls.take(i))).stays_solvent_under(
                    calls[i].1,
                ),
        ensures
            self.after(calls).wf(),
            self.after(calls).state.solvent(),
        decreases calls.len(),
    {
        if calls.len() > 0 {
            let earlier = calls.drop_last();
            let before = self.after(earlier);
            assert forall|i: int| 0 <= i < earlier.len() implies (#[trigger] self.after(
                earlier.take(i),
            )).stays_solvent_under(earlier[i].1) by {
                assert(earlier.take(i) =~= calls.take(i));
                assert(self.after(calls.take(i)).stays_solvent_under(calls[i].1));
                assert(earlier[i] == calls[i]);
            }
            self.lemma_pool_stays_solvent(earlier);
            assert(calls.take(calls.len() - 1) =~= earlier);
            assert(self.after(calls.take(calls.len() - 1)).stays_solvent_under(
                calls[calls.len() - 1].1,
            ));
            if before.step(calls.last().0, calls.last().1) is Ok {
                before.lemma_step_respects(calls.last().0, calls.last().1);
                before.lemma_step_accrues(calls.last().0, calls.last().1);
            }
        }
    }

    /// An operation that is not refused found the accrual on entry to fit.
    pub proof fn lemma_step_accrues(self, operation: Operation, conditions: Conditions)
        requires
            self.step(operation, conditions) is Ok,
        ensures
            self.state.accrual_outcome(conditions.curve, conditions.now) is Ok,
    {
    }

    /// Whatever calls are made, the borrow index never falls and the books
    /// stay balanced, provided that the accrual on entry to each call
    /// charges no negative rate. Under valid rate curves without negative
    /// parameters none does.
    pub proof fn lemma_borrow_index_never_falls(self, calls: Seq<(Operation, Conditions)>)
        requires
            self.wf(),
            self.balanced(),
            forall|i: int|
                0 <= i < calls.len() ==> (#[trigger] self.after(
                    calls.take(i),
                )).charges_no_negative_rate(calls[i].1.curve, calls[i].1.now),
        ensures
            self.after(calls).wf(),
            self.after(calls).balanced(),
            self.after(calls).state.borrow_index >= self.state.borrow_index,
        decreases calls.len(),
    {
        if calls.len() > 0 {
            let earlier = calls.drop_last();
            let before = self.after(earlier);
            assert forall|i: int| 0 <= i < earlier.len() implies (#[trigger] self.after(
                earlier.take(i),
            )).charges_no_negative_rate(earlier[i].1.curve, earlier[i].1.now) by {
                assert(earlier.take(i) =~= calls.take(i));
                assert(self.after(calls.take(i)).charges_no_negative_rate(
                    calls[i].1.curve,
                    calls[i].1.now,
                ));
                assert(earlier[i] == calls[i]);
            }
            self.lemma_borrow_index_never_falls(earlier);
            assert(calls.take(calls.len() - 1) =~= earlier);
            assert(self.after(calls.take(calls.len() - 1)).charges_no_negative_rate(
                calls[calls.len() - 1].1.curve,
                calls[calls.len() - 1].1.now,
            ));
            if before.step(calls.last().0, calls.last().1) is Ok {
                before.lemma_step_respects(calls.last().0, calls.last().1);
            }
        }
    }

    /// Letting interest accrue a second time up to the same moment changes
    /// nothing, whatever the curve.
    pub proof fn lemma_accrue_twice(
        self,
        curve: RateCurveParameters,
        again: RateCurveParameters,
        now: u64,
    )
        requires
            self.accrue_outcome(curve, now) is Ok,
        ensures
            self.accrue_outcome(curve, now).unwrap().accrue_outcome(again, now)
                == self.accrue_outcome(curve, now),
    {
        self.state.lemma_accrual_outcome_idempotent(curve, again, now);
    }

    /// A borrow that is granted leaves a position that cannot be liquidated
    /// at the prices it was granted at: its health factor is 1.0 or more.
    pub proof fn lemma_granted_borrow_is_healthy(
        self,
        conditions: Conditions,
        caller: u64,
        user: u64,
        amount: i128,
    )
        requires
            self.wf(),
            conditions.oracle.wf(),
            self.borrow_outcome(conditions, caller, user, amount) is Ok,
        ensures
            ({
                let after = self.borrow_outcome(conditions, caller, user, amount).unwrap();
                let (collateral_price, borrow_price) = self.prices(
                    conditions.oracle,
                    conditions.now,
                ).unwrap();
                after.manager.risk.health_factor(
                    after.account(user).collateral_balance as int,
                    after.account(user).borrow_balance as int,
                    collateral_price as int,
                    borrow_price as int,
                ) >= SCALE
            }),
    {
        let after = self.borrow_outcome(conditions, caller, user, amount).unwrap();
        let (collateral_price, borrow_price) = self.prices(conditions.oracle, conditions.now).unwrap();
        self.lemma_account_wf(user);
        assert(conditions.oracle.entry(self.manager.collateral_asset).price >= 0);
        assert(conditions.oracle.entry(self.manager.borrow_asset).price >= 0);
        self.manager.risk.lemma_debt_within_limit_is_covered(
            after.account(user).collateral_balance as int,
            after.account(user).borrow_balance as int,
            collateral_price as int,
            borrow_price as int,
        );
    }

    /// A withdrawal of collateral that would leave a position with a health
    /// factor below 1.0 is refused with `UnhealthyPosition`.
    pub proof fn lemma_unhealthy_withdrawal_refused(
        self,
        conditions: Conditions,
        caller: u64,
        user: u64,
        amount: i128,
    )
        requires
            self.entry(conditions.curve, caller, user, conditions.now) is Ok,
            0 < amount <= self.account(user).collateral_balance,
            self.account(user).borrow_balance != 0,
            self.prices(conditions.oracle, conditions.now) matches Ok((collateral_price, borrow_price))
                && (self.manager.risk.health_factor_result(
                (self.account(user).collateral_balance - amount) as i128,
                self.account(user).borrow_balance,
                collateral_price,
                borrow_price,
            ) matches Ok(factor) && factor < SCALE),
        ensures
            self.withdraw_collateral_outcome(conditions, caller, user, amount) == Err::<
                LendingPoolView,
                Error,
            >(Error::UnhealthyPosition),
    {
    }

    /// A position is liquidated exactly where its health factor is below
    /// 1.0: at 1.0 the liquidation is refused with `PositionHealthy`, and
    /// below 1.0 it is not.
    pub proof fn lemma_liquidation_boundary(
        self,
        conditions: Conditions,
        caller: u64,
        liquidator: u64,
        borrower: u64,
    )
        requires
            self.entry(conditions.curve, caller, liquidator, conditions.now) is Ok,
            self.account(borrower).borrow_balance != 0,
            self.prices(conditions.oracle, conditions.now) is Ok,
            self.health_factor_outcome(conditions.oracle, borrower, conditions.now) is Ok,
        ensures
            ({
                let factor = self.health_factor_outcome(
                    conditions.oracle,
                    borrower,
                    conditions.now,
                ).unwrap();
                let outcome = self.liquidate_outcome(conditions, caller, liquidator, borrower);
                &&& factor >= SCALE ==> outcome == Err::<(LendingPoolView, Liquidation), Error>(
                    Error::PositionHealthy,
                )
                &&& factor < SCALE ==> outcome != Err::<(LendingPoolView, Liquidation), Error>(
                    Error::PositionHealthy,
                )
            }),
    {
    }
}

/// A lending pool: its totals and the accounts of its participants.
pub struct LendingPool {
    admin: Option<u64>,
    manager: CollateralManager,
    state: PoolState,
    accounts: HashMap<u64, Account>,
}

impl View for LendingPool {
    type V = LendingPoolView;

    closed spec fn view(&self) -> LendingPoolView {
        LendingPoolView {
            admin: self.admin,
            manager: self.manager,
            state: self.state,
            accounts: self.accounts@,
        }
    }
}

impl LendingPool {
    /// The ledger is well formed. A new pool is well formed, and every
    /// operation keeps it so.
    pub open spec fn wf(&self) -> bool {
        self@.wf()
    }

    /// A pool that was not initialized yet: it has no accounts and refuses
    /// every operation that would change it.
    pub fn new() -> (pool: Self)
        ensures
            pool.wf(),
            pool@.balanced(),
            pool@.admin is None,
            pool@.manager == CollateralManager::standard(XLM, USDC),
            pool@.state == PoolState::opened_at(0),
            pool@.accounts == Map::<u64, Account>::empty(),
    {
        let pool = LendingPool {
            admin: None,
            manager: CollateralManager::initialize(XLM, USDC),
            state: PoolState::new(0),
            accounts: HashMap::new(),
        };
        proof {
            lemma_sum_empty();
            assert(deposit_balances(pool@.accounts) =~= Map::<u64, int>::empty());
            assert(borrow_balances(pool@.accounts) =~= Map::<u64, int>::empty());
        }
        pool
    }

    /// Opens the pool at the time `now`: names the admin, backs `USDC` debt
    /// with `XLM` under the standard risk parameters, and starts the totals
    /// at zero and the borrow index at 1.0.
    ///
    /// Refused with `AlreadyInitialized` exactly where the pool was opened
    /// before.
    pub fn initialize(&mut self, admin: u64, now: u64) -> (r: Result<(), Error>)
        ensures
            old(self).wf() ==> final(self).wf(),
            match r {
                Ok(()) => {
                    &&& old(self)@.admin is None
                    &&& final(self)@ == (LendingPoolView {
                        admin: Some(admin),
                        manager: CollateralManager::standard(XLM, USDC),
                        state: PoolState::opened_at(now),
                        accounts: Map::<u64, Account>::empty(),
                    })
                    &&& final(self).wf()
                    &&& final(self)@.balanced()
                },
                Err(e) => {
                    &&& e == Error::AlreadyInitialized
                    &&& old(self)@.admin is Some
                    &&& final(self)@ == old(self)@
                },
            },
    {
        if self.admin.is_some() {
            return Err(Error::AlreadyInitialized);
        }
        self.admin = Some(admin);
        self.manager = CollateralManager::initialize(XLM, USDC);
        self.state = PoolState::new(now);
        self.accounts = HashMap::new();
        proof {
            lemma_sum_empty();
            assert(deposit_balances(self@.accounts) =~= Map::<u64, int>::empty());
            assert(borrow_balances(self@.accounts) =~= Map::<u64, int>::empty());
        }
        Ok(())
    }

    /// Replaces the risk parameters.
    ///
    /// Refused with `NotInitialized` where the pool was not opened, else
    /// with `Unauthorized` where `caller` is not the admin, else with
    /// `InvalidInput` where the parameters are not valid.
    pub fn set_risk_parameters(&mut self, caller: u64, risk: RiskParameters) -> (r: Result<(), Error>)
        ensures
            old(self).wf() ==> final(self).wf(),
            match r {
                Ok(()) => {
                    &&& old(self)@.admin == Some(caller)
                    &&& risk.valid()
                    &&& final(self)@ == (LendingPoolView {
                        manager: CollateralManager { risk, ..old(self)@.manager },
                        ..old(self)@
                    })
                },
                Err(e) => {
                    &&& final(self)@ == old(self)@
                    &&& e == Error::NotInitialized || e == Error::Unauthorized || e
                        == Error::InvalidInput
                    &&& e == Error::NotInitialized <==> old(self)@.admin is None
                    &&& e == Error::Unauthorized <==> old(self)@.admin is Some && old(self)@.admin
                        != Some(caller)
                },
            },
            r is Ok <==> old(self)@.admin == Some(caller) && risk.valid(),
    {
        match self.admin {
            None => {
                return Err(Error::NotInitialized);
            },
            Some(admin) => {
                if admin != caller {
                    return Err(Error::Unauthorized);
                }
            },
        }
        let checked: RiskParameters = RiskParameters::new(
            risk.ltv_ratio,
            risk.liquidation_threshold,
            risk.liquidation_bonus,
        )?;
        self.manager = CollateralManager { risk: checked, ..self.manager };
        Ok(())
    }

    fn enter(&self, model: &InterestRateModel, caller: u64, principal: u64, now: u64) -> (r: Result<
        PoolState,
        Error,
    >)
        ensures
            r == self@.entry(model.curve(), caller, principal, now),
    {
        if self.admin.is_none() {
            return Err(Error::NotInitialized);
        }
        if caller != principal {
            return Err(Error::Unauthorized);
        }
        self.state.accrue_with(model, now)
    }

    fn prices(&self, oracle: &PriceOracle, now: u64) -> (r: Result<(i128, i128), Error>)
        ensures
            r == self@.prices(oracle@, now),
    {
        let collateral_price: i128 = oracle.get_price_safe(self.manager.collateral_asset, now)?;
        let borrow_price: i128 = oracle.get_price_safe(self.manager.borrow_asset, now)?;
        Ok((collateral_price, borrow_price))
    }

    fn commit(&mut self, state: PoolState, user: u64, account: Account)
        ensures
            final(self)@ == old(self)@.updated(state, user, account),
    {
        self.state = state;
        self.accounts.insert(user, account);
    }

    /// The account of `user`; the empty account where `user` never dealt
    /// with the pool.
    pub fn get_account(&self, user: u64) -> (account: Account)
        ensures
            account == self@.account(user),
    {
        match self.accounts.get(&user) {
            Some(account) => *account,
            None => Account::new(),
        }
    }

    /// The totals as they are stored. Interest since the last accrual is
    /// not in them.
    pub fn get_state(&self) -> (state: PoolState)
        ensures
            state == self@.state,
    {
        self.state
    }

    /// The risk engine in force.
    pub fn get_manager(&self) -> (manager: CollateralManager)
        ensures
            manager == self@.manager,
    {
        self.manager
    }

    /// The totals as they would be after interest accrued up to `now`.
    /// Nothing is changed.
    ///
    /// Refused with `Overflow` exactly where time has passed since the last
    /// accrual and the utilization, the rate or a step of the accrual does
    /// not fit in 128 bits.
    pub fn preview_accrual(&self, model: &InterestRateModel, now: u64) -> (r: Result<PoolState, Error>)
        ensures
            r == self@.state.accrual_outcome(model.curve(), now),
    {
        self.state.accrue_with(model, now)
    }

    /// Lets interest accrue up to `now`.
    ///
    /// Refused with `NotInitialized` where the pool was not opened, else
    /// with `Overflow` as `preview_accrual` is.
    pub fn accrue(&mut self, model: &InterestRateModel, now: u64) -> (r: Result<(), Error>)
        ensures
            old(self).wf() ==> final(self).wf(),
            match old(self)@.accrue_outcome(model.curve(), now) {
                Ok(after) => r is Ok && final(self)@ == after,
                Err(e) => r == Err::<(), Error>(e) && final(self)@ == old(self)@,
            },
            r is Ok ==> old(self)@.respected_by(final(self)@, model.curve(), now),
    {
        if self.admin.is_none() {
            return Err(Error::NotInitialized);
        }
        let state: PoolState = self.state.accrue_with(model, now)?;
        proof {
            self@.lemma_accrue_respects(model.curve(), now);
        }
        self.state = state;
        Ok(())
    }

    /// Supplies `amount` units of the lendable asset on behalf of `user`,
    /// and returns `amount`.
    ///
    /// Refused with `NotInitialized` where the pool was not opened, else
    /// with `Unauthorized` where `caller` is not `user`, else with
    /// `Overflow` where the accrual does not fit in 128 bits, else with
    /// `InvalidInput` where `amount` is not positive, else with `Overflow`
    /// where a new balance does not fit in 128 bits.
    pub fn deposit(
        &mut self,
        model: &InterestRateModel,
        caller: u64,
        user: u64,
        amount: i128,
        now: u64,
    ) -> (r: Result<i128, Error>)
        ensures
            old(self).wf() ==> final(self).wf(),
            match old(self)@.deposit_outcome(model.curve(), caller, user, amount, now) {
                Ok(after) => r == Ok::<i128, Error>(amount) && final(self)@ == after,
                Err(e) => r == Err::<i128, Error>(e) && final(self)@ == old(self)@,
            },
            r is Ok ==> old(self)@.respected_by(final(self)@, model.curve(), now),
    {
        let accrued: PoolState = self.enter(model, caller, user, now)?;
        let before: Account = self.get_account(user);
        let (state, account): (PoolState, Account) = accrued.deposit(&before, amount)?;
        proof {
            self@.lemma_deposit_respects(model.curve(), caller, user, amount, now);
        }
        self.commit(state, user, account);
        Ok(amount)
    }

    /// Takes `amount` units of the lendable asset back on behalf of `user`,
    /// and returns `amount`.
    ///
    /// Refused with `NotInitialized` where the pool was not opened, else
    /// with `Unauthorized` where `caller` is not `user`, else with
    /// `Overflow` where the accrual does not fit in 128 bits, else with
    /// `InvalidInput` where `amount` is not positive, else with
    /// `InsufficientBalance` where `user` has deposited less, else with
    /// `InsufficientLiquidity` where the deposits exceed the debt by less,
    /// else with `Overflow` where the new total does not fit in 128 bits.
    pub fn withdraw(
        &mut self,
        model: &InterestRateModel,
        caller: u64,
        user: u64,
        amount: i128,
        now: u64,
    ) -> (r: Result<i128, Error>)
        ensures
            old(self).wf() ==> final(self).wf(),
            match old(self)@.withdraw_outcome(model.curve(), caller, user, amount, now) {
                Ok(after) => r == Ok::<i128, Error>(amount) && final(self)@ == after,
                Err(e) => r == Err::<i128, Error>(e) && final(self)@ == old(self)@,
            },
            r is Ok ==> old(self)@.respected_by(final(self)@, model.curve(), now),
    {
        let accrued: PoolState = self.enter(model, caller, user, now)?;
        let before: Account = self.get_account(user);
        let (state, account): (PoolState, Account) = accrued.withdraw(&before, amount)?;
        proof {
            self@.lemma_withdraw_respects(model.curve(), caller, user, amount, now);
        }
        self.commit(state, user, account);
        Ok(amount)
    }

    /// Puts up `amount` units of collateral on behalf of `user`, and
    /// returns `amount`.
    ///
    /// Refused with `NotInitialized` where the pool was not opened, else
    /// with `Unauthorized` where `caller` is not `user`, else with
    /// `Overflow` where the accrual does not fit in 128 bits, else with
    /// `InvalidInput` where `amount` is not positive, else with `Overflow`
    /// where the new balance does not fit in 128 bits.
    pub fn deposit_collateral(
        &mut self,
        model: &InterestRateModel,
        caller: u64,
        user: u64,
        amount: i128,
        now: u64,
    ) -> (r: Result<i128, Error>)
        ensures
            old(self).wf() ==> final(self).wf(),
            match old(self)@.deposit_collateral_outcome(model.curve(), caller, user, amount, now) {
                Ok(after) => r == Ok::<i128, Error>(amount) && final(self)@ == after,
                Err(e) => r == Err::<i128, Error>(e) && final(self)@ == old(self)@,
            },
            r is Ok ==> old(self)@.respected_by(final(self)@, model.curve(), now),
    {
        let accrued: PoolState = self.enter(model, caller, user, now)?;
        let before: Account = self.get_account(user);
        let account: Account = self.manager.deposit_collateral(&before, amount)?;
        proof {
            self@.lemma_deposit_collateral_respects(model.curve(), caller, user, amount, now);
        }
        self.commit(accrued, user, account);
        Ok(amount)
    }

    /// Takes `amount` units of collateral back on behalf of `user`, and
    /// returns `amount`.
    ///
    /// Refused with `NotInitialized` where the pool was not opened, else
    /// with `Unauthorized` where `caller` is not `user`, else with
    /// `Overflow` where the accrual does not fit in 128 bits, else with
    /// `InvalidInput` where `amount` is not positive, else with
    /// `InsufficientBalance` where `user` holds less collateral. Where
    /// `user` owes something, the oracle is then asked for both prices and
    /// the withdrawal is refused as the oracle refuses, else with
    /// `Overflow` where the health factor of what would remain does not fit
    /// in 128 bits, else with `UnhealthyPosition` where that health factor
    /// is below 1.0. Nothing is changed before all of this is settled.
    pub fn withdraw_collateral(
        &mut self,
        model: &InterestRateModel,
        oracle: &PriceOracle,
        caller: u64,
        user: u64,
        amount: i128,
        now: u64,
    ) -> (r: Result<i128, Error>)
        ensures
            old(self).wf() ==> final(self).wf(),
            match old(self)@.withdraw_collateral_outcome(
                (Conditions { curve: model.curve(), oracle: oracle@, now }),
                caller,
                user,
                amount,
            ) {
                Ok(after) => r == Ok::<i128, Error>(amount) && final(self)@ == after,
                Err(e) => r == Err::<i128, Error>(e) && final(self)@ == old(self)@,
            },
            r is Ok ==> old(self)@.respected_by(final(self)@, model.curve(), now),
    {
        let ghost conditions = Conditions { curve: model.curve(), oracle: oracle@, now };
        let accrued: PoolState = self.enter(model, caller, user, now)?;
        let before: Account = self.get_account(user);
        let needs_prices: bool = 0 < amount && amount <= before.collateral_balance
            && before.borrow_balance != 0;
        let (collateral_price, borrow_price): (i128, i128) = if needs_prices {
            self.prices(oracle, now)?
        } else {
            (0, 0)
        };
        let account: Account = self.manager.withdraw_collateral(
            &before,
            amount,
            collateral_price,
            borrow_price,
        )?;
        proof {
            self@.lemma_withdraw_collateral_respects(conditions, caller, user, amount);
        }
        self.commit(accrued, user, account);
        Ok(amount)
    }

    /// Draws `amount` units of the lendable asset against the collateral of
    /// `user`, and returns `amount`.
    ///
    /// Refused with `NotInitialized` where the pool was not opened, else
    /// with `Unauthorized` where `caller` is not `user`, else with
    /// `Overflow` where the accrual does not fit in 128 bits, else with
    /// `InvalidInput` where `amount` is not positive, else with
    /// `InsufficientLiquidity` where the deposits exceed the debt by less.
    /// The oracle is then asked for both prices and the borrow is refused
    /// as the oracle refuses, else with `Overflow` where the capacity of the
    /// collateral does not fit in 128 bits, else with `ExceedsCapacity`
    /// where `user` would owe more than that capacity, else with `Overflow`
    /// where the new total does not fit in 128 bits.
    pub fn borrow(
        &mut self,
        model: &InterestRateModel,
        oracle: &PriceOracle,
        caller: u64,
        user: u64,
        amount: i128,
        now: u64,
    ) -> (r: Result<i128, Error>)
        ensures
            old(self).wf() ==> final(self).wf(),
            match old(self)@.borrow_outcome(
                (Conditions { curve: model.curve(), oracle: oracle@, now }),
                caller,
                user,
                amount,
            ) {
                Ok(after) => r == Ok::<i128, Error>(amount) && final(self)@ == after,
                Err(e) => r == Err::<i128, Error>(e) && final(self)@ == old(self)@,
            },
            r is Ok ==> old(self)@.respected_by(final(self)@, model.curve(), now),
    {
        let ghost conditions = Conditions { curve: model.curve(), oracle: oracle@, now };
        let accrued: PoolState = self.enter(model, caller, user, now)?;
        let before: Account = self.get_account(user);
        if amount <= 0 {
            return Err(Error::InvalidInput);
        }
        if accrued.lacks_liquidity(amount) {
            return Err(Error::InsufficientLiquidity);
        }
        let (collateral_price, borrow_price): (i128, i128) = self.prices(oracle, now)?;
        let capacity: i128 = self.manager.risk.compute_max_borrow(
            before.collateral_balance,
            collateral_price,
            borrow_price,
        )?;
        let (state, account): (PoolState, Account) = accrued.borrow(&before, amount, capacity)?;
        proof {
            self@.lemma_borrow_respects(conditions, caller, user, amount);
        }
        self.commit(state, user, account);
        Ok(amount)
    }

    /// Pays back `amount` units of the debt of `user`, or the whole debt
    /// where that is less, and returns what was paid back.
    ///
    /// Refused with `NotInitialized` where the pool was not opened, else
    /// with `Unauthorized` where `caller` is not `user`, else with
    /// `Overflow` where the accrual does not fit in 128 bits, else with
    /// `InvalidInput` where `amount` is not positive, else with
    /// `NoOutstandingDebt` where `user` owes nothing, else with `Overflow`
    /// where the new total does not fit in 128 bits.
    pub fn repay(
        &mut self,
        model: &InterestRateModel,
        caller: u64,
        user: u64,
        amount: i128,
        now: u64,
    ) -> (r: Result<i128, Error>)
        ensures
            old(self).wf() ==> final(self).wf(),
            match old(self)@.repay_outcome(model.curve(), caller, user, amount, now) {
                Ok((after, repaid)) => r == Ok::<i128, Error>(repaid) && final(self)@ == after,
                Err(e) => r == Err::<i128, Error>(e) && final(self)@ == old(self)@,
            },
            r is Ok ==> old(self)@.respected_by(final(self)@, model.curve(), now),
    {
        let accrued: PoolState = self.enter(model, caller, user, now)?;
        let before: Account = self.get_account(user);
        let (state, account, repaid): (PoolState, Account, i128) = accrued.repay(&before, amount)?;
        proof {
            self@.lemma_repay_respects(model.curve(), caller, user, amount, now);
        }
        self.commit(state, user, account);
        Ok(repaid)
    }

    /// Liquidates the position of `borrower` in full on behalf of
    /// `liquidator`, and returns what the liquidator has to pay and what it
    /// receives.
    ///
    /// Refused with `NotInitialized` where the pool was not opened, else
    /// with `Unauthorized` where `caller` is not `liquidator`, else with
    /// `Overflow` where the accrual does not fit in 128 bits, else with
    /// `PositionHealthy` where `borrower` owes nothing. The oracle is then
    /// asked for both prices and the liquidation is refused as the oracle
    /// refuses, else with `Overflow` where the health factor does not fit
    /// in 128 bits, else with `PositionHealthy` where the health factor is
    /// 1.0 or more, else with `Overflow` where what is seized or the new
    /// total does not fit in 128 bits.
    pub fn liquidate(
        &mut self,
        model: &InterestRateModel,
        oracle: &PriceOracle,
        caller: u64,
        liquidator: u64,
        borrower: u64,
        now: u64,
    ) -> (r: Result<Liquidation, Error>)
        ensures
            old(self).wf() ==> final(self).wf(),
            match old(self)@.liquidate_outcome(
                (Conditions { curve: model.curve(), oracle: oracle@, now }),
                caller,
                liquidator,
                borrower,
            ) {
                Ok((after, moved)) => r == Ok::<Liquidation, Error>(moved) && final(self)@ == after,
                Err(e) => r == Err::<Liquidation, Error>(e) && final(self)@ == old(self)@,
            },
            r is Ok ==> old(self)@.respected_by(final(self)@, model.curve(), now),
    {
        let ghost conditions = Conditions { curve: model.curve(), oracle: oracle@, now };
        let accrued: PoolState = self.enter(model, caller, liquidator, now)?;
        let before: Account = self.get_account(borrower);
        if before.borrow_balance == 0 {
            return Err(Error::PositionHealthy);
        }
        let (collateral_price, borrow_price): (i128, i128) = self.prices(oracle, now)?;
        let (state, account, moved): (PoolState, Account, Liquidation) = accrued.liquidate(
            &self.manager,
            &before,
            collateral_price,
            borrow_price,
        )?;
        proof {
            self@.lemma_liquidate_respects(conditions, caller, liquidator, borrower);
        }
        self.commit(state, borrower, account);
        Ok(moved)
    }

    /// The stored total of deposits.
    pub fn get_total_deposits(&self) -> (total: i128)
        ensures
            total == self@.state.total_deposits,
    {
        self.state.total_deposits
    }

    /// The stored total debt.
    pub fn get_total_borrows(&self) -> (total: i128)
        ensures
            total == self@.state.total_borrows,
    {
        self.state.total_borrows
    }

    /// The utilization of the stored totals, at scale `SCALE`.
    ///
    /// Refused with `Overflow` exactly where a step does not fit in 128 bits.
    pub fn get_utilization_rate(&self) -> (r: Result<i128, Error>)
        ensures
            match r {
                Ok(utilization) => {
                    &&& self@.state.utilization_fits()
                    &&& utilization == self@.state.utilization()
                },
                Err(e) => e == Error::Overflow && !self@.state.utilization_fits(),
            },
    {
        self.state.get_utilization_rate()
    }

    /// What `user` has deposited.
    pub fn get_user_deposit(&self, user: u64) -> (balance: i128)
        ensures
            balance == self@.account(user).deposit_balance,
    {
        self.get_account(user).deposit_balance
    }

    /// What `user` owes.
    pub fn get_user_borrow(&self, user: u64) -> (balance: i128)
        ensures
            balance == self@.account(user).borrow_balance,
    {
        self.get_account(user).borrow_balance
    }

    /// What `user` has put up as collateral.
    pub fn get_user_collateral(&self, user: u64) -> (balance: i128)
        ensures
            balance == self@.account(user).collateral_balance,
    {
        self.get_account(user).collateral_balance
    }

    /// The health factor of the position of `user` at the oracle's prices,
    /// at scale `SCALE`.
    ///
    /// Where `user` owes nothing, the health factor is `HEALTH_FACTOR_MAX`
    /// and the oracle is not asked. Otherwise refused as the oracle refuses
    /// a price, else with `Overflow` where a step does not fit in 128 bits.
    pub fn get_health_factor(&self, oracle: &PriceOracle, user: u64, now: u64) -> (r: Result<
        i128,
        Error,
    >)
        ensures
            r == self@.health_factor_outcome(oracle@, user, now),
            self@.account(user).borrow_balance == 0 ==> r == Ok::<i128, Error>(HEALTH_FACTOR_MAX),
    {
        let account: Account = self.get_account(user);
        if account.borrow_balance == 0 {
            return Ok(HEALTH_FACTOR_MAX);
        }
        let (collateral_price, borrow_price): (i128, i128) = self.prices(oracle, now)?;
        self.manager.get_health_ratio(&account, collateral_price, borrow_price)
    }
}

} // verus!
