//! The risk engine: what a position may borrow, how healthy it is, and what
//! a liquidation takes from it.
//!
//! A position is one account's collateral set against its debt. Both are
//! valued in US dollars at prices that the caller supplies.

use crate::error::Error;
use crate::fixed_point::{
    checked_div, checked_mul_div, fits, lemma_mul_div_nonnegative, mul_div, mul_div_fits,
    trunc_div, BASIS_POINTS, PRICE_SCALE, SCALE,
};
use crate::price_oracle::{asset_amount, usd_value};
use vstd::arithmetic::div_mod::{
    lemma_div_by_multiple, lemma_div_is_ordered, lemma_fundamental_div_mod, lemma_mod_bound,
};
use vstd::arithmetic::mul::lemma_mul_inequality;
use vstd::prelude::*;

verus! {

/// The loan-to-value ratio of a pool that was given none: 75%.
pub const DEFAULT_LTV_RATIO: u32 = 7_500;

/// The liquidation threshold of a pool that was given none: 80%.
pub const DEFAULT_LIQUIDATION_THRESHOLD: u32 = 8_000;

/// The health factor of a position without debt. It stands for "infinitely
/// healthy"; a position with debt may still have a larger health factor.
pub const HEALTH_FACTOR_MAX: i128 = 999_000_000;

/// The balances of one participant.
///
/// Interest accrues to the pool's total debt only: `borrow_balance` is what
/// the account drew and has not repaid. `borrow_index_snapshot` records the
/// pool's borrow index at the account's last borrow, repayment or
/// liquidation, so that a reader can work out the interest since then.
#[derive(Clone, Copy, Debug, PartialEq, Eq, Structural)]
pub struct Account {
    /// Units of the lendable asset supplied to the pool.
    pub deposit_balance: i128,
    /// Units of the lendable asset drawn from the pool.
    pub borrow_balance: i128,
    /// Units of the collateral asset held by the pool.
    pub collateral_balance: i128,
    /// The borrow index at the last change of `borrow_balance`; zero where
    /// there was none.
    pub borrow_index_snapshot: i128,
}

impl Account {
    /// No balance is negative, and an account without collateral has no debt.
    pub open spec fn wf(self) -> bool {
        &&& self.deposit_balance >= 0
        &&& self.borrow_balance >= 0
        &&& self.collateral_balance >= 0
        &&& self.collateral_balance == 0 ==> self.borrow_balance == 0
    }

    /// The account of a participant who never dealt with the pool.
    pub open spec fn empty() -> Account {
        Account {
            deposit_balance: 0,
            borrow_balance: 0,
            collateral_balance: 0,
            borrow_index_snapshot: 0,
        }
    }

    /// An account with no balances.
    pub fn new() -> (account: Account)
        ensures
            account == Account::empty(),
            account.wf(),
    {
        Account {
            deposit_balance: 0,
            borrow_balance: 0,
            collateral_balance: 0,
            borrow_index_snapshot: 0,
        }
    }

    /// Whether the balances are those of a well-formed account.
    pub fn is_valid(&self) -> (valid: bool)
        ensures
            valid == self.wf(),
    {
        self.deposit_balance >= 0 && self.borrow_balance >= 0 && self.collateral_balance >= 0 && (
        self.collateral_balance != 0 || self.borrow_balance == 0)
    }
}

/// What a liquidation moved.
#[derive(Clone, Copy, Debug, PartialEq, Eq, Structural)]
pub struct Liquidation {
    /// Units of the lendable asset that the liquidator pays to the pool.
    pub repaid: i128,
    /// Units of the collateral asset that the liquidator receives.
    pub seized: i128,
}

/// The fractions that bound a position, in basis points.
#[derive(Clone, Copy, Debug, PartialEq, Eq, Structural)]
pub struct RiskParameters {
    /// The share of the collateral's value that may be borrowed.
    pub ltv_ratio: u32,
    /// The share of the collateral's value that must cover the debt, lest
    /// the position be liquidated.
    pub liquidation_threshold: u32,
    /// What a liquidator receives on top of the value repaid.
    pub liquidation_bonus: u32,
}

impl RiskParameters {
    /// The loan-to-value ratio lies below the liquidation threshold, that
    /// below 100%, and the bonus is at most 100%.
    pub open spec fn valid(self) -> bool {
        &&& self.ltv_ratio < self.liquidation_threshold
        &&& self.liquidation_threshold < BASIS_POINTS
        &&& self.liquidation_bonus <= BASIS_POINTS
    }

    /// A loan-to-value ratio of 75%, a liquidation threshold of 80% and no
    /// liquidation bonus.
    pub open spec fn standard() -> RiskParameters {
        RiskParameters {
            ltv_ratio: DEFAULT_LTV_RATIO,
            liquidation_threshold: DEFAULT_LIQUIDATION_THRESHOLD,
            liquidation_bonus: 0,
        }
    }

    /// The US dollar value that `collateral` units allow to borrow.
    pub open spec fn borrow_limit_usd(self, collateral: int, collateral_price: int) -> int {
        mul_div(usd_value(collateral, collateral_price), self.ltv_ratio as int, BASIS_POINTS as int)
    }

    /// The most units of the lendable asset that `collateral` units allow to
    /// owe.
    pub open spec fn max_borrow(self, collateral: int, collateral_price: int, borrow_price: int) -> int
        recommends
            borrow_price != 0,
    {
        asset_amount(self.borrow_limit_usd(collateral, collateral_price), borrow_price)
    }

    /// Whether every step of `max_borrow` fits in 128 bits.
    pub open spec fn max_borrow_fits(
        self,
        collateral: int,
        collateral_price: int,
        borrow_price: int,
    ) -> bool {
        &&& mul_div_fits(collateral, collateral_price, PRICE_SCALE as int)
        &&& mul_div_fits(
            usd_value(collateral, collateral_price),
            self.ltv_ratio as int,
            BASIS_POINTS as int,
        )
        &&& mul_div_fits(
            self.borrow_limit_usd(collateral, collateral_price),
            PRICE_SCALE as int,
            borrow_price,
        )
    }

    /// The health factor of a position, at scale `SCALE`: the value of the
    /// collateral times the liquidation threshold, over the value of the
    /// debt. Both values are in US dollars; the quotient is taken once, at
    /// the end.
    ///
    /// A position without debt has the health factor `HEALTH_FACTOR_MAX`,
    /// whatever its collateral. A debt whose value rounds to zero dollars is
    /// covered by any collateral of positive value, and by nothing less.
    pub open spec fn health_factor(
        self,
        collateral: int,
        borrow: int,
        collateral_price: int,
        borrow_price: int,
    ) -> int {
        let value = usd_value(collateral, collateral_price);
        let debt = usd_value(borrow, borrow_price);
        if borrow == 0 {
            HEALTH_FACTOR_MAX as int
        } else if debt == 0 {
            if value * self.liquidation_threshold > 0 {
                HEALTH_FACTOR_MAX as int
            } else {
                0
            }
        } else {
            trunc_div(value * self.liquidation_threshold * SCALE, debt * BASIS_POINTS)
        }
    }

    /// Whether every step of `health_factor` fits in 128 bits.
    pub open spec fn health_factor_fits(
        self,
        collateral: int,
        borrow: int,
        collateral_price: int,
        borrow_price: int,
    ) -> bool {
        let value = usd_value(collateral, collateral_price);
        let debt = usd_value(borrow, borrow_price);
        borrow == 0 || {
            &&& mul_div_fits(collateral, collateral_price, PRICE_SCALE as int)
            &&& mul_div_fits(borrow, borrow_price, PRICE_SCALE as int)
            &&& fits(value * self.liquidation_threshold)
            &&& debt == 0 || {
                &&& fits(value * self.liquidation_threshold * SCALE)
                &&& fits(debt * BASIS_POINTS)
                &&& fits(self.health_factor(collateral, borrow, collateral_price, borrow_price))
            }
        }
    }

    /// The US dollar value that a liquidator is owed for repaying `repaid`
    /// units: their value and the bonus on it.
    pub open spec fn seizable_usd(self, repaid: int, borrow_price: int) -> int {
        usd_value(repaid, borrow_price) + mul_div(
            usd_value(repaid, borrow_price),
            self.liquidation_bonus as int,
            BASIS_POINTS as int,
        )
    }

    /// The units of collateral that a liquidator receives for repaying
    /// `repaid` units: what `seizable_usd` buys, but no more than the
    /// position holds and no less than nothing.
    pub open spec fn seized(
        self,
        repaid: int,
        collateral: int,
        collateral_price: int,
        borrow_price: int,
    ) -> int
        recommends
            collateral_price != 0,
    {
        let owed = asset_amount(self.seizable_usd(repaid, borrow_price), collateral_price);
        if owed <= 0 || collateral <= 0 {
            0
        } else if owed < collateral {
            owed
        } else {
            collateral
        }
    }

    /// Whether every step of `seized` fits in 128 bits.
    pub open spec fn seized_fits(self, repaid: int, collateral_price: int, borrow_price: int) -> bool {
        &&& mul_div_fits(repaid, borrow_price, PRICE_SCALE as int)
        &&& mul_div_fits(
            usd_value(repaid, borrow_price),
            self.liquidation_bonus as int,
            BASIS_POINTS as int,
        )
        &&& fits(self.seizable_usd(repaid, borrow_price))
        &&& mul_div_fits(self.seizable_usd(repaid, borrow_price), PRICE_SCALE as int, collateral_price)
    }

    /// A position with debt and without collateral has the health factor
    /// zero.
    pub proof fn lemma_no_collateral_no_health(
        self,
        borrow: int,
        collateral_price: int,
        borrow_price: int,
    )
        requires
            borrow != 0,
        ensures
            self.health_factor(0, borrow, collateral_price, borrow_price) == 0,
    {
        assert(0 * collateral_price == 0);
        assert(usd_value(0, collateral_price) == 0);
        assert(0 * (self.liquidation_threshold as int) == 0);
        assert(0 * (SCALE as int) == 0);
        let debt = usd_value(borrow, borrow_price);
        if debt != 0 {
            let divisor = debt * BASIS_POINTS;
            assert(0int / divisor == 0) by (nonlinear_arith)
                requires
                    divisor != 0,
            ;
        }
    }

    /// Without collateral nothing may be borrowed.
    pub proof fn lemma_no_collateral_no_credit(self, collateral_price: int, borrow_price: int)
        requires
            borrow_price != 0,
        ensures
            self.max_borrow(0, collateral_price, borrow_price) == 0,
    {
        assert(0 * collateral_price == 0);
        assert(usd_value(0, collateral_price) == 0);
        assert(0 * (self.ltv_ratio as int) == 0);
        assert(self.borrow_limit_usd(0, collateral_price) == 0);
        assert(0 * (PRICE_SCALE as int) == 0);
        assert(0int / borrow_price == 0) by (nonlinear_arith)
            requires
                borrow_price != 0,
        ;
    }

    /// A debt within what the collateral allows to borrow is covered: at
    /// the prices at which it is within that limit, the position has a
    /// health factor of at least 1.0.
    pub proof fn lemma_debt_within_limit_is_covered(
        self,
        collateral: int,
        borrow: int,
        collateral_price: int,
        borrow_price: int,
    )
        requires
            self.valid(),
            collateral >= 0,
            collateral_price > 0,
            borrow_price > 0,
            0 < borrow <= self.max_borrow(collateral, collateral_price, borrow_price),
        ensures
            self.health_factor(collateral, borrow, collateral_price, borrow_price) >= SCALE,
    {
        let scale = PRICE_SCALE as int;
        let points = BASIS_POINTS as int;
        let ltv = self.ltv_ratio as int;
        let threshold = self.liquidation_threshold as int;
        let value = usd_value(collateral, collateral_price);
        let limit = self.borrow_limit_usd(collateral, collateral_price);
        let most = self.max_borrow(collateral, collateral_price, borrow_price);
        let debt = usd_value(borrow, borrow_price);
        lemma_mul_div_nonnegative(collateral, collateral_price, scale);
        lemma_mul_div_nonnegative(value, ltv, points);
        lemma_mul_div_nonnegative(limit, scale, borrow_price);
        lemma_mul_div_nonnegative(borrow, borrow_price, scale);
        // The value of the debt is no more than the limit.
        lemma_fundamental_div_mod(limit * scale, borrow_price);
        lemma_mod_bound(limit * scale, borrow_price);
        assert(borrow_price * most <= limit * scale);
        lemma_mul_inequality(borrow, most, borrow_price);
        assert(most * borrow_price == borrow_price * most) by (nonlinear_arith);
        assert(borrow * borrow_price <= limit * scale);
        lemma_div_is_ordered(borrow * borrow_price, limit * scale, scale);
        lemma_div_by_multiple(limit, scale);
        assert(debt <= limit);
        // The limit in basis points is no more than the value times either ratio.
        lemma_fundamental_div_mod(value * ltv, points);
        lemma_mod_bound(value * ltv, points);
        assert(points * limit <= value * ltv);
        assert(value * ltv <= value * threshold) by (nonlinear_arith)
            requires
                value >= 0,
                ltv < threshold,
        ;
        if debt == 0 {
            // Something can be borrowed, so the limit is not zero.
            if limit == 0 {
                assert(0 * scale == 0);
                assert(0int / borrow_price == 0) by (nonlinear_arith)
                    requires
                        borrow_price > 0,
                ;
                assert(most == 0);
            }
            assert(value * threshold > 0);
        } else {
            let covered = value * threshold * SCALE;
            let divisor = debt * points;
            assert(divisor > 0 && divisor <= points * limit) by (nonlinear_arith)
                requires
                    divisor == debt * points,
                    0 < debt <= limit,
                    points > 0,
            ;
            assert(divisor * SCALE <= covered) by (nonlinear_arith)
                requires
                    divisor <= value * threshold,
                    covered == value * threshold * SCALE,
            ;
            lemma_div_is_ordered(divisor * SCALE, covered, divisor);
            assert(divisor * SCALE == (SCALE as int) * divisor) by (nonlinear_arith);
            lemma_div_by_multiple(SCALE as int, divisor);
            assert(covered >= 0);
        }
    }

    /// The parameters, provided that they are valid.
    ///
    /// Refused with `InvalidInput` exactly where they are not.
    pub fn new(ltv_ratio: u32, liquidation_threshold: u32, liquidation_bonus: u32) -> (r: Result<
        RiskParameters,
        Error,
    >)
        ensures
            match r {
                Ok(p) => {
                    &&& p.valid()
                    &&& p == (RiskParameters { ltv_ratio, liquidation_threshold, liquidation_bonus })
                },
                Err(e) => {
                    &&& e == Error::InvalidInput
                    &&& !(RiskParameters {
                        ltv_ratio,
                        liquidation_threshold,
                        liquidation_bonus,
                    }).valid()
                },
            },
    {
        if ltv_ratio < liquidation_threshold && liquidation_threshold < 10_000
            && liquidation_bonus <= 10_000 {
            Ok(RiskParameters { ltv_ratio, liquidation_threshold, liquidation_bonus })
        } else {
            Err(Error::InvalidInput)
        }
    }

    /// The most units of the lendable asset that `collateral` units allow to
    /// owe.
    ///
    /// Refused with `PriceNotSet` exactly where `borrow_price` is zero, and
    /// otherwise with `Overflow` exactly where a step does not fit in 128
    /// bits.
    pub fn compute_max_borrow(
        &self,
        collateral: i128,
        collateral_price: i128,
        borrow_price: i128,
    ) -> (r: Result<i128, Error>)
        ensures
            r == self.max_borrow_result(collateral, collateral_price, borrow_price),
    {
        if borrow_price == 0 {
            return Err(Error::PriceNotSet);
        }
        let Some(value) = checked_mul_div(collateral, collateral_price, PRICE_SCALE) else {
            return Err(Error::Overflow);
        };
        let Some(limit) = checked_mul_div(value, self.ltv_ratio as i128, BASIS_POINTS) else {
            return Err(Error::Overflow);
        };
        match checked_mul_div(limit, PRICE_SCALE, borrow_price) {
            Some(amount) => Ok(amount),
            None => Err(Error::Overflow),
        }
    }

    /// What `compute_max_borrow` returns.
    pub open spec fn max_borrow_result(
        self,
        collateral: i128,
        collateral_price: i128,
        borrow_price: i128,
    ) -> Result<i128, Error> {
        if borrow_price == 0 {
            Err(Error::PriceNotSet)
        } else if !self.max_borrow_fits(
            collateral as int,
            collateral_price as int,
            borrow_price as int,
        ) {
            Err(Error::Overflow)
        } else {
            Ok(
                self.max_borrow(
                    collateral as int,
                    collateral_price as int,
                    borrow_price as int,
                ) as i128,
            )
        }
    }

    /// The health factor of a position.
    ///
    /// Refused with `Overflow` exactly where a step does not fit in 128 bits.
    /// A position without debt is never refused.
    pub fn compute_health_factor(
        &self,
        collateral: i128,
        borrow: i128,
        collateral_price: i128,
        borrow_price: i128,
    ) -> (r: Result<i128, Error>)
        ensures
            r == self.health_factor_result(collateral, borrow, collateral_price, borrow_price),
            borrow == 0 ==> r == Ok::<i128, Error>(HEALTH_FACTOR_MAX),
    {
        if borrow == 0 {
            return Ok(HEALTH_FACTOR_MAX);
        }
        let Some(value) = checked_mul_div(collateral, collateral_price, PRICE_SCALE) else {
            return Err(Error::Overflow);
        };
        let Some(debt) = checked_mul_div(borrow, borrow_price, PRICE_SCALE) else {
            return Err(Error::Overflow);
        };
        let Some(weighted) = value.checked_mul(self.liquidation_threshold as i128) else {
            return Err(Error::Overflow);
        };
        if debt == 0 {
            return if weighted > 0 {
                Ok(HEALTH_FACTOR_MAX)
            } else {
                Ok(0)
            };
        }
        let Some(covered) = weighted.checked_mul(SCALE) else {
            return Err(Error::Overflow);
        };
        let Some(divisor) = debt.checked_mul(BASIS_POINTS) else {
            return Err(Error::Overflow);
        };
        match checked_div(covered, divisor) {
            Some(factor) => Ok(factor),
            None => Err(Error::Overflow),
        }
    }

    /// What `compute_health_factor` returns.
    pub open spec fn health_factor_result(
        self,
        collateral: i128,
        borrow: i128,
        collateral_price: i128,
        borrow_price: i128,
    ) -> Result<i128, Error> {
        if self.health_factor_fits(
            collateral as int,
            borrow as int,
            collateral_price as int,
            borrow_price as int,
        ) {
            Ok(
                self.health_factor(
                    collateral as int,
                    borrow as int,
                    collateral_price as int,
                    borrow_price as int,
                ) as i128,
            )
        } else {
            Err(Error::Overflow)
        }
    }
}

/// The risk engine of a pool: which asset backs which, and within what
/// bounds.
#[derive(Clone, Copy, Debug, PartialEq, Eq, Structural)]
pub struct CollateralManager {
    /// The asset that positions are backed with.
    pub collateral_asset: u64,
    /// The asset that positions owe.
    pub borrow_asset: u64,
    /// The bounds on a position.
    pub risk: RiskParameters,
}

impl CollateralManager {
    /// What `deposit_collateral` returns.
    pub open spec fn deposit_collateral_outcome(account: Account, amount: i128) -> Result<
        Account,
        Error,
    > {
        if amount <= 0 {
            Err(Error::InvalidInput)
        } else if !fits(account.collateral_balance + amount) {
            Err(Error::Overflow)
        } else {
            Ok(
                Account {
                    collateral_balance: (account.collateral_balance + amount) as i128,
                    ..account
                },
            )
        }
    }

    /// What `withdraw_collateral` returns.
    pub open spec fn withdraw_collateral_outcome(
        self,
        account: Account,
        amount: i128,
        collateral_price: i128,
        borrow_price: i128,
    ) -> Result<Account, Error> {
        let remaining = (account.collateral_balance - amount) as i128;
        let after = Account { collateral_balance: remaining, ..account };
        if amount <= 0 {
            Err(Error::InvalidInput)
        } else if amount > account.collateral_balance {
            Err(Error::InsufficientBalance)
        } else if account.borrow_balance == 0 {
            Ok(after)
        } else {
            match self.risk.health_factor_result(
                remaining,
                account.borrow_balance,
                collateral_price,
                borrow_price,
            ) {
                Err(e) => Err(e),
                Ok(factor) => if factor < SCALE {
                    Err(Error::UnhealthyPosition)
                } else {
                    Ok(after)
                },
            }
        }
    }

    /// What `liquidate` returns.
    pub open spec fn liquidation_outcome(
        self,
        borrower: Account,
        collateral_price: i128,
        borrow_price: i128,
    ) -> Result<(Account, Liquidation), Error> {
        let seized = self.risk.seized(
            borrower.borrow_balance as int,
            borrower.collateral_balance as int,
            collateral_price as int,
            borrow_price as int,
        ) as i128;
        match self.risk.health_factor_result(
            borrower.collateral_balance,
            borrower.borrow_balance,
            collateral_price,
            borrow_price,
        ) {
            Err(e) => Err(e),
            Ok(factor) => if factor >= SCALE {
                Err(Error::PositionHealthy)
            } else if collateral_price == 0 {
                Err(Error::PriceNotSet)
            } else if !self.risk.seized_fits(
                borrower.borrow_balance as int,
                collateral_price as int,
                borrow_price as int,
            ) {
                Err(Error::Overflow)
            } else {
                Ok(
                    (
                        Account {
                            borrow_balance: 0,
                            collateral_balance: (borrower.collateral_balance - seized) as i128,
                            ..borrower
                        },
                        Liquidation { repaid: borrower.borrow_balance, seized },
                    ),
                )
            },
        }
    }

    /// The manager that `initialize` returns.
    pub open spec fn standard(collateral_asset: u64, borrow_asset: u64) -> CollateralManager {
        CollateralManager { collateral_asset, borrow_asset, risk: RiskParameters::standard() }
    }

    /// A manager with the standard risk parameters.
    #[verifier::when_used_as_spec(standard)]
    pub fn initialize(collateral_asset: u64, borrow_asset: u64) -> (manager: CollateralManager)
        ensures
            manager == Self::standard(collateral_asset, borrow_asset),
            manager.risk.valid(),
    {
        CollateralManager {
            collateral_asset,
            borrow_asset,
            risk: RiskParameters {
                ltv_ratio: DEFAULT_LTV_RATIO,
                liquidation_threshold: DEFAULT_LIQUIDATION_THRESHOLD,
                liquidation_bonus: 0,
            },
        }
    }

    /// The account after `amount` units of collateral were added to it.
    ///
    /// Refused with `InvalidInput` where `amount` is not positive, else with
    /// `Overflow` where the new balance does not fit in 128 bits.
    pub fn deposit_collateral(&self, account: &Account, amount: i128) -> (r: Result<Account, Error>)
        ensures
            r == Self::deposit_collateral_outcome(*account, amount),
            r matches Ok(after) ==> (account.wf() ==> after.wf()),
    {
        if amount <= 0 {
            return Err(Error::InvalidInput);
        }
        match account.collateral_balance.checked_add(amount) {
            Some(balance) => Ok(Account { collateral_balance: balance, ..*account }),
            None => Err(Error::Overflow),
        }
    }

    /// The account after `amount` units of collateral were taken from it.
    ///
    /// Refused with `InvalidInput` where `amount` is not positive, else with
    /// `InsufficientBalance` where the account holds less. Where the account
    /// owes something, the health factor of what would remain is computed
    /// at the given prices: the withdrawal is refused with `Overflow` where
    /// that does not fit in 128 bits, else with `UnhealthyPosition` where it
    /// is below 1.0. An account that owes nothing is not held to any
    /// price.
    pub fn withdraw_collateral(
        &self,
        account: &Account,
        amount: i128,
        collateral_price: i128,
        borrow_price: i128,
    ) -> (r: Result<Account, Error>)
        ensures
            r == self.withdraw_collateral_outcome(*account, amount, collateral_price, borrow_price),
            r matches Ok(after) ==> (account.wf() ==> after.wf()),
    {
        if amount <= 0 {
            return Err(Error::InvalidInput);
        }
        if amount > account.collateral_balance {
            return Err(Error::InsufficientBalance);
        }
        let remaining: i128 = account.collateral_balance - amount;
        if account.borrow_balance != 0 {
            let factor: i128 = self.risk.compute_health_factor(
                remaining,
                account.borrow_balance,
                collateral_price,
                borrow_price,
            )?;
            if factor < SCALE {
                return Err(Error::UnhealthyPosition);
            }
            proof {
                if remaining == 0 {
                    self.risk.lemma_no_collateral_no_health(
                        account.borrow_balance as int,
                        collateral_price as int,
                        borrow_price as int,
                    );
                }
            }
        }
        Ok(Account { collateral_balance: remaining, ..*account })
    }

    /// The units of collateral that the account holds.
    pub fn get_collateral_balance(&self, account: &Account) -> (balance: i128)
        ensures
            balance == account.collateral_balance,
    {
        account.collateral_balance
    }

    /// The health factor of the account's position at the given prices.
    ///
    /// Refused with `Overflow` exactly where a step does not fit in 128 bits.
    /// An account without debt has the health factor `HEALTH_FACTOR_MAX`,
    /// whatever its collateral and whatever the prices.
    pub fn get_health_ratio(&self, account: &Account, collateral_price: i128, borrow_price: i128) -> (r:
        Result<i128, Error>)
        ensures
            r == self.risk.health_factor_result(
                account.collateral_balance,
                account.borrow_balance,
                collateral_price,
                borrow_price,
            ),
            account.borrow_balance == 0 ==> r == Ok::<i128, Error>(HEALTH_FACTOR_MAX),
    {
        self.risk.compute_health_factor(
            account.collateral_balance,
            account.borrow_balance,
            collateral_price,
            borrow_price,
        )
    }

    /// Liquidates the borrower's position in full: the whole debt is
    /// repaid, and collateral worth the repaid value and the bonus on it
    /// leaves the position, as far as the position holds that much.
    ///
    /// Refused with `Overflow` where the health factor does not fit in 128
    /// bits, else with `PositionHealthy` where it is 1.0 or more, else with
    /// `PriceNotSet` where `collateral_price` is zero, else with `Overflow`
    /// where what is seized does not fit in 128 bits.
    pub fn liquidate(&self, borrower: &Account, collateral_price: i128, borrow_price: i128) -> (r:
        Result<(Account, Liquidation), Error>)
        ensures
            r == self.liquidation_outcome(*borrower, collateral_price, borrow_price),
            r matches Ok((after, moved)) ==> {
                &&& after.borrow_balance == 0
                &&& moved.repaid == borrower.borrow_balance
                &&& 0 <= moved.seized
                &&& after.collateral_balance + moved.seized == borrower.collateral_balance
                &&& borrower.wf() ==> after.wf()
            },
    {
        let factor: i128 = self.risk.compute_health_factor(
            borrower.collateral_balance,
            borrower.borrow_balance,
            collateral_price,
            borrow_price,
        )?;
        if factor >= SCALE {
            return Err(Error::PositionHealthy);
        }
        if collateral_price == 0 {
            return Err(Error::PriceNotSet);
        }
        let repaid: i128 = borrower.borrow_balance;
        let Some(repaid_usd) = checked_mul_div(repaid, borrow_price, PRICE_SCALE) else {
            return Err(Error::Overflow);
        };
        let Some(bonus_usd) = checked_mul_div(
            repaid_usd,
            self.risk.liquidation_bonus as i128,
            BASIS_POINTS,
        ) else {
            return Err(Error::Overflow);
        };
        let Some(owed_usd) = repaid_usd.checked_add(bonus_usd) else {
            return Err(Error::Overflow);
        };
        let Some(owed) = checked_mul_div(owed_usd, PRICE_SCALE, collateral_price) else {
            return Err(Error::Overflow);
        };
        let seized: i128 = if owed <= 0 || borrower.collateral_balance <= 0 {
            0
        } else if owed < borrower.collateral_balance {
            owed
        } else {
            borrower.collateral_balance
        };
        Ok(
            (
                Account {
                    borrow_balance: 0,
                    collateral_balance: borrower.collateral_balance - seized,
                    ..*borrower
                },
                Liquidation { repaid, seized },
            ),
        )
    }
}

/// Whether a position with this health factor may be liquidated: strictly
/// below 1.0.
pub fn is_liquidatable(health_factor: i128) -> (liquidatable: bool)
    ensures
        liquidatable == (health_factor < SCALE),
{
    health_factor < SCALE
}

} // verus!
