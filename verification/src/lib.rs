//! Accounting and risk core of a collateralized lending pool.
//!
//! The pool lends one asset against one collateral asset. It keeps the
//! totals of the pool and the balances of every participant, prices both
//! assets through an oracle, lets interest accrue with time, and decides
//! whether a borrow, a withdrawal or a liquidation may go through.
//!
//! Every amount, price and rate is a fixed-point integer. Each operation
//! either commits in full or returns a named error and leaves the books
//! exactly as they were.
//!
//! # Layout
//!
//! - [`fixed_point`]: the scales, and arithmetic that reports what does not
//!   fit in 128 bits.
//! - [`interest_rate_model`]: the kinked curve from utilization to rate.
//! - [`price_oracle`]: prices per asset, their age, and conversions.
//! - [`collateral`]: accounts, risk parameters, health factor, liquidation.
//! - [`pool_state`]: the totals, accrual, and what one operation does to the
//!   totals and to one account.
//! - [`pool`]: the whole ledger, its operations and what they preserve.
//! - [`totals`]: sums over all accounts.
//!
//! # Conventions
//!
//! Participants and admins are identified by a `u64`, assets by a `u64`
//! code. Nothing here reads a clock, a signature or a token balance: the
//! time is an argument, the caller is an argument that is checked against
//! the principal an operation needs, and an operation returns the amounts
//! that have to change hands.
//!
//! # Policies
//!
//! Interest accrues to the total debt of the pool and to its borrow index.
//! The debt of an account is what it drew and has not repaid; each account
//! records the borrow index at its last change of debt.
//!
//! A liquidation repays the whole debt of a position. The liquidator
//! receives collateral worth what it repaid and a bonus on it, as far as the
//! position holds that much; the bonus is a risk parameter and is zero
//! unless set.
//!
//! A solvency decision uses only prices that are set and fresh.

pub mod error;
pub mod fixed_point;
pub mod interest_rate_model;
pub mod price_oracle;
pub mod collateral;
pub mod pool_state;
pub mod totals;
pub mod pool;
