use vstd::prelude::*;

verus! {

/// Why an operation was refused. A refused operation changes nothing.
#[derive(Clone, Copy, Debug, PartialEq, Eq, Structural)]
pub enum Error {
    /// The component already holds its configuration.
    AlreadyInitialized,
    /// The component has not been configured yet.
    NotInitialized,
    /// An amount or price is not strictly positive, or a parameter is out of range.
    InvalidInput,
    /// The caller is not the principal that the operation needs.
    Unauthorized,
    /// The account holds less than the amount asked for.
    InsufficientBalance,
    /// The pool does not hold enough idle liquidity.
    InsufficientLiquidity,
    /// The debt after the borrow would exceed what the collateral allows.
    ExceedsCapacity,
    /// The position would be undercollateralized after the withdrawal.
    UnhealthyPosition,
    /// The account owes nothing.
    NoOutstandingDebt,
    /// The oracle holds no usable price for the asset.
    PriceNotSet,
    /// The price is older than the staleness threshold allows.
    StalePrice,
    /// The position is healthy and cannot be liquidated.
    PositionHealthy,
    /// A result does not fit in 128 signed bits.
    Overflow,
}

} // verus!
