use vstd::prelude::*;

verus! {

/// Every way an operation of this ledger can fail. Each error is detected by
/// validation performed strictly before any mutation, so a failed operation
/// leaves no observable state change.
#[derive(Clone, Copy, Debug, PartialEq, Eq, Structural)]
pub enum Error {
    /// An available balance is smaller than the amount to be debited.
    InsufficientBalance,
    /// An allowance is smaller than the amount to be spent, or is absent or expired.
    InsufficientAllowance,
    /// The three distribution percentages do not sum to exactly 10,000 basis points.
    InvalidDistribution,
    /// The series is not flagged as a future contract.
    NotAFutureContract,
    /// No series is registered under the given identifier.
    SeriesNotFound,
    /// The recorded buyer of a future series holds no locked balance.
    NoLockedTokens,
    /// The two series of a swap do not share the same asset type.
    IncompatibleAssetTypes,
    /// A settable fee rate exceeds its enforced ceiling.
    FeeTooHigh,
    /// The token was already initialized.
    AlreadyInitialized,
    /// A negative amount or rate reached an operation boundary.
    NegativeAmount,
}

} // verus!
