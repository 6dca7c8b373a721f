//! The reasons for which the protocol refuses a request.

use vstd::prelude::*;

verus! {

/// Why a request was refused. A refused request leaves every component as
/// it found it, as a failed transaction does on the ledger.
#[derive(Debug, Clone, Copy, PartialEq, Eq, Structural)]
pub enum ProtocolError {
    /// No user record exists under the given id.
    UnknownUser,
    /// The account has already been given a user record.
    AccountAlreadyRegistered,
    /// A user record already exists under the given id.
    UserIdTaken,
    /// The user still owes a borrow balance in the requested token.
    OutstandingBorrow,
    /// The user has no deposit balance entry for the token.
    MissingDepositBalance,
    /// The user has no borrow balance entry for the token.
    MissingBorrowBalance,
    /// The user has no collateral balance entry for the token.
    MissingCollateralBalance,
    /// The request would leave a deposit balance below zero.
    NegativeDepositBalance,
    /// A result does not fit the range of amounts or counters.
    Overflow,
    /// The token named differs from the token handed over.
    TokenMismatch,
    /// An empty amount was handed over where one is required.
    EmptyDeposit,
    /// The token does not belong to the pool.
    NotInPool,
    /// A negative amount, or more than it holds, was asked of a bucket or
    /// vault.
    InvalidAmount,
    /// The user's deposit balance is smaller than the amount requested.
    InsufficientDeposit,
    /// A loan record already exists under the given id.
    LoanIdTaken,
    /// The pool does not hold enough of the token.
    InsufficientLiquidity,
    /// The amount exceeds the share of the collateral that may be borrowed.
    BorrowLimitExceeded,
    /// The user already has an open loan in the token.
    LoanAlreadyOpen,
    /// The user has no open loan in the token.
    NoOpenLoan,
    /// No loan is recorded under the given id.
    UnknownLoan,
    /// The loan is not current.
    LoanNotCurrent,
    /// The loan has already been paid off.
    LoanPaidOff,
    /// The loan's health factor is below one.
    UnhealthyLoan,
    /// The user still has a current loan.
    OutstandingLoans,
    /// The user's collateral balance is smaller than the amount requested.
    InsufficientCollateral,
    /// The loan is not among the loans that may be liquidated.
    NotLiquidatable,
    /// The repayment exceeds the share of the debt that may be repaid.
    MaxRepayExceeded,
    /// A lending pool already exists for the token.
    PoolExists,
    /// No lending pool exists for the token.
    NoPool,
    /// The repaid amount and its collateral equivalent differ.
    PriceMismatch,
}

} // verus!
