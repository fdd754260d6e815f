//! Error types of the pools, routers and factory.
use crate::account::AccountId;
use vstd::prelude::*;

verus! {

/// Arithmetic failures; the number tells the place where the failure arose.
#[derive(Debug, Clone, Copy, PartialEq, Eq, Structural)]
pub enum MathError {
    AddOverflow(u8),
    CastOverflow(u8),
    DivByZero(u8),
    MulOverflow(u8),
    SubUnderflow(u8),
}

/// Errors of a PSP22 token as seen by a client of the token.
#[derive(Debug, PartialEq, Eq)]
pub enum PSP22Error {
    Custom(String),
    InsufficientBalance,
    InsufficientAllowance,
    ZeroRecipientAddress,
    ZeroSenderAddress,
    SafeTransferCheckFailed(String),
}

/// Errors of the constant-product `Pair` pool.
#[derive(Debug, PartialEq, Eq)]
pub enum PairError {
    PSP22Error(PSP22Error),
    MathError(MathError),
    KInvariantChanged,
    InsufficientLiquidityMinted,
    InsufficientLiquidityBurned,
    InsufficientOutputAmount,
    InsufficientLiquidity,
    InsufficientInputAmount,
    InvalidTo,
    ReservesOverflow,
}

/// Errors of the pair `Factory`.
#[derive(Debug, PartialEq, Eq)]
pub enum FactoryError {
    PairError(PairError),
    CallerIsNotFeeSetter,
    IdenticalAddresses,
    PairExists,
    PairInstantiationFailed,
}

/// Errors of the first `Router`.
#[derive(Debug, PartialEq, Eq)]
pub enum RouterError {
    PSP22Error(PSP22Error),
    FactoryError(FactoryError),
    PairError(PairError),
    MathError(MathError),
    StablePoolError(StablePoolError),
    CrossContractCallFailed(String),
    Expired,
    IdenticalAddresses,
    InvalidPath,
    PairNotFound,
    TransferError,
    ExcessiveInputAmount,
    InsufficientAmount,
    InsufficientOutputAmount,
    InsufficientAmountA,
    InsufficientAmountB,
    InsufficientLiquidity,
}

/// Errors of the two-step ownership transfer.
#[derive(Debug, Clone, Copy, PartialEq, Eq)]
pub enum Ownable2StepError {
    /// The caller didn't have the permissions to call a given method
    CallerNotOwner(AccountId),
    /// The caller tried to accept ownership but caller in not the pending owner
    CallerNotPendingOwner(AccountId),
    /// The owner tried to renounce ownership but the contract's address has not been set as the pending owner.
    ContractNotPendingOwner(AccountId),
    /// The caller tried to accept ownership but the process hasn't been started
    NoPendingOwner,
}

/// Errors of the stable-swap pool.
#[derive(Debug, PartialEq, Eq)]
pub enum StablePoolError {
    Ownable2StepError(Ownable2StepError),
    MathError(MathError),
    PSP22Error(PSP22Error),
    InvalidTokenId(AccountId),
    IdenticalTokenId,
    IncorrectAmountsCount,
    ZeroAmounts,
    InsufficientLiquidityMinted,
    InsufficientLiquidityBurned,
    InsufficientOutputAmount,
    InsufficientLiquidity,
    InsufficientInputAmount,
    IncorrectTokenCount,
    TooLargeTokenDecimal,
    InvalidFee,
    AmpCoefTooLow,
    AmpCoefTooHigh,
    AmpCoefRampDurationTooShort,
    AmpCoefChangeTooLarge,
}

/// Errors of the second router, which routes through pairs and stable pools.
#[derive(Debug, PartialEq, Eq)]
pub enum RouterV2Error {
    PSP22Error(PSP22Error),
    FactoryError(FactoryError),
    PairError(PairError),
    MathError(MathError),
    StablePoolError(StablePoolError),
    CrossContractCallFailed(String),
    Expired,
    IdenticalAddresses,
    InvalidPath,
    InvalidToken,
    InvalidPoolAddress,
    EmptyAmounts,
    PairNotFound,
    PoolNotFound,
    TransferError,
    ExcessiveInputAmount,
    InsufficientAmount,
    InsufficientOutputAmount,
    InsufficientAmountA,
    InsufficientAmountB,
    InsufficientLiquidity,
}

/// Errors of the earlier router helpers.
#[derive(Debug, Clone, Copy, PartialEq, Eq, Structural)]
pub enum HelperError {
    IdenticalAddresses,
    ZeroAddress,
    InsufficientAmount,
    InsufficientLiquidity,
    DivByZero,
    CastOverflow,
    MulOverFlow,
    AddOverFlow,
    DivByZero2,
    CastOverflow2,
    InvalidPath,
    SubUnderFlow,
    PairNotFound,
}

/// Error of a native-token transfer.
#[derive(Debug, Clone, Copy, PartialEq, Eq, Structural)]
pub enum TransferHelperError {
    TransferFailed,
}

/// Errors of an `Ownable` contract.
#[derive(Debug, Clone, Copy, PartialEq, Eq, Structural)]
pub enum OwnableError {
    CallerIsNotOwner,
    NewOwnerIsZero,
}

/// Error of a reentrancy guard.
#[derive(Debug, Clone, Copy, PartialEq, Eq, Structural)]
pub enum ReentrancyGuardError {
    ReentrantCall,
}

/// Errors of the earlier single-enum DEX interface.
#[derive(Debug, PartialEq, Eq)]
pub enum DexError {
    PSP22Error(PSP22Error),
    CallerIsNotFeeSetter,
    CrossContractCallFailed(u8),
    Expired,
    IdenticalAddresses(u8),
    InvalidPath(u8),
    InvalidTo,
    PairExists,
    PairInstantiationFailed,
    PairNotFound,
    TransferError(u8),
    ExcessiveInputAmount,
    InsufficientAAmount,
    InsufficientAmount,
    InsufficientBAmount,
    InsufficientInputAmount,
    InsufficientOutputAmount,
    InsufficientLiquidity,
    InsufficientLiquidityBurned,
    InsufficientLiquidityMinted,
    KInvariantChanged,
    AddOverflow(u8),
    CastOverflow(u8),
    DivByZero(u8),
    MulOverflow(u8),
    SubUnderflow(u8),
}

/// The error that a router reports for a failed call to the wrapped native token.
#[derive(Debug, Clone, Copy, PartialEq, Eq, Structural)]
pub struct CallerIsNotOwner;

} // verus!
