//! Errors returned by the contract's operations.

use vstd::prelude::*;

verus! {

#[derive(Clone, Copy, Debug, PartialEq, Eq, Structural)]
pub enum Error {
    Unauthorized,
    QuestNotFound,
    QuestAlreadyExists,
    QuestNotActive,
    QuestNotTerminal,
    QuestExpired,
    InvalidRewardAmount,
    InvalidDeadline,
    InvalidSymbol,
    AddressesNotDistinct,
    InvalidStatusTransition,
    ClaimLimitReached,
    SubmissionNotFound,
    SubmissionNotRejected,
    AlreadyClaimed,
    InvalidBatchSize,
    TokenMismatch,
    EscrowNotFound,
    EscrowInactive,
    InsufficientEscrow,
    TransferFailed,
    NoFundsToWithdraw,
    DisputeNotFound,
    DisputeAlreadyExists,
    DisputeNotPending,
    DisputeNotAuthorized,
    MetadataNotFound,
    OracleNotFound,
    OracleAlreadyExists,
    OracleInactive,
    NoValidOracleData,
    InvalidOracleConfiguration,
    OracleResponseMismatch,
    StaleOracleData,
    InvalidOracleData,
    InsufficientOracleConfidence,
    ConversionOverflow,
    ContractPaused,
    ArithmeticOverflow,
    BadgeLimitReached,
}

} // verus!
