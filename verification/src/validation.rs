//! Input and state-transition checks shared by the contract's operations.

use vstd::prelude::*;

use vstd::string::StrSliceExecFns;

use crate::errors::Error;
use crate::storage::Env;
use crate::types::{Address, QuestStatus, SubmissionStatus, Symbol};

verus! {

/// The longest quest identifier, in characters.
pub const MAX_SYMBOL_LENGTH: usize = 32;

/// How long past its deadline a quest must be before it counts as expired,
/// in seconds; absorbs clock drift between ledgers.
pub const EXPIRY_BUFFER_SECONDS: u64 = 60;

/// The most quests one batch registration may carry.
pub const MAX_BATCH_QUEST_REGISTRATION: usize = 20;

/// The most submissions one batch approval may carry.
pub const MAX_BATCH_APPROVAL_SIZE: usize = 50;

/// The most badges one user holds.
pub const MAX_BADGES_PER_USER: usize = 50;

/// A quest in one of these states never changes again.
pub open spec fn spec_is_quest_terminal(s: QuestStatus) -> bool {
    s == QuestStatus::Completed || s == QuestStatus::Expired || s == QuestStatus::Cancelled
}

/// A quest may move from a state that is not terminal to any other state.
pub open spec fn quest_transition_allowed(from: QuestStatus, to: QuestStatus) -> bool {
    !spec_is_quest_terminal(from) && from != to
}

/// A submission is reviewed once (approved or rejected) and an approved one is
/// paid once.
pub open spec fn submission_transition_allowed(from: SubmissionStatus, to: SubmissionStatus) -> bool {
    ||| from == SubmissionStatus::Pending && to == SubmissionStatus::Approved
    ||| from == SubmissionStatus::Pending && to == SubmissionStatus::Rejected
    ||| from == SubmissionStatus::Approved && to == SubmissionStatus::Paid
}

/// The ledger time `now` is past `deadline` by more than the expiry buffer.
pub open spec fn spec_is_quest_expired(now: u64, deadline: u64) -> bool {
    now > deadline + EXPIRY_BUFFER_SECONDS
}

pub fn is_quest_terminal(status: &QuestStatus) -> (r: bool)
    ensures
        r == spec_is_quest_terminal(*status),
{
    match status {
        QuestStatus::Completed | QuestStatus::Expired | QuestStatus::Cancelled => true,
        _ => false,
    }
}

pub fn validate_quest_status_transition(from: &QuestStatus, to: &QuestStatus) -> (r: Result<
    (),
    Error,
>)
    ensures
        r is Ok <==> quest_transition_allowed(*from, *to),
        r matches Err(e) ==> e == Error::InvalidStatusTransition,
{
    if is_quest_terminal(from) || *from == *to {
        Err(Error::InvalidStatusTransition)
    } else {
        Ok(())
    }
}

pub fn validate_submission_status_transition(
    from: &SubmissionStatus,
    to: &SubmissionStatus,
) -> (r: Result<(), Error>)
    ensures
        r is Ok <==> submission_transition_allowed(*from, *to),
        r matches Err(e) ==> e == Error::InvalidStatusTransition,
{
    match (from, to) {
        (SubmissionStatus::Pending, SubmissionStatus::Approved)
        | (SubmissionStatus::Pending, SubmissionStatus::Rejected)
        | (SubmissionStatus::Approved, SubmissionStatus::Paid) => Ok(()),
        _ => Err(Error::InvalidStatusTransition),
    }
}

/// A reward amount must be positive.
pub fn validate_reward_amount(amount: i128) -> (r: Result<(), Error>)
    ensures
        r is Ok <==> amount > 0,
        r matches Err(e) ==> e == Error::InvalidRewardAmount,
{
    if amount > 0 {
        Ok(())
    } else {
        Err(Error::InvalidRewardAmount)
    }
}

pub fn validate_quest_is_active(status: &QuestStatus) -> (r: Result<(), Error>)
    ensures
        r is Ok <==> *status == QuestStatus::Active,
        r matches Err(e) ==> e == Error::QuestNotActive,
{
    match status {
        QuestStatus::Active => Ok(()),
        _ => Err(Error::QuestNotActive),
    }
}

/// Submissions are accepted up to and including the deadline.
pub fn validate_quest_not_expired(env: &Env, deadline: u64) -> (r: Result<(), Error>)
    ensures
        r is Ok <==> env@.now <= deadline,
        r matches Err(e) ==> e == Error::QuestExpired,
{
    if env.timestamp() <= deadline {
        Ok(())
    } else {
        Err(Error::QuestExpired)
    }
}

pub fn is_quest_expired(env: &Env, deadline: u64) -> (r: bool)
    ensures
        r == spec_is_quest_expired(env@.now, deadline),
{
    let now = env.timestamp();
    now > deadline && now - deadline > EXPIRY_BUFFER_SECONDS
}

/// A deadline must lie in the future.
pub fn validate_deadline(env: &Env, deadline: u64) -> (r: Result<(), Error>)
    ensures
        r is Ok <==> deadline > env@.now,
        r matches Err(e) ==> e == Error::InvalidDeadline,
{
    if deadline > env.timestamp() {
        Ok(())
    } else {
        Err(Error::InvalidDeadline)
    }
}

/// A quest can take another claim while its counter can still grow.
pub fn validate_quest_claims_limit(total_claims: u32) -> (r: Result<(), Error>)
    ensures
        r is Ok <==> total_claims < u32::MAX,
        r matches Err(e) ==> e == Error::ClaimLimitReached,
{
    if total_claims < u32::MAX {
        Ok(())
    } else {
        Err(Error::ClaimLimitReached)
    }
}

/// A quest identifier has between one and `MAX_SYMBOL_LENGTH` characters.
pub fn validate_symbol_length(id: &Symbol) -> (r: Result<(), Error>)
    ensures
        r is Ok <==> 0 < id@.len() <= MAX_SYMBOL_LENGTH,
        r matches Err(e) ==> e == Error::InvalidSymbol,
{
    let n = id.as_str().unicode_len();
    if n > 0 && n <= MAX_SYMBOL_LENGTH {
        Ok(())
    } else {
        Err(Error::InvalidSymbol)
    }
}

/// Two roles that must be held by different accounts.
pub fn validate_addresses_distinct(a: &Address, b: &Address) -> (r: Result<(), Error>)
    ensures
        r is Ok <==> a@ != b@,
        r matches Err(e) ==> e == Error::AddressesNotDistinct,
{
    if *a == *b {
        Err(Error::AddressesNotDistinct)
    } else {
        Ok(())
    }
}

/// A batch carries at least one and at most `max` entries.
pub fn validate_array_length(len: usize, max: usize) -> (r: Result<(), Error>)
    ensures
        r is Ok <==> 0 < len <= max,
        r matches Err(e) ==> e == Error::InvalidBatchSize,
{
    if len > 0 && len <= max {
        Ok(())
    } else {
        Err(Error::InvalidBatchSize)
    }
}

/// A batch approval carries at least one and at most `MAX_BATCH_APPROVAL_SIZE`
/// entries.
pub fn validate_batch_approval_size(len: usize) -> (r: Result<(), Error>)
    ensures
        r is Ok <==> 0 < len <= MAX_BATCH_APPROVAL_SIZE,
        r matches Err(e) ==> e == Error::InvalidBatchSize,
{
    if len > 0 && len <= MAX_BATCH_APPROVAL_SIZE {
        Ok(())
    } else {
        Err(Error::InvalidBatchSize)
    }
}

} // verus!
