//! Escrow: per-quest token deposits, payouts, and refunds.
//!
//! Money flow:
//!   deposit:            creator wallet → contract (tokens locked)
//!   record_payout:      balances updated for a reward paid out of escrow
//!   refund_remaining:   contract → creator wallet (leftover returned)
//!
//! Each operation that moves tokens returns the `Transfer` that the token
//! contract must perform; if that transfer fails, the whole operation fails
//! with `Error::TransferFailed` and nothing it wrote is kept.

use vstd::prelude::*;

use crate::errors::Error;
use crate::storage::{self, Env, EnvView, EscrowRecord};
use crate::table::key1;
use crate::types::{Address, EscrowBalances, EscrowInfo, EscrowMeta, QuestStatus, Symbol, Transfer};
use crate::validation::{self, quest_transition_allowed, spec_is_quest_expired, spec_is_quest_terminal};

verus! {

// ── Specifications ──

/// The first check that a deposit fails, if any.
pub open spec fn deposit_error(
    v: EnvView,
    quest_id: Seq<char>,
    depositor: Seq<char>,
    token: Seq<char>,
    amount: i128,
) -> Option<Error> {
    let k = key1(quest_id);
    if amount <= 0 {
        Some(Error::InvalidRewardAmount)
    } else if !v.quests.contains_key(k) {
        Some(Error::QuestNotFound)
    } else if depositor != v.quests[k].creator@ {
        Some(Error::Unauthorized)
    } else if spec_is_quest_terminal(v.quests[k].status) {
        Some(Error::QuestNotActive)
    } else if token != v.quests[k].reward_asset@ {
        Some(Error::TokenMismatch)
    } else if v.escrows.contains_key(k) && !v.escrows[k].balances.is_active {
        Some(Error::EscrowInactive)
    } else {
        None
    }
}

/// The escrow of a quest after a deposit: a top-up of the existing escrow, or
/// a new escrow funded by the depositor at the current ledger time.
pub open spec fn deposited_record(
    v: EnvView,
    quest_id: Seq<char>,
    depositor: Address,
    token: Address,
    amount: i128,
) -> EscrowRecord {
    let k = key1(quest_id);
    if v.escrows.contains_key(k) {
        let b = v.escrows[k].balances;
        EscrowRecord {
            balances: EscrowBalances {
                total_deposited: (b.total_deposited + amount) as i128,
                deposit_count: (b.deposit_count + 1) as u32,
                ..b
            },
            meta: v.escrows[k].meta,
        }
    } else {
        EscrowRecord {
            balances: EscrowBalances {
                total_deposited: amount,
                total_paid_out: 0,
                total_refunded: 0,
                is_active: true,
                deposit_count: 1,
            },
            meta: EscrowMeta { depositor, token, created_at: v.now },
        }
    }
}

/// A top-up keeps the escrow's counters representable.
pub open spec fn deposit_fits(v: EnvView, quest_id: Seq<char>, amount: i128) -> bool {
    let k = key1(quest_id);
    v.escrows.contains_key(k) ==> {
        &&& v.escrows[k].balances.total_deposited + amount <= i128::MAX
        &&& v.escrows[k].balances.total_deposited + amount - v.escrows[k].balances.total_paid_out
            <= i128::MAX
        &&& v.escrows[k].balances.deposit_count < u32::MAX
    }
}

/// The first check that a payout of `amount` from a quest's escrow fails, if any.
pub open spec fn payout_error(v: EnvView, quest_id: Seq<char>, amount: i128) -> Option<Error> {
    let k = key1(quest_id);
    if !v.escrows.contains_key(k) {
        Some(Error::EscrowNotFound)
    } else if !v.escrows[k].balances.is_active {
        Some(Error::EscrowInactive)
    } else if v.escrows[k].balances.available() < amount {
        Some(Error::InsufficientEscrow)
    } else {
        None
    }
}

/// Booking a payout of `amount` keeps the escrow's counters representable:
/// the new total paid out, and what remains after it.
pub open spec fn payout_fits(b: EscrowBalances, amount: i128) -> bool {
    &&& i128::MIN <= b.total_paid_out + amount
    &&& b.total_deposited - (b.total_paid_out + amount) <= i128::MAX
}

/// An escrow after `amount` was paid out of it.
pub open spec fn paid_record(e: EscrowRecord, amount: i128) -> EscrowRecord {
    EscrowRecord {
        balances: EscrowBalances {
            total_paid_out: (e.balances.total_paid_out + amount) as i128,
            ..e.balances
        },
        meta: e.meta,
    }
}

/// An escrow after everything it still held was refunded: it is closed.
pub open spec fn refunded_record(e: EscrowRecord) -> EscrowRecord {
    EscrowRecord {
        balances: EscrowBalances {
            total_refunded: (e.balances.total_deposited - e.balances.total_paid_out) as i128,
            is_active: false,
            ..e.balances
        },
        meta: e.meta,
    }
}

/// The refund of what an escrow still holds, back to its depositor.
pub open spec fn refund_transfer(contract: Address, e: EscrowRecord) -> Option<Transfer> {
    if e.balances.available() > 0 {
        Some(
            Transfer {
                token: e.meta.token,
                from: contract,
                to: e.meta.depositor,
                amount: e.balances.available() as i128,
            },
        )
    } else {
        None
    }
}

/// What refunding a quest's escrow (if it has one) leaves and returns.
pub open spec fn refund_outcome(v: EnvView, quest_id: Seq<char>) -> (
    Map<Seq<Seq<char>>, EscrowRecord>,
    i128,
    Option<Transfer>,
) {
    let k = key1(quest_id);
    if v.escrows.contains_key(k) {
        (
            v.escrows.insert(k, refunded_record(v.escrows[k])),
            v.escrows[k].balances.available() as i128,
            refund_transfer(v.contract, v.escrows[k]),
        )
    } else {
        (v.escrows, 0, None)
    }
}

/// The first check that closing a quest fails, if any: the caller must be the
/// creator, the quest must not be terminal, and, to expire it, the deadline
/// must be past by more than the buffer.
pub open spec fn close_error(
    v: EnvView,
    quest_id: Seq<char>,
    caller: Seq<char>,
    target: QuestStatus,
) -> Option<Error> {
    let k = key1(quest_id);
    if !v.quests.contains_key(k) {
        Some(Error::QuestNotFound)
    } else if caller != v.quests[k].creator@ {
        Some(Error::Unauthorized)
    } else if spec_is_quest_terminal(v.quests[k].status) {
        Some(Error::QuestNotActive)
    } else if target == QuestStatus::Expired && !spec_is_quest_expired(v.now, v.quests[k].deadline) {
        Some(Error::QuestNotActive)
    } else if !quest_transition_allowed(v.quests[k].status, target) {
        Some(Error::InvalidStatusTransition)
    } else {
        None
    }
}

/// The state after a quest was moved to `target` and its escrow refunded.
pub open spec fn closed_state(v: EnvView, quest_id: Seq<char>, target: QuestStatus) -> EnvView {
    let k = key1(quest_id);
    EnvView {
        quests: v.quests.insert(k, crate::types::Quest { status: target, ..v.quests[k] }),
        escrows: refund_outcome(v, quest_id).0,
        ..v
    }
}

/// The first check that withdrawing a terminal quest's leftover fails, if any.
pub open spec fn withdraw_error(v: EnvView, quest_id: Seq<char>, caller: Seq<char>) -> Option<Error> {
    let k = key1(quest_id);
    if !v.quests.contains_key(k) {
        Some(Error::QuestNotFound)
    } else if caller != v.quests[k].creator@ {
        Some(Error::Unauthorized)
    } else if !spec_is_quest_terminal(v.quests[k].status) {
        Some(Error::QuestNotTerminal)
    } else if !v.escrows.contains_key(k) {
        Some(Error::EscrowNotFound)
    } else if v.escrows[k].balances.available() <= 0 {
        Some(Error::NoFundsToWithdraw)
    } else {
        None
    }
}

// ── Deposit ──

/// The creator locks `amount` tokens of the quest's reward asset for a quest.
pub fn deposit(
    env: &mut Env,
    quest_id: &Symbol,
    depositor: &Address,
    token_address: &Address,
    amount: i128,
) -> (r: Result<Transfer, Error>)
    requires
        old(env).wf(),
        deposit_error(old(env)@, quest_id@, depositor@, token_address@, amount) is None
            ==> deposit_fits(old(env)@, quest_id@, amount),
    ensures
        final(env).wf(),
        deposit_error(old(env)@, quest_id@, depositor@, token_address@, amount) matches Some(e)
            ==> r == Err::<Transfer, Error>(e) && final(env)@ == old(env)@,
        deposit_error(old(env)@, quest_id@, depositor@, token_address@, amount) is None ==> {
            &&& r == Ok::<Transfer, Error>(
                Transfer {
                    token: *token_address,
                    from: *depositor,
                    to: old(env)@.contract,
                    amount,
                },
            )
            &&& final(env)@ == (EnvView {
                escrows: old(env)@.escrows.insert(
                    key1(quest_id@),
                    deposited_record(old(env)@, quest_id@, *depositor, *token_address, amount),
                ),
                ..old(env)@
            })
        },
{
    validation::validate_reward_amount(amount)?;
    let quest = storage::get_quest(env, quest_id)?;
    if *depositor != quest.creator {
        return Err(Error::Unauthorized);
    }
    if validation::is_quest_terminal(&quest.status) {
        return Err(Error::QuestNotActive);
    }
    if *token_address != quest.reward_asset {
        return Err(Error::TokenMismatch);
    }
    let record = if storage::has_escrow(env, quest_id) {
        let b = storage::get_escrow_balances(env, quest_id)?;
        if !b.is_active {
            return Err(Error::EscrowInactive);
        }
        let meta = storage::get_escrow_meta(env, quest_id)?;
        EscrowRecord {
            balances: EscrowBalances {
                total_deposited: b.total_deposited + amount,
                total_paid_out: b.total_paid_out,
                total_refunded: b.total_refunded,
                is_active: b.is_active,
                deposit_count: b.deposit_count + 1,
            },
            meta,
        }
    } else {
        EscrowRecord {
            balances: EscrowBalances {
                total_deposited: amount,
                total_paid_out: 0,
                total_refunded: 0,
                is_active: true,
                deposit_count: 1,
            },
            meta: EscrowMeta {
                depositor: depositor.clone(),
                token: token_address.clone(),
                created_at: env.timestamp(),
            },
        }
    };
    proof {
        env.lemma_wf();
        if env@.escrows.contains_key(key1(quest_id@)) {
            assert(env@.escrows[key1(quest_id@)].balances.consistent());
        }
    }
    storage::set_escrow(env, quest_id, record);
    Ok(
        Transfer {
            token: token_address.clone(),
            from: depositor.clone(),
            to: env.current_contract_address(),
            amount,
        },
    )
}

/// Whether a deposit would pass every check and then overflow the escrow's
/// counters.
pub fn deposit_overflows(
    env: &Env,
    quest_id: &Symbol,
    depositor: &Address,
    token_address: &Address,
    amount: i128,
) -> (r: bool)
    requires
        env.wf(),
    ensures
        r == (deposit_error(env@, quest_id@, depositor@, token_address@, amount) is None
            && !deposit_fits(env@, quest_id@, amount)),
{
    if amount <= 0 {
        return false;
    }
    let quest = match storage::get_quest(env, quest_id) {
        Ok(q) => q,
        Err(_) => return false,
    };
    if *depositor != quest.creator || validation::is_quest_terminal(&quest.status)
        || *token_address != quest.reward_asset {
        return false;
    }
    match storage::get_escrow_balances(env, quest_id) {
        Ok(b) => b.is_active && (b.total_deposited > i128::MAX - amount || (b.total_paid_out < 0
            && b.total_deposited + amount > i128::MAX + b.total_paid_out) || b.deposit_count
            == u32::MAX),
        Err(_) => false,
    }
}

// ── Validate and pay out ──

/// Succeeds when the quest's escrow is active and still holds `amount`.
pub fn validate_sufficient(env: &Env, quest_id: &Symbol, amount: i128) -> (r: Result<(), Error>)
    requires
        env.wf(),
    ensures
        r is Ok <==> payout_error(env@, quest_id@, amount) is None,
        r matches Err(e) ==> payout_error(env@, quest_id@, amount) == Some(e),
{
    let b = storage::get_escrow_balances(env, quest_id)?;
    proof {
        env.lemma_wf();
        assert(env@.escrows[key1(quest_id@)].balances.consistent());
    }
    if !b.is_active {
        return Err(Error::EscrowInactive);
    }
    let available = b.total_deposited - b.total_paid_out - b.total_refunded;
    if available < amount {
        return Err(Error::InsufficientEscrow);
    }
    Ok(())
}

/// Books a reward of `amount` paid out of the quest's escrow to `recipient`.
/// The amount is booked as given; a negative one lowers what was paid out.
pub fn record_payout(env: &mut Env, quest_id: &Symbol, recipient: &Address, amount: i128) -> (r:
    Result<(), Error>)
    requires
        old(env).wf(),
        payout_error(old(env)@, quest_id@, amount) is None ==> payout_fits(
            old(env)@.escrows[key1(quest_id@)].balances,
            amount,
        ),
    ensures
        final(env).wf(),
        payout_error(old(env)@, quest_id@, amount) matches Some(e) ==> r == Err::<(), Error>(e)
            && final(env)@ == old(env)@,
        payout_error(old(env)@, quest_id@, amount) is None ==> r is Ok && final(env)@ == (
        EnvView {
            escrows: old(env)@.escrows.insert(
                key1(quest_id@),
                paid_record(old(env)@.escrows[key1(quest_id@)], amount),
            ),
            ..old(env)@
        }),
{
    validate_sufficient(env, quest_id, amount)?;
    let b = storage::get_escrow_balances(env, quest_id)?;
    proof {
        env.lemma_wf();
        assert(env@.escrows[key1(quest_id@)].balances.consistent());
    }
    let nb = EscrowBalances {
        total_deposited: b.total_deposited,
        total_paid_out: b.total_paid_out + amount,
        total_refunded: b.total_refunded,
        is_active: b.is_active,
        deposit_count: b.deposit_count,
    };
    storage::set_escrow_balances(env, quest_id, nb);
    Ok(())
}

// ── Refund ──

/// Refunds everything the quest's escrow still holds to its depositor and
/// closes the escrow. Returns the refunded amount and, when it is positive,
/// the transfer back to the depositor.
fn refund_remaining(env: &mut Env, quest_id: &Symbol) -> (r: Result<(i128, Option<Transfer>), Error>)
    requires
        old(env).wf(),
    ensures
        final(env).wf(),
        !old(env)@.escrows.contains_key(key1(quest_id@)) ==> r == Err::<
            (i128, Option<Transfer>),
            Error,
        >(Error::EscrowNotFound) && final(env)@ == old(env)@,
        old(env)@.escrows.contains_key(key1(quest_id@)) ==> {
            let o = refund_outcome(old(env)@, quest_id@);
            &&& r == Ok::<(i128, Option<Transfer>), Error>((o.1, o.2))
            &&& final(env)@ == (EnvView { escrows: o.0, ..old(env)@ })
        },
{
    let b = storage::get_escrow_balances(env, quest_id)?;
    let meta = storage::get_escrow_meta(env, quest_id)?;
    proof {
        env.lemma_wf();
        assert(env@.escrows[key1(quest_id@)].balances.consistent());
    }
    let available = b.total_deposited - b.total_paid_out - b.total_refunded;
    let nb = EscrowBalances {
        total_deposited: b.total_deposited,
        total_paid_out: b.total_paid_out,
        total_refunded: b.total_refunded + available,
        is_active: false,
        deposit_count: b.deposit_count,
    };
    let contract = env.current_contract_address();
    storage::set_escrow_balances(env, quest_id, nb);
    if available > 0 {
        Ok((available, Some(Transfer { token: meta.token, from: contract, to: meta.depositor, amount: available })))
    } else {
        Ok((available, None))
    }
}

/// Refunds the quest's escrow when it has one; a quest without escrow refunds
/// nothing.
fn refund_if_escrowed(env: &mut Env, quest_id: &Symbol) -> (r: (i128, Option<Transfer>))
    requires
        old(env).wf(),
    ensures
        final(env).wf(),
        ({
            let o = refund_outcome(old(env)@, quest_id@);
            &&& r == (o.1, o.2)
            &&& final(env)@ == (EnvView { escrows: o.0, ..old(env)@ })
        }),
{
    if storage::has_escrow(env, quest_id) {
        match refund_remaining(env, quest_id) {
            Ok(out) => out,
            Err(_) => {
                proof {
                    assert(false);
                }
                (0, None)
            },
        }
    } else {
        (0, None)
    }
}

// ── Cancel / expire / withdraw ──

/// The creator cancels a quest that is not terminal; any escrow left is
/// refunded to its depositor.
pub fn cancel_quest(env: &mut Env, quest_id: &Symbol, caller: &Address) -> (r: Result<
    (i128, Option<Transfer>),
    Error,
>)
    requires
        old(env).wf(),
    ensures
        final(env).wf(),
        close_error(old(env)@, quest_id@, caller@, QuestStatus::Cancelled) matches Some(e) ==> r
            == Err::<(i128, Option<Transfer>), Error>(e) && final(env)@ == old(env)@,
        close_error(old(env)@, quest_id@, caller@, QuestStatus::Cancelled) is None ==> {
            let o = refund_outcome(old(env)@, quest_id@);
            &&& r == Ok::<(i128, Option<Transfer>), Error>((o.1, o.2))
            &&& final(env)@ == closed_state(old(env)@, quest_id@, QuestStatus::Cancelled)
        },
{
    close_quest(env, quest_id, caller, QuestStatus::Cancelled)
}

/// The creator expires a quest whose deadline is past by more than the expiry
/// buffer; any escrow left is refunded to its depositor.
pub fn expire_quest(env: &mut Env, quest_id: &Symbol, caller: &Address) -> (r: Result<
    (i128, Option<Transfer>),
    Error,
>)
    requires
        old(env).wf(),
    ensures
        final(env).wf(),
        close_error(old(env)@, quest_id@, caller@, QuestStatus::Expired) matches Some(e) ==> r
            == Err::<(i128, Option<Transfer>), Error>(e) && final(env)@ == old(env)@,
        close_error(old(env)@, quest_id@, caller@, QuestStatus::Expired) is None ==> {
            let o = refund_outcome(old(env)@, quest_id@);
            &&& r == Ok::<(i128, Option<Transfer>), Error>((o.1, o.2))
            &&& final(env)@ == closed_state(old(env)@, quest_id@, QuestStatus::Expired)
        },
{
    close_quest(env, quest_id, caller, QuestStatus::Expired)
}

fn close_quest(env: &mut Env, quest_id: &Symbol, caller: &Address, target: QuestStatus) -> (r:
    Result<(i128, Option<Transfer>), Error>)
    requires
        old(env).wf(),
        target == QuestStatus::Cancelled || target == QuestStatus::Expired,
    ensures
        final(env).wf(),
        close_error(old(env)@, quest_id@, caller@, target) matches Some(e) ==> r == Err::<
            (i128, Option<Transfer>),
            Error,
        >(e) && final(env)@ == old(env)@,
        close_error(old(env)@, quest_id@, caller@, target) is None ==> {
            let o = refund_outcome(old(env)@, quest_id@);
            &&& r == Ok::<(i128, Option<Transfer>), Error>((o.1, o.2))
            &&& final(env)@ == closed_state(old(env)@, quest_id@, target)
        },
{
    let quest = storage::get_quest(env, quest_id)?;
    if *caller != quest.creator {
        return Err(Error::Unauthorized);
    }
    if validation::is_quest_terminal(&quest.status) {
        return Err(Error::QuestNotActive);
    }
    if target == QuestStatus::Expired && !validation::is_quest_expired(env, quest.deadline) {
        return Err(Error::QuestNotActive);
    }
    validation::validate_quest_status_transition(&quest.status, &target)?;
    proof {
        env.lemma_wf();
        assert(env@.quests.contains_key(key1(quest_id@)));
    }
    let mut quest = quest;
    quest.status = target;
    let ghost mid = env@;
    storage::set_quest(env, quest_id, quest);
    proof {
        assert(old(env)@.quests.contains_key(key1(quest_id@)));
    }
    let out = refund_if_escrowed(env, quest_id);
    proof {
        assert(refund_outcome(mid, quest_id@) == refund_outcome(old(env)@, quest_id@));
    }
    Ok(out)
}

/// The creator takes back what a terminal quest's escrow still holds.
pub fn withdraw_unclaimed(env: &mut Env, quest_id: &Symbol, caller: &Address) -> (r: Result<
    (i128, Option<Transfer>),
    Error,
>)
    requires
        old(env).wf(),
    ensures
        final(env).wf(),
        withdraw_error(old(env)@, quest_id@, caller@) matches Some(e) ==> r == Err::<
            (i128, Option<Transfer>),
            Error,
        >(e) && final(env)@ == old(env)@,
        withdraw_error(old(env)@, quest_id@, caller@) is None ==> {
            let o = refund_outcome(old(env)@, quest_id@);
            &&& r == Ok::<(i128, Option<Transfer>), Error>((o.1, o.2))
            &&& final(env)@ == (EnvView { escrows: o.0, ..old(env)@ })
        },
{
    let quest = storage::get_quest(env, quest_id)?;
    if *caller != quest.creator {
        return Err(Error::Unauthorized);
    }
    if !validation::is_quest_terminal(&quest.status) {
        return Err(Error::QuestNotTerminal);
    }
    let escrow = storage::get_escrow(env, quest_id)?;
    proof {
        env.lemma_wf();
        assert(env@.escrows[key1(quest_id@)].balances.consistent());
    }
    let available = escrow.total_deposited - escrow.total_paid_out - escrow.total_refunded;
    if available <= 0 {
        return Err(Error::NoFundsToWithdraw);
    }
    refund_remaining(env, quest_id)
}

// ── Queries ──

/// What the quest's escrow still holds.
pub fn get_balance(env: &Env, quest_id: &Symbol) -> (r: Result<i128, Error>)
    requires
        env.wf(),
    ensures
        r == (if env@.escrows.contains_key(key1(quest_id@)) {
            Ok::<i128, Error>(env@.escrows[key1(quest_id@)].balances.available() as i128)
        } else {
            Err(Error::EscrowNotFound)
        }),
{
    let b = storage::get_escrow_balances(env, quest_id)?;
    proof {
        env.lemma_wf();
        assert(env@.escrows[key1(quest_id@)].balances.consistent());
    }
    Ok(b.total_deposited - b.total_paid_out - b.total_refunded)
}

/// The full escrow view of a quest.
pub fn get_info(env: &Env, quest_id: &Symbol) -> (r: Result<EscrowInfo, Error>)
    requires
        env.wf(),
    ensures
        r == (if env@.escrows.contains_key(key1(quest_id@)) {
            Ok::<EscrowInfo, Error>(
                storage::escrow_info_of(*quest_id, env@.escrows[key1(quest_id@)]),
            )
        } else {
            Err(Error::EscrowNotFound)
        }),
{
    storage::get_escrow(env, quest_id)
}

} // verus!
