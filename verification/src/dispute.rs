//! Disputes over rejected submissions.
//!
//! A submitter whose submission was rejected may open a dispute, assigned to
//! an arbitrator. Only that arbitrator resolves it; only the submitter
//! withdraws it, and only while it is still pending. At most one open
//! (pending or under review) dispute exists per quest and submitter.

use vstd::prelude::*;

use crate::errors::Error;
use crate::storage::{self, Env, EnvView};
use crate::table::key2;
use crate::types::{Address, Dispute, DisputeStatus, SubmissionStatus, Symbol};

verus! {

/// A dispute in this state is still open.
pub open spec fn is_open(s: DisputeStatus) -> bool {
    s == DisputeStatus::Pending || s == DisputeStatus::UnderReview
}

/// The first check that opening a dispute fails, if any.
pub open spec fn open_error(v: EnvView, quest_id: Seq<char>, initiator: Seq<char>) -> Option<Error> {
    let k = key2(quest_id, initiator);
    if v.disputes.contains_key(k) && is_open(v.disputes[k].status) {
        Some(Error::DisputeAlreadyExists)
    } else if !v.submissions.contains_key(k) {
        Some(Error::SubmissionNotFound)
    } else if v.submissions[k].status != SubmissionStatus::Rejected {
        Some(Error::SubmissionNotRejected)
    } else {
        None
    }
}

/// The first check that resolving a dispute fails, if any.
pub open spec fn resolve_error(
    v: EnvView,
    quest_id: Seq<char>,
    initiator: Seq<char>,
    arbitrator: Seq<char>,
) -> Option<Error> {
    let k = key2(quest_id, initiator);
    if !v.disputes.contains_key(k) {
        Some(Error::DisputeNotFound)
    } else if !is_open(v.disputes[k].status) {
        Some(Error::DisputeNotPending)
    } else if v.disputes[k].arbitrator@ != arbitrator {
        Some(Error::DisputeNotAuthorized)
    } else {
        None
    }
}

/// The first check that withdrawing a dispute fails, if any.
pub open spec fn withdraw_error(v: EnvView, quest_id: Seq<char>, initiator: Seq<char>) -> Option<
    Error,
> {
    let k = key2(quest_id, initiator);
    if !v.disputes.contains_key(k) {
        Some(Error::DisputeNotFound)
    } else if v.disputes[k].status != DisputeStatus::Pending {
        Some(Error::DisputeNotPending)
    } else {
        None
    }
}

/// The state after a stored dispute moved to `status`.
pub open spec fn with_dispute_status(
    v: EnvView,
    quest_id: Seq<char>,
    initiator: Seq<char>,
    status: DisputeStatus,
) -> EnvView {
    let k = key2(quest_id, initiator);
    EnvView { disputes: v.disputes.insert(k, Dispute { status, ..v.disputes[k] }), ..v }
}

/// Opens a dispute for the initiator's rejected submission on a quest, and
/// returns it. A dispute that was resolved or withdrawn is replaced.
pub fn open_dispute(env: &mut Env, quest_id: Symbol, initiator: Address, arbitrator: Address) -> (r:
    Result<Dispute, Error>)
    requires
        old(env).wf(),
    ensures
        final(env).wf(),
        open_error(old(env)@, quest_id@, initiator@) matches Some(e) ==> r == Err::<Dispute, Error>(
            e,
        ) && final(env)@ == old(env)@,
        open_error(old(env)@, quest_id@, initiator@) is None ==> {
            let d = Dispute {
                quest_id,
                initiator,
                arbitrator,
                status: DisputeStatus::Pending,
                filed_at: old(env)@.now,
            };
            &&& r == Ok::<Dispute, Error>(d)
            &&& final(env)@ == (EnvView {
                disputes: old(env)@.disputes.insert(key2(quest_id@, initiator@), d),
                ..old(env)@
            })
        },
{
    if storage::has_dispute(env, &quest_id, &initiator) {
        let d = storage::get_dispute(env, &quest_id, &initiator)?;
        if d.status == DisputeStatus::Pending || d.status == DisputeStatus::UnderReview {
            return Err(Error::DisputeAlreadyExists);
        }
    }
    let submission = storage::get_submission(env, &quest_id, &initiator)?;
    if submission.status != SubmissionStatus::Rejected {
        return Err(Error::SubmissionNotRejected);
    }
    let dispute = Dispute {
        quest_id: quest_id.clone(),
        initiator: initiator.clone(),
        arbitrator: arbitrator.clone(),
        status: DisputeStatus::Pending,
        filed_at: env.timestamp(),
    };
    storage::set_dispute(env, &quest_id, &initiator, dispute.clone());
    Ok(dispute)
}

/// The assigned arbitrator resolves an open dispute.
pub fn resolve_dispute(env: &mut Env, quest_id: Symbol, initiator: Address, arbitrator: Address) -> (r:
    Result<(), Error>)
    requires
        old(env).wf(),
    ensures
        final(env).wf(),
        resolve_error(old(env)@, quest_id@, initiator@, arbitrator@) matches Some(e) ==> r
            == Err::<(), Error>(e) && final(env)@ == old(env)@,
        resolve_error(old(env)@, quest_id@, initiator@, arbitrator@) is None ==> r is Ok
            && final(env)@ == with_dispute_status(
            old(env)@,
            quest_id@,
            initiator@,
            DisputeStatus::Resolved,
        ),
{
    let mut dispute = storage::get_dispute(env, &quest_id, &initiator)?;
    match dispute.status {
        DisputeStatus::Pending | DisputeStatus::UnderReview => {},
        _ => return Err(Error::DisputeNotPending),
    }
    if dispute.arbitrator != arbitrator {
        return Err(Error::DisputeNotAuthorized);
    }
    dispute.status = DisputeStatus::Resolved;
    storage::set_dispute(env, &quest_id, &initiator, dispute);
    Ok(())
}

/// The initiator withdraws a dispute that is still pending.
pub fn withdraw_dispute(env: &mut Env, quest_id: Symbol, initiator: Address) -> (r: Result<
    (),
    Error,
>)
    requires
        old(env).wf(),
    ensures
        final(env).wf(),
        withdraw_error(old(env)@, quest_id@, initiator@) matches Some(e) ==> r == Err::<(), Error>(
            e,
        ) && final(env)@ == old(env)@,
        withdraw_error(old(env)@, quest_id@, initiator@) is None ==> r is Ok && final(env)@
            == with_dispute_status(old(env)@, quest_id@, initiator@, DisputeStatus::Withdrawn),
{
    let mut dispute = storage::get_dispute(env, &quest_id, &initiator)?;
    if dispute.status != DisputeStatus::Pending {
        return Err(Error::DisputeNotPending);
    }
    dispute.status = DisputeStatus::Withdrawn;
    storage::set_dispute(env, &quest_id, &initiator, dispute);
    Ok(())
}

/// The dispute of an initiator on a quest.
pub fn get_dispute(env: &Env, quest_id: Symbol, initiator: Address) -> (r: Result<Dispute, Error>)
    requires
        env.wf(),
    ensures
        r == (if env@.disputes.contains_key(key2(quest_id@, initiator@)) {
            Ok::<Dispute, Error>(env@.disputes[key2(quest_id@, initiator@)])
        } else {
            Err(Error::DisputeNotFound)
        }),
{
    storage::get_dispute(env, &quest_id, &initiator)
}

/// Whether the initiator has an open dispute on the quest.
pub fn has_active_dispute(env: &Env, quest_id: &Symbol, initiator: &Address) -> (r: bool)
    requires
        env.wf(),
    ensures
        r == (env@.disputes.contains_key(key2(quest_id@, initiator@)) && is_open(
            env@.disputes[key2(quest_id@, initiator@)].status,
        )),
{
    match storage::get_dispute(env, quest_id, initiator) {
        Ok(d) => d.status == DisputeStatus::Pending || d.status == DisputeStatus::UnderReview,
        Err(_) => false,
    }
}

} // verus!
