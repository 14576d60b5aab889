//! Proof submissions and their review.
//!
//! A submission starts `Pending`; the quest's verifier approves or rejects it;
//! an approved submission is paid once.

use vstd::prelude::*;

use crate::errors::Error;
use crate::escrow::payout_error;
use crate::storage::{self, Env, EnvView};
use crate::table::{key1, key2};
use crate::types::{Address, BatchApprovalInput, PlatformStats, Quest, Submission, SubmissionStatus, Symbol};
use crate::validation::{self, MAX_BATCH_APPROVAL_SIZE};

verus! {

/// Adds one to a platform counter, stopping at the largest value.
pub open spec fn bump(x: u64) -> u64 {
    if x < u64::MAX {
        (x + 1) as u64
    } else {
        x
    }
}

/// The first check that submitting a proof fails, if any.
pub open spec fn submit_error(v: EnvView, quest_id: Seq<char>) -> Option<Error> {
    let k = key1(quest_id);
    if !v.quests.contains_key(k) {
        Some(Error::QuestNotFound)
    } else if v.quests[k].status != crate::types::QuestStatus::Active {
        Some(Error::QuestNotActive)
    } else if v.now > v.quests[k].deadline {
        Some(Error::QuestExpired)
    } else {
        None
    }
}

/// The first check that reviewing a submission fails, if any. Approval also
/// needs the quest's escrow, when it has one, to cover the reward.
pub open spec fn review_error(
    v: EnvView,
    quest_id: Seq<char>,
    submitter: Seq<char>,
    verifier: Seq<char>,
    approve: bool,
) -> Option<Error> {
    let k = key1(quest_id);
    let sk = key2(quest_id, submitter);
    if !v.quests.contains_key(k) {
        Some(Error::QuestNotFound)
    } else if verifier != v.quests[k].verifier@ {
        Some(Error::Unauthorized)
    } else if !v.submissions.contains_key(sk) {
        Some(Error::SubmissionNotFound)
    } else if v.submissions[sk].status != SubmissionStatus::Pending {
        Some(Error::InvalidStatusTransition)
    } else if approve && v.escrows.contains_key(k) {
        payout_error(v, quest_id, v.quests[k].reward_amount)
    } else {
        None
    }
}

/// The state after a stored submission moved to `status`.
pub open spec fn with_submission_status(
    v: EnvView,
    quest_id: Seq<char>,
    submitter: Seq<char>,
    status: SubmissionStatus,
) -> EnvView {
    let sk = key2(quest_id, submitter);
    EnvView { submissions: v.submissions.insert(sk, Submission { status, ..v.submissions[sk] }), ..v }
}

/// The first check that a claim on this quest and submission fails, if any.
pub open spec fn claim_data_error(quest: Quest, submission: Submission) -> Option<Error> {
    if submission.status == SubmissionStatus::Paid {
        Some(Error::AlreadyClaimed)
    } else if submission.status != SubmissionStatus::Approved {
        Some(Error::InvalidStatusTransition)
    } else if quest.total_claims >= u32::MAX {
        Some(Error::ClaimLimitReached)
    } else {
        None
    }
}

/// Submits a proof for an active quest before its deadline. The submission
/// starts pending and replaces any earlier one of the same submitter.
pub fn submit_proof(env: &mut Env, quest_id: &Symbol, submitter: &Address, proof_hash: &[u8; 32]) -> (r:
    Result<(), Error>)
    requires
        old(env).wf(),
    ensures
        final(env).wf(),
        submit_error(old(env)@, quest_id@) matches Some(e) ==> r == Err::<(), Error>(e)
            && final(env)@ == old(env)@,
        submit_error(old(env)@, quest_id@) is None ==> r is Ok && final(env)@ == (EnvView {
            submissions: old(env)@.submissions.insert(
                key2(quest_id@, submitter@),
                Submission {
                    quest_id: *quest_id,
                    submitter: *submitter,
                    proof_hash: *proof_hash,
                    status: SubmissionStatus::Pending,
                    timestamp: old(env)@.now,
                },
            ),
            stats: PlatformStats {
                total_submissions: bump(old(env)@.stats.total_submissions),
                ..old(env)@.stats
            },
            ..old(env)@
        }),
{
    let quest = storage::get_quest(env, quest_id)?;
    validation::validate_quest_is_active(&quest.status)?;
    validation::validate_quest_not_expired(env, quest.deadline)?;
    let submission = Submission {
        quest_id: quest_id.clone(),
        submitter: submitter.clone(),
        proof_hash: *proof_hash,
        status: SubmissionStatus::Pending,
        timestamp: env.timestamp(),
    };
    storage::set_submission(env, quest_id, submitter, submission);
    let mut stats = storage::get_platform_stats(env);
    stats.total_submissions = stats.total_submissions.saturating_add(1);
    storage::set_platform_stats(env, &stats);
    Ok(())
}

/// The quest's verifier approves a pending submission; when the quest has an
/// escrow, it must be active and cover the reward.
pub fn approve_submission(
    env: &mut Env,
    quest_id: &Symbol,
    submitter: &Address,
    verifier: &Address,
) -> (r: Result<(), Error>)
    requires
        old(env).wf(),
    ensures
        final(env).wf(),
        review_error(old(env)@, quest_id@, submitter@, verifier@, true) matches Some(e) ==> r
            == Err::<(), Error>(e) && final(env)@ == old(env)@,
        review_error(old(env)@, quest_id@, submitter@, verifier@, true) is None ==> r is Ok
            && final(env)@ == with_submission_status(
            old(env)@,
            quest_id@,
            submitter@,
            SubmissionStatus::Approved,
        ),
{
    review(env, quest_id, submitter, verifier, true)
}

/// The quest's verifier rejects a pending submission.
pub fn reject_submission(
    env: &mut Env,
    quest_id: &Symbol,
    submitter: &Address,
    verifier: &Address,
) -> (r: Result<(), Error>)
    requires
        old(env).wf(),
    ensures
        final(env).wf(),
        review_error(old(env)@, quest_id@, submitter@, verifier@, false) matches Some(e) ==> r
            == Err::<(), Error>(e) && final(env)@ == old(env)@,
        review_error(old(env)@, quest_id@, submitter@, verifier@, false) is None ==> r is Ok
            && final(env)@ == with_submission_status(
            old(env)@,
            quest_id@,
            submitter@,
            SubmissionStatus::Rejected,
        ),
{
    review(env, quest_id, submitter, verifier, false)
}

fn review(env: &mut Env, quest_id: &Symbol, submitter: &Address, verifier: &Address, approve: bool) -> (r:
    Result<(), Error>)
    requires
        old(env).wf(),
    ensures
        final(env).wf(),
        review_error(old(env)@, quest_id@, submitter@, verifier@, approve) matches Some(e) ==> r
            == Err::<(), Error>(e) && final(env)@ == old(env)@,
        review_error(old(env)@, quest_id@, submitter@, verifier@, approve) is None ==> r is Ok
            && final(env)@ == with_submission_status(
            old(env)@,
            quest_id@,
            submitter@,
            if approve {
                SubmissionStatus::Approved
            } else {
                SubmissionStatus::Rejected
            },
        ),
{
    let quest = storage::get_quest(env, quest_id)?;
    if *verifier != quest.verifier {
        return Err(Error::Unauthorized);
    }
    let mut submission = storage::get_submission(env, quest_id, submitter)?;
    let target = if approve {
        SubmissionStatus::Approved
    } else {
        SubmissionStatus::Rejected
    };
    validation::validate_submission_status_transition(&submission.status, &target)?;
    if approve && storage::has_escrow(env, quest_id) {
        crate::escrow::validate_sufficient(env, quest_id, quest.reward_amount)?;
    }
    submission.status = target;
    storage::set_submission(env, quest_id, submitter, submission);
    Ok(())
}

/// Checks a claim against already-read quest and submission data.
pub fn validate_claim_data(quest: &Quest, submission: &Submission) -> (r: Result<(), Error>)
    ensures
        r is Ok <==> claim_data_error(*quest, *submission) is None,
        r matches Err(e) ==> claim_data_error(*quest, *submission) == Some(e),
{
    if submission.status == SubmissionStatus::Paid {
        return Err(Error::AlreadyClaimed);
    }
    validation::validate_submission_status_transition(&submission.status, &SubmissionStatus::Paid)?;
    validation::validate_quest_claims_limit(quest.total_claims)?;
    Ok(())
}

/// The first check that a claim of the submitter on the quest fails, if any.
pub open spec fn claim_error(v: EnvView, quest_id: Seq<char>, submitter: Seq<char>) -> Option<Error> {
    let k = key1(quest_id);
    let sk = key2(quest_id, submitter);
    if !v.quests.contains_key(k) {
        Some(Error::QuestNotFound)
    } else if !v.submissions.contains_key(sk) {
        Some(Error::SubmissionNotFound)
    } else {
        claim_data_error(v.quests[k], v.submissions[sk])
    }
}

/// Checks whether the submitter may claim the quest's reward.
pub fn validate_claim(env: &Env, quest_id: &Symbol, submitter: &Address) -> (r: Result<(), Error>)
    requires
        env.wf(),
    ensures
        r is Ok <==> claim_error(env@, quest_id@, submitter@) is None,
        r matches Err(e) ==> claim_error(env@, quest_id@, submitter@) == Some(e),
{
    let quest = storage::get_quest(env, quest_id)?;
    let submission = storage::get_submission(env, quest_id, submitter)?;
    validate_claim_data(&quest, &submission)
}

// ── Batch approval ──

pub open spec fn item_key(item: BatchApprovalInput) -> Seq<Seq<char>> {
    key2(item.quest_id@, item.submitter@)
}

/// The check that approving entry `i` of a batch fails, if any, once the
/// entries before it were approved.
pub open spec fn batch_item_error(
    v: EnvView,
    verifier: Seq<char>,
    items: Seq<BatchApprovalInput>,
    i: int,
) -> Option<Error> {
    let it = items[i];
    let k = key1(it.quest_id@);
    let sk = item_key(it);
    if !v.quests.contains_key(k) {
        Some(Error::QuestNotFound)
    } else if verifier != v.quests[k].verifier@ {
        Some(Error::Unauthorized)
    } else if !v.submissions.contains_key(sk) {
        Some(Error::SubmissionNotFound)
    } else if v.submissions[sk].status != SubmissionStatus::Pending || exists|j: int|
        0 <= j < i && #[trigger] item_key(items[j]) == sk {
        Some(Error::InvalidStatusTransition)
    } else if v.escrows.contains_key(k) {
        payout_error(v, it.quest_id@, v.quests[k].reward_amount)
    } else {
        None
    }
}

/// The first failing entry among the first `n` of a batch, if any.
pub open spec fn batch_prefix_error(
    v: EnvView,
    verifier: Seq<char>,
    items: Seq<BatchApprovalInput>,
    n: nat,
) -> Option<Error>
    decreases n,
{
    if n == 0 {
        None
    } else {
        match batch_prefix_error(v, verifier, items, (n - 1) as nat) {
            Some(e) => Some(e),
            None => batch_item_error(v, verifier, items, n - 1),
        }
    }
}

/// The first check that a batch approval fails, if any.
pub open spec fn batch_error(v: EnvView, verifier: Seq<char>, items: Seq<BatchApprovalInput>) -> Option<
    Error,
> {
    if !(0 < items.len() <= MAX_BATCH_APPROVAL_SIZE) {
        Some(Error::InvalidBatchSize)
    } else if exists|i: int| 0 <= i < items.len() && (#[trigger] items[i]).submitter@ == verifier {
        Some(Error::AddressesNotDistinct)
    } else {
        batch_prefix_error(v, verifier, items, items.len())
    }
}

/// The submissions after the first `n` entries of a batch were approved.
pub open spec fn approve_prefix(
    m: Map<Seq<Seq<char>>, Submission>,
    items: Seq<BatchApprovalInput>,
    n: nat,
) -> Map<Seq<Seq<char>>, Submission>
    decreases n,
{
    if n == 0 {
        m
    } else {
        let k = item_key(items[n - 1]);
        approve_prefix(m, items, (n - 1) as nat).insert(
            k,
            Submission { status: SubmissionStatus::Approved, ..m[k] },
        )
    }
}

proof fn lemma_approve_prefix_other(
    m: Map<Seq<Seq<char>>, Submission>,
    items: Seq<BatchApprovalInput>,
    n: nat,
    k: Seq<Seq<char>>,
)
    requires
        n <= items.len(),
        forall|j: int| 0 <= j < n ==> #[trigger] item_key(items[j]) != k,
    ensures
        approve_prefix(m, items, n).contains_key(k) == m.contains_key(k),
        approve_prefix(m, items, n)[k] == m[k],
    decreases n,
{
    if n > 0 {
        lemma_approve_prefix_other(m, items, (n - 1) as nat, k);
        assert(item_key(items[n - 1]) != k);
    }
}

/// The verifier approves several submissions at once. Either every entry is
/// approved, in order, or the first failing check is returned and nothing
/// changes.
pub fn approve_submissions_batch(env: &mut Env, verifier: &Address, submissions: &Vec<BatchApprovalInput>) -> (r:
    Result<(), Error>)
    requires
        old(env).wf(),
    ensures
        final(env).wf(),
        batch_error(old(env)@, verifier@, submissions@) matches Some(e) ==> r == Err::<(), Error>(e)
            && final(env)@ == old(env)@,
        batch_error(old(env)@, verifier@, submissions@) is None ==> r is Ok && final(env)@ == (
        EnvView {
            submissions: approve_prefix(
                old(env)@.submissions,
                submissions@,
                submissions@.len(),
            ),
            ..old(env)@
        }),
{
    let len = submissions.len();
    validation::validate_batch_approval_size(len)?;
    let mut i: usize = 0;
    while i < len
        invariant
            env.wf(),
            env@ == old(env)@,
            len == submissions@.len(),
            0 < len <= MAX_BATCH_APPROVAL_SIZE,
            i <= len,
            forall|j: int| 0 <= j < i ==> (#[trigger] submissions@[j]).submitter@ != verifier@,
        decreases len - i,
    {
        validation::validate_addresses_distinct(verifier, &submissions[i].submitter)?;
        i = i + 1;
    }
    // Check every entry against the stored state before writing anything.
    let mut i: usize = 0;
    while i < len
        invariant
            env.wf(),
            env@ == old(env)@,
            len == submissions@.len(),
            0 < len <= MAX_BATCH_APPROVAL_SIZE,
            forall|j: int| 0 <= j < len ==> (#[trigger] submissions@[j]).submitter@ != verifier@,
            i <= len,
            batch_prefix_error(env@, verifier@, submissions@, i as nat) is None,
        decreases len - i,
    {
        let item = &submissions[i];
        proof {
            lemma_prefix_error_step(env@, verifier@, submissions@, i as nat);
        }
        let quest = storage::get_quest(env, &item.quest_id)?;
        if *verifier != quest.verifier {
            return Err(Error::Unauthorized);
        }
        let submission = storage::get_submission(env, &item.quest_id, &item.submitter)?;
        let mut repeated = false;
        let mut j: usize = 0;
        while j < i
            invariant
                len == submissions@.len(),
                j <= i < len,
                *item == submissions@[i as int],
                repeated == exists|t: int|
                    0 <= t < j && #[trigger] item_key(submissions@[t]) == item_key(
                        submissions@[i as int],
                    ),
            decreases i - j,
        {
            let same = submissions[j].quest_id == item.quest_id && submissions[j].submitter
                == item.submitter;
            proof {
                assert(item.quest_id@ == submissions@[i as int].quest_id@);
                assert(item.submitter@ == submissions@[i as int].submitter@);
                if same {
                    assert(item_key(submissions@[j as int]) =~= item_key(submissions@[i as int]));
                }
                if item_key(submissions@[j as int]) == item_key(submissions@[i as int]) {
                    assert(item_key(submissions@[j as int])[0] == submissions@[j as int].quest_id@);
                    assert(item_key(submissions@[j as int])[1] == submissions@[j as int].submitter@);
                }
            }
            repeated = repeated || same;
            j = j + 1;
        }
        if submission.status != SubmissionStatus::Pending || repeated {
            return Err(Error::InvalidStatusTransition);
        }
        if storage::has_escrow(env, &item.quest_id) {
            crate::escrow::validate_sufficient(env, &item.quest_id, quest.reward_amount)?;
        }
        i = i + 1;
    }
    // Every entry passes: approve them in order.
    let ghost v0 = env@;
    let mut i: usize = 0;
    while i < len
        invariant
            env.wf(),
            len == submissions@.len(),
            i <= len,
            batch_prefix_error(v0, verifier@, submissions@, len as nat) is None,
            env@ == (EnvView {
                submissions: approve_prefix(v0.submissions, submissions@, i as nat),
                ..v0
            }),
        decreases len - i,
    {
        let item = &submissions[i];
        proof {
            lemma_prefix_error_none(v0, verifier@, submissions@, len as nat, i as nat);
            assert(batch_item_error(v0, verifier@, submissions@, i as int) is None);
            assert forall|j: int| 0 <= j < i implies #[trigger] item_key(submissions@[j])
                != item_key(submissions@[i as int]) by {}
            lemma_approve_prefix_other(
                v0.submissions,
                submissions@,
                i as nat,
                item_key(submissions@[i as int]),
            );
        }
        let mut submission = match storage::get_submission(env, &item.quest_id, &item.submitter) {
            Ok(s) => s,
            Err(e) => {
                proof {
                    assert(false);
                }
                return Err(e);
            },
        };
        submission.status = SubmissionStatus::Approved;
        storage::set_submission(env, &item.quest_id, &item.submitter, submission);
        i = i + 1;
    }
    Ok(())
}

/// The first failing entry among the first `i + 1` entries, when none of the
/// first `i` fails, is entry `i`; and a failure stays the first one.
proof fn lemma_prefix_error_step(
    v: EnvView,
    verifier: Seq<char>,
    items: Seq<BatchApprovalInput>,
    i: nat,
)
    requires
        i < items.len(),
        batch_prefix_error(v, verifier, items, i) is None,
    ensures
        batch_prefix_error(v, verifier, items, i + 1) == batch_item_error(v, verifier, items, i as int),
        batch_item_error(v, verifier, items, i as int) matches Some(e) ==> batch_prefix_error(
            v,
            verifier,
            items,
            items.len(),
        ) == Some(e),
{
    if batch_item_error(v, verifier, items, i as int) is Some {
        lemma_prefix_error_stays(v, verifier, items, i + 1, items.len());
    }
}

proof fn lemma_prefix_error_stays(
    v: EnvView,
    verifier: Seq<char>,
    items: Seq<BatchApprovalInput>,
    m: nat,
    n: nat,
)
    requires
        m <= n,
        batch_prefix_error(v, verifier, items, m) is Some,
    ensures
        batch_prefix_error(v, verifier, items, n) == batch_prefix_error(v, verifier, items, m),
    decreases n,
{
    if m < n {
        lemma_prefix_error_stays(v, verifier, items, m, (n - 1) as nat);
    }
}

proof fn lemma_prefix_error_none(
    v: EnvView,
    verifier: Seq<char>,
    items: Seq<BatchApprovalInput>,
    n: nat,
    i: nat,
)
    requires
        i < n,
        batch_prefix_error(v, verifier, items, n) is None,
    ensures
        batch_item_error(v, verifier, items, i as int) is None,
    decreases n,
{
    if i < n - 1 {
        lemma_prefix_error_none(v, verifier, items, (n - 1) as nat, i);
    }
}

} // verus!
