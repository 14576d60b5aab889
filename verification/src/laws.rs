//! Properties of the contract that span operations.

use vstd::prelude::*;

use crate::contract::{
    admin_transition_error, claim_reward_error, claimed_state, guarded, quest_batch_error, register_error,
    registered_state, with_badge, CLAIM_XP,
};
use crate::submission::{
    batch_error, batch_item_error, batch_prefix_error, review_error, submit_error, with_submission_status,
};
use crate::dispute::{is_open, open_error, resolve_error, with_dispute_status, withdraw_error as dispute_withdraw_error};
use crate::errors::Error;
use crate::escrow::{
    close_error, closed_state, deposit_error, deposit_fits, deposited_record, paid_record, payout_error, payout_fits,
    refund_outcome, withdraw_error,
};
use crate::oracle::{
    accepted, accepted_confidence, accepted_count, accepted_weight, accepted_weighted_price, aggregate_of,
    aggregation_error, aggregation_fits, mock_confidence, mock_price, normalize_fits, normalized,
};
use crate::quest::page;
use crate::storage::{has_oracle, oracle_addresses_unique, user_stats_of, EnvView};
use crate::validation::MAX_SYMBOL_LENGTH;
use crate::table::{key1, key2};
use crate::types::{Address, AggregatedPrice, Badge, BatchApprovalInput, BatchQuestInput, Dispute, DisputeStatus, OracleConfig, Quest, PriceFeedRequest, QuestStatus, SubmissionStatus};
use crate::u256::{lemma_pow10_monotone, pow10};
use crate::validation::{spec_is_quest_terminal, EXPIRY_BUFFER_SECONDS};

verus! {

/// No stored escrow ever holds a negative amount: what was paid out and
/// refunded never exceeds what was deposited.
pub proof fn law_escrow_never_overdrawn(v: EnvView, quest_id: Seq<char>)
    requires
        v.valid(),
        v.escrows.contains_key(key1(quest_id)),
    ensures
        v.escrows[key1(quest_id)].balances.available() >= 0,
        v.escrows[key1(quest_id)].balances.total_paid_out + v.escrows[key1(
            quest_id,
        )].balances.total_refunded <= v.escrows[key1(quest_id)].balances.total_deposited,
{
    assert(v.escrows[key1(quest_id)].balances.consistent());
}

/// A deposit adds exactly its amount to what the escrow holds, and counts one
/// more deposit.
pub proof fn law_deposit_adds_amount(
    v: EnvView,
    quest_id: Seq<char>,
    depositor: Address,
    token: Address,
    amount: i128,
)
    requires
        v.valid(),
        deposit_error(v, quest_id, depositor@, token@, amount) is None,
        deposit_fits(v, quest_id, amount),
    ensures
        ({
            let after = deposited_record(v, quest_id, depositor, token, amount).balances;
            if v.escrows.contains_key(key1(quest_id)) {
                let before = v.escrows[key1(quest_id)].balances;
                &&& after.available() == before.available() + amount
                &&& after.deposit_count == before.deposit_count + 1
            } else {
                &&& after.available() == amount
                &&& after.deposit_count == 1
            }
        }),
{
}

/// A refund empties and closes the escrow, so its leftover can be taken back
/// only once: a second withdrawal finds no funds.
pub proof fn law_no_second_withdrawal(v: EnvView, quest_id: Seq<char>, caller: Seq<char>)
    requires
        v.valid(),
        withdraw_error(v, quest_id, caller) is None,
    ensures
        withdraw_error(
            EnvView { escrows: refund_outcome(v, quest_id).0, ..v },
            quest_id,
            caller,
        ) == Some(Error::NoFundsToWithdraw),
{
    assert(v.escrows[key1(quest_id)].balances.consistent());
}

/// Cancelling or expiring a quest returns everything its escrow still held
/// and leaves nothing to withdraw afterwards.
pub proof fn law_closing_refunds_everything(
    v: EnvView,
    quest_id: Seq<char>,
    caller: Seq<char>,
    target: QuestStatus,
)
    requires
        v.valid(),
        target == QuestStatus::Cancelled || target == QuestStatus::Expired,
        close_error(v, quest_id, caller, target) is None,
        v.escrows.contains_key(key1(quest_id)),
    ensures
        refund_outcome(v, quest_id).1 == v.escrows[key1(quest_id)].balances.available(),
        !closed_state(v, quest_id, target).escrows[key1(quest_id)].balances.is_active,
        closed_state(v, quest_id, target).escrows[key1(quest_id)].balances.available() == 0,
        withdraw_error(closed_state(v, quest_id, target), quest_id, caller) == Some(
            Error::NoFundsToWithdraw,
        ),
{
    assert(v.escrows[key1(quest_id)].balances.consistent());
}

/// A quest in a terminal state stays there: it can be neither cancelled,
/// expired, paused nor resumed.
pub proof fn law_terminal_quest_is_final(
    v: EnvView,
    quest_id: Seq<char>,
    caller: Seq<char>,
    target: QuestStatus,
)
    requires
        v.quests.contains_key(key1(quest_id)),
        spec_is_quest_terminal(v.quests[key1(quest_id)].status),
    ensures
        close_error(v, quest_id, caller, QuestStatus::Cancelled) is Some,
        close_error(v, quest_id, caller, QuestStatus::Expired) is Some,
        admin_transition_error(v, caller, quest_id, target) is Some,
{
}

/// A reward is claimed only for an approved submission.
pub proof fn law_claim_requires_approval(v: EnvView, quest_id: Seq<char>, submitter: Seq<char>)
    requires
        claim_reward_error(v, quest_id, submitter) is None,
    ensures
        v.submissions[key2(quest_id, submitter)].status == SubmissionStatus::Approved,
{
}

/// A reward is paid once: claiming it again is refused as already claimed.
pub proof fn law_claim_once(v: EnvView, quest_id: Seq<char>, submitter: Seq<char>)
    requires
        claim_reward_error(v, quest_id, submitter) is None,
    ensures
        claim_reward_error(claimed_state(v, quest_id, submitter), quest_id, submitter) == Some(
            Error::AlreadyClaimed,
        ),
{
    let w = claimed_state(v, quest_id, submitter);
    assert(w.submissions[key2(quest_id, submitter)].status == SubmissionStatus::Paid);
}

/// A claim takes exactly the quest's reward out of its escrow and counts one
/// more claim on the quest.
pub proof fn law_claim_debits_escrow(v: EnvView, quest_id: Seq<char>, submitter: Seq<char>)
    requires
        v.valid(),
        claim_reward_error(v, quest_id, submitter) is None,
    ensures
        ({
            let k = key1(quest_id);
            let w = claimed_state(v, quest_id, submitter);
            &&& w.escrows[k].balances.available() == v.escrows[k].balances.available()
                - v.quests[k].reward_amount
            &&& w.escrows[k].balances.consistent()
            &&& w.quests[k].total_claims == v.quests[k].total_claims + 1
        }),
{
    assert(v.escrows[key1(quest_id)].balances.consistent());
}

/// At most one open dispute per quest and submitter: once a dispute is opened,
/// opening another is refused while it is open.
pub proof fn law_single_open_dispute(
    v: EnvView,
    quest_id: Seq<char>,
    initiator: Seq<char>,
    d: Dispute,
)
    requires
        open_error(v, quest_id, initiator) is None,
        d.status == DisputeStatus::Pending,
    ensures
        open_error(
            EnvView { disputes: v.disputes.insert(key2(quest_id, initiator), d), ..v },
            quest_id,
            initiator,
        ) == Some(Error::DisputeAlreadyExists),
{
}

/// A resolved dispute is closed for good: it can be neither resolved nor
/// withdrawn again.
pub proof fn law_resolved_dispute_is_closed(
    v: EnvView,
    quest_id: Seq<char>,
    initiator: Seq<char>,
    arbitrator: Seq<char>,
    anyone: Seq<char>,
)
    requires
        resolve_error(v, quest_id, initiator, arbitrator) is None,
    ensures
        ({
            let w = with_dispute_status(v, quest_id, initiator, DisputeStatus::Resolved);
            &&& resolve_error(w, quest_id, initiator, anyone) == Some(Error::DisputeNotPending)
            &&& dispute_withdraw_error(w, quest_id, initiator) == Some(Error::DisputeNotPending)
            &&& !is_open(w.disputes[key2(quest_id, initiator)].status)
        }),
{
}

/// A dispute that was resolved or withdrawn does not block a new one on a
/// rejected submission.
pub proof fn law_closed_dispute_can_reopen(v: EnvView, quest_id: Seq<char>, initiator: Seq<char>)
    requires
        v.submissions.contains_key(key2(quest_id, initiator)),
        v.submissions[key2(quest_id, initiator)].status == SubmissionStatus::Rejected,
        v.disputes.contains_key(key2(quest_id, initiator)),
        !is_open(v.disputes[key2(quest_id, initiator)].status),
    ensures
        open_error(v, quest_id, initiator) is None,
{
}

/// Only the assigned arbitrator resolves an open dispute.
pub proof fn law_only_arbitrator_resolves(
    v: EnvView,
    quest_id: Seq<char>,
    initiator: Seq<char>,
    caller: Seq<char>,
)
    requires
        v.disputes.contains_key(key2(quest_id, initiator)),
        is_open(v.disputes[key2(quest_id, initiator)].status),
        caller != v.disputes[key2(quest_id, initiator)].arbitrator@,
    ensures
        resolve_error(v, quest_id, initiator, caller) == Some(Error::DisputeNotAuthorized),
{
}

/// Raising a price's precision and lowering it back gives the price back.
pub proof fn law_normalize_round_trip(price: nat, from: u32, to: u32)
    requires
        from < to,
        normalize_fits(price, from, to),
    ensures
        normalize_fits(normalized(price, from, to), to, from),
        normalized(normalized(price, from, to), to, from) == price,
{
    let f = pow10((to - from) as nat);
    lemma_pow10_monotone(0, (to - from) as nat);
    vstd::arithmetic::div_mod::lemma_div_by_multiple(price as int, f as int);
}

/// An aggregate counts no more sources than it was given.
pub proof fn law_sources_used_at_most_total(s: Seq<OracleConfig>)
    ensures
        accepted_count(s) <= s.len(),
    decreases s.len(),
{
    if s.len() > 0 {
        law_sources_used_at_most_total(s.drop_last());
    }
}

/// After an oracle configuration is added, it is the one registered under its
/// address.
pub proof fn law_added_oracle_is_found(oracles: Seq<OracleConfig>, config: OracleConfig)
    requires
        oracle_addresses_unique(oracles),
        !has_oracle(oracles, config.oracle_address@),
    ensures
        has_oracle(oracles.push(config), config.oracle_address@),
        forall|i: int|
            0 <= i < oracles.push(config).len() && (#[trigger] oracles.push(config)[i]).oracle_address@
                == config.oracle_address@ ==> oracles.push(config)[i] == config,
{
    let s = oracles.push(config);
    assert(s[s.len() - 1] == config);
    assert forall|i: int|
        0 <= i < s.len() && (#[trigger] s[i]).oracle_address@ == config.oracle_address@ implies s[i]
        == config by {
        if i < oracles.len() {
            assert(s[i] == oracles[i]);
        }
    }
}

/// After an oracle configuration is removed, none is registered under its
/// address.
pub proof fn law_removed_oracle_is_gone(oracles: Seq<OracleConfig>, i: int)
    requires
        oracle_addresses_unique(oracles),
        0 <= i < oracles.len(),
    ensures
        !has_oracle(oracles.remove(i), oracles[i].oracle_address@),
{
    let s = oracles.remove(i);
    if has_oracle(s, oracles[i].oracle_address@) {
        let j = choose|j: int| 0 <= j < s.len() && (#[trigger] s[j]).oracle_address@ == oracles[i].oracle_address@;
        let j2 = if j < i { j } else { j + 1 };
        assert(s[j] == oracles[j2]);
    }
}

/// A registered quest reads back as registered: active, with no claims, and
/// it comes last in the registration order.
pub proof fn law_registered_quest_reads_back(v: EnvView, q: Quest)
    ensures
        registered_state(v, q).quests.contains_key(key1(q.id@)),
        registered_state(v, q).quests[key1(q.id@)] == q,
        registered_state(v, q).quest_order.last() == key1(q.id@),
{
}

/// A reviewed submission stays reviewed: once approved or rejected, it can be
/// neither approved nor rejected again.
pub proof fn law_review_is_final(
    v: EnvView,
    quest_id: Seq<char>,
    submitter: Seq<char>,
    verifier: Seq<char>,
    approve: bool,
    again: bool,
)
    requires
        review_error(v, quest_id, submitter, verifier, approve) is None,
    ensures
        review_error(
            with_submission_status(
                v,
                quest_id,
                submitter,
                if approve {
                    SubmissionStatus::Approved
                } else {
                    SubmissionStatus::Rejected
                },
            ),
            quest_id,
            submitter,
            verifier,
            again,
        ) == Some(Error::InvalidStatusTransition),
{
}

/// A page never holds more than its limit.
pub proof fn law_page_within_limit<T>(s: Seq<T>, offset: nat, limit: nat)
    ensures
        page(s, offset, limit).len() <= limit,
{
}

/// What an accepted oracle adds to one of the aggregate's four sums: its
/// count (`kind` 0), its weight (1), its weighted price (2) or its
/// confidence (3).
spec fn accepted_term(kind: nat, c: OracleConfig) -> nat {
    if !accepted(c) {
        0
    } else if kind == 0 {
        1
    } else if kind == 1 {
        c.min_confidence as nat
    } else if kind == 2 {
        mock_price(c.oracle_type) * (c.min_confidence as nat)
    } else {
        mock_confidence(c.oracle_type) as nat
    }
}

/// One of the aggregate's sums over a list of oracles.
spec fn accepted_sum(s: Seq<OracleConfig>, kind: nat) -> nat
    decreases s.len(),
{
    if s.len() == 0 {
        0
    } else {
        accepted_sum(s.drop_last(), kind) + accepted_term(kind, s.last())
    }
}

proof fn lemma_accepted_sums(s: Seq<OracleConfig>)
    ensures
        accepted_count(s) == accepted_sum(s, 0),
        accepted_weight(s) == accepted_sum(s, 1),
        accepted_weighted_price(s) == accepted_sum(s, 2),
        accepted_confidence(s) == accepted_sum(s, 3),
    decreases s.len(),
{
    if s.len() > 0 {
        lemma_accepted_sums(s.drop_last());
    }
}

/// Taking one oracle out of the list takes its term out of the sum.
proof fn lemma_accepted_sum_remove(s: Seq<OracleConfig>, kind: nat, i: int)
    requires
        0 <= i < s.len(),
    ensures
        accepted_sum(s, kind) == accepted_sum(s.remove(i), kind) + accepted_term(kind, s[i]),
    decreases s.len(),
{
    if i < s.len() - 1 {
        let t = s.drop_last();
        lemma_accepted_sum_remove(t, kind, i);
        assert(s.remove(i).drop_last() =~= t.remove(i));
        assert(s.remove(i).last() == s.last());
    } else {
        assert(s.remove(i) =~= s.drop_last());
    }
}

proof fn lemma_accepted_sum_permutation(s1: Seq<OracleConfig>, s2: Seq<OracleConfig>, kind: nat)
    requires
        s1.to_multiset() == s2.to_multiset(),
    ensures
        accepted_sum(s1, kind) == accepted_sum(s2, kind),
    decreases s1.len(),
{
    broadcast use vstd::seq_lib::group_to_multiset_ensures;

    if s1.len() == 0 {
        assert(s2.len() == s2.to_multiset().len());
        assert(s2.len() == 0);
    } else {
        let n = s1.len() - 1;
        let x = s1[n];
        assert(s1.contains(x));
        assert(s1.to_multiset().count(x) > 0);
        assert(s2.contains(x));
        let j = choose|j: int| 0 <= j < s2.len() && s2[j] == x;
        let t1 = s1.remove(n);
        let t2 = s2.remove(j);
        assert(t1.to_multiset() == s1.to_multiset().remove(x));
        assert(t2.to_multiset() == s2.to_multiset().remove(x));
        lemma_accepted_sum_permutation(t1, t2, kind);
        lemma_accepted_sum_remove(s1, kind, n);
        lemma_accepted_sum_remove(s2, kind, j);
    }
}

/// The order in which the oracles are listed does not matter: two lists with
/// the same oracles, each as often, fit the same counters, fail with the
/// same error, and describe the same aggregate.
pub proof fn law_aggregation_ignores_order(
    now: u64,
    s1: Seq<OracleConfig>,
    s2: Seq<OracleConfig>,
    request: PriceFeedRequest,
    a: AggregatedPrice,
)
    requires
        s1.to_multiset() == s2.to_multiset(),
    ensures
        aggregation_fits(s1) == aggregation_fits(s2),
        aggregation_error(s1) == aggregation_error(s2),
        aggregate_of(now, s1, request, a) <==> aggregate_of(now, s2, request, a),
{
    broadcast use vstd::seq_lib::group_to_multiset_ensures;

    assert(s1.len() == s1.to_multiset().len());
    assert(s2.len() == s2.to_multiset().len());
    lemma_accepted_sums(s1);
    lemma_accepted_sums(s2);
    lemma_accepted_sum_permutation(s1, s2, 0);
    lemma_accepted_sum_permutation(s1, s2, 1);
    lemma_accepted_sum_permutation(s1, s2, 2);
    lemma_accepted_sum_permutation(s1, s2, 3);
}

/// Booking a payout takes exactly its amount off what the escrow holds,
/// whatever the amount's sign, and keeps the escrow's accounting consistent.
pub proof fn law_payout_subtracts_amount(v: EnvView, quest_id: Seq<char>, amount: i128)
    requires
        v.valid(),
        payout_error(v, quest_id, amount) is None,
        payout_fits(v.escrows[key1(quest_id)].balances, amount),
    ensures
        ({
            let before = v.escrows[key1(quest_id)].balances;
            let after = paid_record(v.escrows[key1(quest_id)], amount).balances;
            &&& after.available() == before.available() - amount
            &&& after.consistent()
        }),
{
    assert(v.escrows[key1(quest_id)].balances.consistent());
}

/// A claim earns the submitter `CLAIM_XP` experience points and leaves the
/// submitter's level as it was.
pub proof fn law_claim_awards_experience(v: EnvView, quest_id: Seq<char>, submitter: Seq<char>)
    requires
        claim_reward_error(v, quest_id, submitter) is None,
    ensures
        user_stats_of(claimed_state(v, quest_id, submitter), submitter).xp == user_stats_of(v, submitter).xp
            + CLAIM_XP,
        user_stats_of(claimed_state(v, quest_id, submitter), submitter).level == user_stats_of(
            v,
            submitter,
        ).level,
{
}

/// A paused contract refuses every change with `ContractPaused`: claims,
/// registrations, batch registrations, quest status changes, and every
/// other operation whose refusal goes through the pause guard.
pub proof fn law_paused_contract_refuses(
    v: EnvView,
    quest_id: Seq<char>,
    caller: Seq<char>,
    reward_amount: i128,
    verifier: Seq<char>,
    deadline: u64,
    items: Seq<BatchQuestInput>,
    target: QuestStatus,
    e: Option<Error>,
)
    requires
        v.paused,
    ensures
        claim_reward_error(v, quest_id, caller) == Some(Error::ContractPaused),
        register_error(v, quest_id, caller, reward_amount, verifier, deadline) == Some(
            Error::ContractPaused,
        ),
        quest_batch_error(v, caller, items) == Some(Error::ContractPaused),
        admin_transition_error(v, caller, quest_id, target) == Some(Error::ContractPaused),
        guarded(v, e) == Some(Error::ContractPaused),
{
}

/// A granted badge is held afterwards, and granting a badge that is already
/// held changes nothing.
pub proof fn law_granted_badge_is_held(held: Seq<Badge>, badge: Badge)
    ensures
        with_badge(held, badge).contains(badge),
        with_badge(with_badge(held, badge), badge) == with_badge(held, badge),
{
    if !held.contains(badge) {
        assert(held.push(badge)[held.len() as int] == badge);
    }
}

/// The same stored state, seen at ledger time `t`.
pub open spec fn at_time(v: EnvView, t: u64) -> EnvView {
    EnvView { now: t, ..v }
}

/// An approved submitter can claim: when the contract runs, the quest and
/// the approved submission exist, the quest can count one more claim, its
/// escrow is active and still holds the reward, and the submitter's
/// experience can grow, the claim goes through, whatever the ledger time
/// (before or after the quest's deadline).
pub proof fn law_claim_succeeds_when_eligible(v: EnvView, quest_id: Seq<char>, submitter: Seq<char>)
    requires
        !v.paused,
        v.quests.contains_key(key1(quest_id)),
        v.submissions.contains_key(key2(quest_id, submitter)),
        v.submissions[key2(quest_id, submitter)].status == SubmissionStatus::Approved,
        v.quests[key1(quest_id)].total_claims < u32::MAX,
        v.escrows.contains_key(key1(quest_id)),
        v.escrows[key1(quest_id)].balances.is_active,
        v.escrows[key1(quest_id)].balances.total_deposited - v.escrows[key1(quest_id)].balances.total_paid_out
            - v.escrows[key1(quest_id)].balances.total_refunded >= v.quests[key1(quest_id)].reward_amount,
        user_stats_of(v, submitter).xp + 100 <= u64::MAX,
    ensures
        claim_reward_error(v, quest_id, submitter) is None,
{
}

/// Whether a claim goes through never depends on the ledger time.
pub proof fn law_claim_ignores_time(v: EnvView, quest_id: Seq<char>, submitter: Seq<char>, t: u64)
    ensures
        claim_reward_error(at_time(v, t), quest_id, submitter) == claim_reward_error(v, quest_id, submitter),
{
}

/// The quest's verifier can approve a pending submission whenever the quest's
/// escrow, if it has one, is active and covers the reward, whatever the
/// ledger time (reviews may come after the deadline).
pub proof fn law_approval_succeeds_when_eligible(
    v: EnvView,
    quest_id: Seq<char>,
    submitter: Seq<char>,
    verifier: Seq<char>,
)
    requires
        v.quests.contains_key(key1(quest_id)),
        verifier == v.quests[key1(quest_id)].verifier@,
        v.submissions.contains_key(key2(quest_id, submitter)),
        v.submissions[key2(quest_id, submitter)].status == SubmissionStatus::Pending,
        v.escrows.contains_key(key1(quest_id)) ==> {
            &&& v.escrows[key1(quest_id)].balances.is_active
            &&& v.escrows[key1(quest_id)].balances.total_deposited
                - v.escrows[key1(quest_id)].balances.total_paid_out
                - v.escrows[key1(quest_id)].balances.total_refunded >= v.quests[key1(quest_id)].reward_amount
        },
    ensures
        review_error(v, quest_id, submitter, verifier, true) is None,
        review_error(v, quest_id, submitter, verifier, false) is None,
{
}

/// Whether a review (approval or rejection) goes through never depends on
/// the ledger time.
pub proof fn law_review_ignores_time(
    v: EnvView,
    quest_id: Seq<char>,
    submitter: Seq<char>,
    verifier: Seq<char>,
    approve: bool,
    t: u64,
)
    ensures
        review_error(at_time(v, t), quest_id, submitter, verifier, approve) == review_error(
            v,
            quest_id,
            submitter,
            verifier,
            approve,
        ),
{
}

proof fn lemma_batch_prefix_ignores_time(
    v: EnvView,
    verifier: Seq<char>,
    items: Seq<BatchApprovalInput>,
    n: nat,
    t: u64,
)
    ensures
        batch_prefix_error(at_time(v, t), verifier, items, n) == batch_prefix_error(v, verifier, items, n),
    decreases n,
{
    if n > 0 {
        lemma_batch_prefix_ignores_time(v, verifier, items, (n - 1) as nat, t);
        assert(batch_item_error(at_time(v, t), verifier, items, n - 1) == batch_item_error(
            v,
            verifier,
            items,
            n - 1,
        ));
    }
}

/// Whether a batch approval goes through never depends on the ledger time.
pub proof fn law_batch_approval_ignores_time(
    v: EnvView,
    verifier: Seq<char>,
    items: Seq<BatchApprovalInput>,
    t: u64,
)
    ensures
        batch_error(at_time(v, t), verifier, items) == batch_error(v, verifier, items),
{
    lemma_batch_prefix_ignores_time(v, verifier, items, items.len(), t);
}

/// The creator can fund a live quest with its reward token at any time, and
/// top up an active escrow however much it has already paid out or refunded.
pub proof fn law_topup_succeeds_when_eligible(
    v: EnvView,
    quest_id: Seq<char>,
    depositor: Seq<char>,
    token: Seq<char>,
    amount: i128,
)
    requires
        amount > 0,
        v.quests.contains_key(key1(quest_id)),
        depositor == v.quests[key1(quest_id)].creator@,
        v.quests[key1(quest_id)].status == QuestStatus::Active || v.quests[key1(quest_id)].status
            == QuestStatus::Paused,
        token == v.quests[key1(quest_id)].reward_asset@,
        v.escrows.contains_key(key1(quest_id)) ==> v.escrows[key1(quest_id)].balances.is_active,
    ensures
        deposit_error(v, quest_id, depositor, token, amount) is None,
{
}

/// Whether a deposit goes through never depends on the ledger time.
pub proof fn law_deposit_ignores_time(
    v: EnvView,
    quest_id: Seq<char>,
    depositor: Seq<char>,
    token: Seq<char>,
    amount: i128,
    t: u64,
)
    ensures
        deposit_error(at_time(v, t), quest_id, depositor, token, amount) == deposit_error(
            v,
            quest_id,
            depositor,
            token,
            amount,
        ),
{
}

/// The creator can cancel a quest that is active or paused at any time,
/// before or after its deadline.
pub proof fn law_creator_can_cancel(v: EnvView, quest_id: Seq<char>, caller: Seq<char>)
    requires
        v.quests.contains_key(key1(quest_id)),
        caller == v.quests[key1(quest_id)].creator@,
        v.quests[key1(quest_id)].status == QuestStatus::Active || v.quests[key1(quest_id)].status
            == QuestStatus::Paused,
    ensures
        close_error(v, quest_id, caller, QuestStatus::Cancelled) is None,
        close_error(at_time(v, 0), quest_id, caller, QuestStatus::Cancelled) is None,
        close_error(at_time(v, u64::MAX), quest_id, caller, QuestStatus::Cancelled) is None,
{
}

/// Whether a cancellation or a withdrawal of unclaimed funds goes through
/// never depends on the ledger time.
pub proof fn law_cancel_and_withdraw_ignore_time(v: EnvView, quest_id: Seq<char>, caller: Seq<char>, t: u64)
    ensures
        close_error(at_time(v, t), quest_id, caller, QuestStatus::Cancelled) == close_error(
            v,
            quest_id,
            caller,
            QuestStatus::Cancelled,
        ),
        withdraw_error(at_time(v, t), quest_id, caller) == withdraw_error(v, quest_id, caller),
{
}

/// The creator can expire an active or paused quest exactly once the ledger
/// time is past its deadline by more than the expiry buffer.
pub proof fn law_expiry_after_grace(v: EnvView, quest_id: Seq<char>, caller: Seq<char>)
    requires
        v.quests.contains_key(key1(quest_id)),
        caller == v.quests[key1(quest_id)].creator@,
        v.quests[key1(quest_id)].status == QuestStatus::Active || v.quests[key1(quest_id)].status
            == QuestStatus::Paused,
    ensures
        close_error(v, quest_id, caller, QuestStatus::Expired) is None <==> v.now
            > v.quests[key1(quest_id)].deadline + EXPIRY_BUFFER_SECONDS,
{
}

/// A proof is accepted exactly while its quest exists, is active and its
/// deadline has not passed; how many rewards the quest has already paid
/// does not matter.
pub proof fn law_submission_window(v: EnvView, quest_id: Seq<char>)
    ensures
        submit_error(v, quest_id) is None <==> {
            &&& v.quests.contains_key(key1(quest_id))
            &&& v.quests[key1(quest_id)].status == QuestStatus::Active
            &&& v.now <= v.quests[key1(quest_id)].deadline
        },
{
}

/// What the escrow of a quest still holds: deposits less payouts and refunds.
pub open spec fn escrow_holds(v: EnvView, quest_id: Seq<char>) -> int {
    let b = v.escrows[key1(quest_id)].balances;
    b.total_deposited - b.total_paid_out - b.total_refunded
}

/// A claim goes through exactly when the contract runs, the submission was
/// approved, the quest can count one more claim, the quest's escrow is active
/// and holds the reward, and the submitter's experience can grow by 100.
pub proof fn law_claim_conditions(v: EnvView, quest_id: Seq<char>, submitter: Seq<char>)
    ensures
        claim_reward_error(v, quest_id, submitter) is None <==> {
            &&& !v.paused
            &&& v.quests.contains_key(key1(quest_id))
            &&& v.submissions.contains_key(key2(quest_id, submitter))
            &&& v.submissions[key2(quest_id, submitter)].status == SubmissionStatus::Approved
            &&& v.quests[key1(quest_id)].total_claims < u32::MAX
            &&& v.escrows.contains_key(key1(quest_id))
            &&& v.escrows[key1(quest_id)].balances.is_active
            &&& escrow_holds(v, quest_id) >= v.quests[key1(quest_id)].reward_amount
            &&& user_stats_of(v, submitter).xp + 100 <= u64::MAX
        },
{
}

/// A review goes through exactly when the caller is the quest's verifier and
/// the submission is pending; an approval also needs the quest's escrow, if
/// it has one, to be active and to hold the reward.
pub proof fn law_review_conditions(
    v: EnvView,
    quest_id: Seq<char>,
    submitter: Seq<char>,
    verifier: Seq<char>,
    approve: bool,
)
    ensures
        review_error(v, quest_id, submitter, verifier, approve) is None <==> {
            &&& v.quests.contains_key(key1(quest_id))
            &&& verifier == v.quests[key1(quest_id)].verifier@
            &&& v.submissions.contains_key(key2(quest_id, submitter))
            &&& v.submissions[key2(quest_id, submitter)].status == SubmissionStatus::Pending
            &&& approve && v.escrows.contains_key(key1(quest_id)) ==> {
                &&& v.escrows[key1(quest_id)].balances.is_active
                &&& escrow_holds(v, quest_id) >= v.quests[key1(quest_id)].reward_amount
            }
        },
{
}

/// A deposit goes through exactly when the amount is positive, the depositor
/// is the creator of a quest that is not finished, the token is the quest's
/// reward asset, and an existing escrow is still active.
pub proof fn law_deposit_conditions(
    v: EnvView,
    quest_id: Seq<char>,
    depositor: Seq<char>,
    token: Seq<char>,
    amount: i128,
)
    ensures
        deposit_error(v, quest_id, depositor, token, amount) is None <==> {
            &&& amount > 0
            &&& v.quests.contains_key(key1(quest_id))
            &&& depositor == v.quests[key1(quest_id)].creator@
            &&& (v.quests[key1(quest_id)].status == QuestStatus::Active || v.quests[key1(quest_id)].status
                == QuestStatus::Paused)
            &&& token == v.quests[key1(quest_id)].reward_asset@
            &&& v.escrows.contains_key(key1(quest_id)) ==> v.escrows[key1(quest_id)].balances.is_active
        },
{
}

/// A cancellation goes through exactly when the caller created the quest and
/// the quest is active or paused.
pub proof fn law_cancel_conditions(v: EnvView, quest_id: Seq<char>, caller: Seq<char>)
    ensures
        close_error(v, quest_id, caller, QuestStatus::Cancelled) is None <==> {
            &&& v.quests.contains_key(key1(quest_id))
            &&& caller == v.quests[key1(quest_id)].creator@
            &&& (v.quests[key1(quest_id)].status == QuestStatus::Active || v.quests[key1(quest_id)].status
                == QuestStatus::Paused)
        },
{
}

/// Unclaimed funds can be withdrawn exactly when the caller created the
/// quest, the quest is finished (completed, expired or cancelled), and its
/// escrow still holds something.
pub proof fn law_withdraw_unclaimed_conditions(v: EnvView, quest_id: Seq<char>, caller: Seq<char>)
    ensures
        withdraw_error(v, quest_id, caller) is None <==> {
            &&& v.quests.contains_key(key1(quest_id))
            &&& caller == v.quests[key1(quest_id)].creator@
            &&& (v.quests[key1(quest_id)].status == QuestStatus::Completed || v.quests[key1(quest_id)].status
                == QuestStatus::Expired || v.quests[key1(quest_id)].status == QuestStatus::Cancelled)
            &&& v.escrows.contains_key(key1(quest_id))
            &&& escrow_holds(v, quest_id) > 0
        },
{
}

/// A quest is registered exactly when the contract runs, the identifier is
/// new and between 1 and 32 characters long, creator and verifier differ,
/// the reward is positive and the deadline lies in the future.
pub proof fn law_register_conditions(
    v: EnvView,
    id: Seq<char>,
    creator: Seq<char>,
    reward_amount: i128,
    verifier: Seq<char>,
    deadline: u64,
)
    ensures
        register_error(v, id, creator, reward_amount, verifier, deadline) is None <==> {
            &&& !v.paused
            &&& 0 < id.len() <= 32
            &&& creator != verifier
            &&& reward_amount > 0
            &&& deadline > v.now
            &&& !v.quests.contains_key(key1(id))
        },
{
    assert(MAX_SYMBOL_LENGTH == 32);
}

/// A dispute is opened exactly when no dispute of the submitter on the quest
/// is still open and the submitter's submission was rejected; resolved
/// exactly when it is open and the caller is its arbitrator; withdrawn
/// exactly when it is still pending.
pub proof fn law_dispute_conditions(
    v: EnvView,
    quest_id: Seq<char>,
    initiator: Seq<char>,
    arbitrator: Seq<char>,
)
    ensures
        open_error(v, quest_id, initiator) is None <==> {
            &&& !(v.disputes.contains_key(key2(quest_id, initiator)) && (v.disputes[key2(
                quest_id,
                initiator,
            )].status == DisputeStatus::Pending || v.disputes[key2(quest_id, initiator)].status
                == DisputeStatus::UnderReview))
            &&& v.submissions.contains_key(key2(quest_id, initiator))
            &&& v.submissions[key2(quest_id, initiator)].status == SubmissionStatus::Rejected
        },
        resolve_error(v, quest_id, initiator, arbitrator) is None <==> {
            &&& v.disputes.contains_key(key2(quest_id, initiator))
            &&& (v.disputes[key2(quest_id, initiator)].status == DisputeStatus::Pending || v.disputes[key2(
                quest_id,
                initiator,
            )].status == DisputeStatus::UnderReview)
            &&& v.disputes[key2(quest_id, initiator)].arbitrator@ == arbitrator
        },
        dispute_withdraw_error(v, quest_id, initiator) is None <==> {
            &&& v.disputes.contains_key(key2(quest_id, initiator))
            &&& v.disputes[key2(quest_id, initiator)].status == DisputeStatus::Pending
        },
        open_error(at_time(v, 0), quest_id, initiator) == open_error(v, quest_id, initiator),
        resolve_error(at_time(v, 0), quest_id, initiator, arbitrator) == resolve_error(
            v,
            quest_id,
            initiator,
            arbitrator,
        ),
        dispute_withdraw_error(at_time(v, 0), quest_id, initiator) == dispute_withdraw_error(
            v,
            quest_id,
            initiator,
        ),
{
}

/// The administrator can pause a live quest, and resume it, at any time.
pub proof fn law_admin_transition_conditions(
    v: EnvView,
    caller: Seq<char>,
    quest_id: Seq<char>,
    target: QuestStatus,
)
    ensures
        admin_transition_error(v, caller, quest_id, target) is None <==> {
            &&& !v.paused
            &&& v.admin matches Some(a) && a@ == caller
            &&& v.quests.contains_key(key1(quest_id))
            &&& !spec_is_quest_terminal(v.quests[key1(quest_id)].status)
            &&& v.quests[key1(quest_id)].status != target
        },
{
}

/// A claim marks exactly the claimed submission as paid, keeps its proof and
/// time, leaves the quest's terms and status as they were, and books exactly
/// the reward as paid out of the quest's escrow; no other quest, submission
/// or escrow changes.
pub proof fn law_claim_outcome(
    v: EnvView,
    quest_id: Seq<char>,
    submitter: Seq<char>,
    other_quest: Seq<char>,
    other_submission: Seq<Seq<char>>,
)
    requires
        v.valid(),
        claim_reward_error(v, quest_id, submitter) is None,
    ensures
        ({
            let w = claimed_state(v, quest_id, submitter);
            let k = key1(quest_id);
            let sk = key2(quest_id, submitter);
            &&& w.submissions[sk].status == SubmissionStatus::Paid
            &&& w.submissions[sk].proof_hash == v.submissions[sk].proof_hash
            &&& w.submissions[sk].timestamp == v.submissions[sk].timestamp
            &&& w.quests[k].status == v.quests[k].status
            &&& w.quests[k].reward_amount == v.quests[k].reward_amount
            &&& w.quests[k].deadline == v.quests[k].deadline
            &&& w.escrows[k].balances.total_paid_out == v.escrows[k].balances.total_paid_out
                + v.quests[k].reward_amount
            &&& w.escrows[k].balances.total_deposited == v.escrows[k].balances.total_deposited
            &&& w.escrows[k].balances.total_refunded == v.escrows[k].balances.total_refunded
            &&& w.escrows[k].balances.is_active
            &&& other_quest != quest_id ==> w.quests.contains_key(key1(other_quest))
                == v.quests.contains_key(key1(other_quest)) && w.quests[key1(other_quest)]
                == v.quests[key1(other_quest)] && w.escrows.contains_key(key1(other_quest))
                == v.escrows.contains_key(key1(other_quest)) && w.escrows[key1(other_quest)]
                == v.escrows[key1(other_quest)]
            &&& other_submission != sk ==> w.submissions.contains_key(other_submission)
                == v.submissions.contains_key(other_submission) && w.submissions[other_submission]
                == v.submissions[other_submission]
        }),
{
    assert(v.escrows[key1(quest_id)].balances.consistent());
    if other_quest != quest_id {
        assert(key1(other_quest)[0] != key1(quest_id)[0]);
    }
}

/// A review moves exactly the reviewed submission to approved or rejected,
/// keeping its proof and time; every other submission stays as it was.
pub proof fn law_review_outcome(
    v: EnvView,
    quest_id: Seq<char>,
    submitter: Seq<char>,
    approve: bool,
    other: Seq<Seq<char>>,
)
    requires
        v.submissions.contains_key(key2(quest_id, submitter)),
    ensures
        ({
            let target = if approve {
                SubmissionStatus::Approved
            } else {
                SubmissionStatus::Rejected
            };
            let w = with_submission_status(v, quest_id, submitter, target);
            let sk = key2(quest_id, submitter);
            &&& w.submissions[sk].status == target
            &&& w.submissions[sk].proof_hash == v.submissions[sk].proof_hash
            &&& w.submissions[sk].timestamp == v.submissions[sk].timestamp
            &&& w.submissions[sk].submitter == v.submissions[sk].submitter
            &&& w.submissions.dom() == v.submissions.dom()
            &&& other != sk ==> w.submissions[other] == v.submissions[other]
            &&& w.quests == v.quests
            &&& w.escrows == v.escrows
        }),
{
    let sk = key2(quest_id, submitter);
    assert(v.submissions.insert(sk, v.submissions[sk]).dom() =~= v.submissions.dom());
}

/// Closing a quest moves it to the requested state and keeps its terms; no
/// other quest changes.
pub proof fn law_close_outcome(v: EnvView, quest_id: Seq<char>, target: QuestStatus, other: Seq<char>)
    requires
        v.quests.contains_key(key1(quest_id)),
    ensures
        ({
            let w = closed_state(v, quest_id, target);
            let k = key1(quest_id);
            &&& w.quests[k].status == target
            &&& w.quests[k].reward_amount == v.quests[k].reward_amount
            &&& w.quests[k].creator == v.quests[k].creator
            &&& w.quests[k].total_claims == v.quests[k].total_claims
            &&& other != quest_id ==> w.quests[key1(other)] == v.quests[key1(other)]
            &&& w.submissions == v.submissions
        }),
{
    if other != quest_id {
        assert(key1(other)[0] != key1(quest_id)[0]);
    }
}

/// A batch of one entry is judged as a single approval of that entry, apart
/// from the batch's own rule that the verifier may not approve itself.
pub proof fn law_single_entry_batch_is_an_approval(
    v: EnvView,
    verifier: Seq<char>,
    item: BatchApprovalInput,
)
    ensures
        item.submitter@ != verifier ==> batch_error(v, verifier, seq![item]) == review_error(
            v,
            item.quest_id@,
            item.submitter@,
            verifier,
            true,
        ),
        item.submitter@ == verifier ==> batch_error(v, verifier, seq![item]) == Some(
            Error::AddressesNotDistinct,
        ),
{
    let items = seq![item];
    assert(items[0] == item);
    assert(batch_prefix_error(v, verifier, items, 0) is None);
    assert(!(exists|j: int| 0 <= j < 0 && #[trigger] crate::submission::item_key(items[j])
        == crate::submission::item_key(item)));
}

} // verus!
