//! The contract's entry points.
//!
//! Every entry point either succeeds with the effect its contract states, or
//! returns an error and leaves the environment as it was. Checking who signed
//! a call is the host's task and happens before an entry point runs; moving
//! tokens is the token contract's task, and the entry points that need a
//! token movement return it as a `Transfer`.

use vstd::prelude::*;

use crate::dispute::{self, open_error, resolve_error, with_dispute_status};
use crate::errors::Error;
use crate::escrow::{
    self, close_error, closed_state, deposit_error, deposit_fits, deposited_record, paid_record,
    payout_error, refund_outcome, withdraw_error,
};
use crate::oracle::{
    aggregate_of, aggregation_error, aggregation_fits, config_valid, lemma_aggregate_confidence_bounded,
    lemma_aggregate_price_within_sources, price_answer, Oracle,
};
use crate::dispute::withdraw_error as dispute_withdraw_error;
use crate::storage::{self, badges_of, has_oracle, is_active_config, user_stats_of, zero_stats, Env, EnvView};
use crate::quest::{self, matching, page, QuestFilter};
use crate::submission::{
    self, approve_prefix, batch_error, bump, claim_error, review_error, submit_error,
    with_submission_status,
};
use crate::table::{key1, key2};
use crate::types::{
    AggregatedPrice, BatchApprovalInput, BatchQuestInput, Dispute, DisputeStatus, EscrowInfo, OracleConfig, PlatformStats, PriceData,
    PriceFeedRequest, Quest, QuestMetadata, QuestStatus, Submission, SubmissionStatus, Symbol,
    Transfer, Address, Badge, UserBadges, UserStats,
};
use crate::u256::limit_u128;
use crate::validation::{
    self, quest_transition_allowed, MAX_BADGES_PER_USER, MAX_BATCH_QUEST_REGISTRATION, MAX_SYMBOL_LENGTH,
};

verus! {

/// The most an oracle answer may be aged when a reward is converted or checked.
pub const CONVERSION_MAX_AGE_SECONDS: u64 = 300;

/// The smallest aggregate confidence that backs a reward amount.
pub const MIN_REWARD_CONFIDENCE: u32 = 80;

/// 10^7: prices carry seven decimals.
pub const PRICE_SCALE: u64 = 10_000_000;

/// Experience points a user earns for each claimed reward.
pub const CLAIM_XP: u64 = 100;

pub struct EarnQuestContract;

/// The first check that registering a quest fails, if any.
pub open spec fn register_error(
    v: EnvView,
    id: Seq<char>,
    creator: Seq<char>,
    reward_amount: i128,
    verifier: Seq<char>,
    deadline: u64,
) -> Option<Error> {
    if v.paused {
        Some(Error::ContractPaused)
    } else if !(0 < id.len() <= MAX_SYMBOL_LENGTH) {
        Some(Error::InvalidSymbol)
    } else if creator == verifier {
        Some(Error::AddressesNotDistinct)
    } else if reward_amount <= 0 {
        Some(Error::InvalidRewardAmount)
    } else if deadline <= v.now {
        Some(Error::InvalidDeadline)
    } else if v.quests.contains_key(key1(id)) {
        Some(Error::QuestAlreadyExists)
    } else {
        None
    }
}

/// The state after a new quest was registered.
pub open spec fn registered_state(v: EnvView, q: Quest) -> EnvView {
    EnvView {
        quests: v.quests.insert(key1(q.id@), q),
        quest_order: v.quest_order.push(key1(q.id@)),
        stats: PlatformStats {
            total_quests_created: bump(v.stats.total_quests_created),
            ..v.stats
        },
        ..v
    }
}

/// The first check that an administrator's change of a quest's status fails,
/// if any.
pub open spec fn admin_transition_error(
    v: EnvView,
    caller: Seq<char>,
    quest_id: Seq<char>,
    target: QuestStatus,
) -> Option<Error> {
    let k = key1(quest_id);
    if v.paused {
        Some(Error::ContractPaused)
    } else if !(v.admin matches Some(a) && a@ == caller) {
        Some(Error::Unauthorized)
    } else if !v.quests.contains_key(k) {
        Some(Error::QuestNotFound)
    } else if !quest_transition_allowed(v.quests[k].status, target) {
        Some(Error::InvalidStatusTransition)
    } else {
        None
    }
}

/// The first check that a reward claim fails, if any.
pub open spec fn claim_reward_error(v: EnvView, quest_id: Seq<char>, submitter: Seq<char>) -> Option<
    Error,
> {
    if v.paused {
        Some(Error::ContractPaused)
    } else {
        match claim_error(v, quest_id, submitter) {
            Some(e) => Some(e),
            None => match payout_error(v, quest_id, v.quests[key1(quest_id)].reward_amount) {
                Some(e) => Some(e),
                None => if user_stats_of(v, submitter).xp + CLAIM_XP > u64::MAX {
                    Some(Error::ArithmeticOverflow)
                } else {
                    None
                },
            },
        }
    }
}

/// A user's statistics after completing a quest: `CLAIM_XP` more experience
/// and one more completed quest.
pub open spec fn awarded_stats(s: UserStats) -> UserStats {
    UserStats {
        xp: (s.xp + CLAIM_XP) as u64,
        quests_completed: if s.quests_completed == u32::MAX {
            s.quests_completed
        } else {
            (s.quests_completed + 1) as u32
        },
        ..s
    }
}

/// The state after a reward was claimed: the submission is paid, the quest
/// counts one more claim, the reward is booked against the escrow, the
/// platform counts one more claimed reward, and the submitter earns
/// `CLAIM_XP` experience points.
pub open spec fn claimed_state(v: EnvView, quest_id: Seq<char>, submitter: Seq<char>) -> EnvView {
    let k = key1(quest_id);
    let sk = key2(quest_id, submitter);
    let q = v.quests[k];
    EnvView {
        submissions: v.submissions.insert(
            sk,
            Submission { status: SubmissionStatus::Paid, ..v.submissions[sk] },
        ),
        quests: v.quests.insert(k, Quest { total_claims: (q.total_claims + 1) as u32, ..q }),
        escrows: v.escrows.insert(k, paid_record(v.escrows[k], q.reward_amount)),
        stats: PlatformStats {
            total_rewards_claimed: bump(v.stats.total_rewards_claimed),
            ..v.stats
        },
        users: v.users.insert(key1(submitter), awarded_stats(user_stats_of(v, submitter))),
        ..v
    }
}

/// A paused contract refuses every change; otherwise the operation's own
/// first failing check decides.
pub open spec fn guarded(v: EnvView, e: Option<Error>) -> Option<Error> {
    if v.paused {
        Some(Error::ContractPaused)
    } else {
        e
    }
}

/// The first check that granting a badge fails, if any.
pub open spec fn grant_badge_error(v: EnvView, admin: Seq<char>, user: Seq<char>) -> Option<Error> {
    if v.paused {
        Some(Error::ContractPaused)
    } else if badges_of(v, user).len() >= MAX_BADGES_PER_USER {
        Some(Error::BadgeLimitReached)
    } else if !is_admin_of(v, admin) {
        Some(Error::Unauthorized)
    } else {
        None
    }
}

/// A badge collection after `b` was granted: a badge already held is not
/// added twice.
pub open spec fn with_badge(s: Seq<Badge>, b: Badge) -> Seq<Badge> {
    if s.contains(b) {
        s
    } else {
        s.push(b)
    }
}

/// The caller is the contract's administrator.
pub open spec fn is_admin_of(v: EnvView, caller: Seq<char>) -> bool {
    v.admin matches Some(a) && a@ == caller
}

/// The request for a price of `base` in `quote`.
pub open spec fn request_of(base: Address, quote: Address, max_age: u64) -> PriceFeedRequest {
    PriceFeedRequest { base_asset: base, quote_asset: quote, max_age_seconds: max_age }
}

/// The active oracle configurations.
pub open spec fn active_oracles(v: EnvView) -> Seq<OracleConfig> {
    v.oracles.filter(|c: OracleConfig| is_active_config(c))
}

/// An amount converted at a price with seven decimals.
pub open spec fn converted_amount(amount: i128, price: nat) -> int {
    ((amount as u128) as nat * price / (PRICE_SCALE as nat)) as int
}

impl EarnQuestContract {
    /// Sets up the contract with its administrator.
    pub fn initialize(env: &mut Env, admin: Address)
        requires
            old(env).wf(),
            old(env)@.admin is None,
        ensures
            final(env).wf(),
            final(env)@ == (EnvView { admin: Some(admin), ..old(env)@ }),
    {
        storage::set_admin(env, &admin);
    }

    /// The contract's administrator.
    pub fn get_admin(env: &Env) -> (r: Address)
        requires
            env@.admin is Some,
        ensures
            env@.admin == Some(r),
    {
        match storage::get_admin(env) {
            Some(a) => a,
            None => {
                proof {
                    assert(false);
                }
                String::new()
            },
        }
    }

    pub fn is_admin(env: &Env, address: Address) -> (r: bool)
        ensures
            r == is_admin_of(env@, address@),
    {
        storage::is_admin(env, &address)
    }

    fn require_not_paused(env: &Env) -> (r: Result<(), Error>)
        ensures
            r is Ok <==> !env@.paused,
            r matches Err(e) ==> e == Error::ContractPaused,
    {
        if storage::is_paused(env) {
            Err(Error::ContractPaused)
        } else {
            Ok(())
        }
    }

    fn require_admin(env: &Env, caller: &Address) -> (r: Result<(), Error>)
        ensures
            r is Ok <==> is_admin_of(env@, caller@),
            r matches Err(e) ==> e == Error::Unauthorized,
    {
        if storage::is_admin(env, caller) {
            Ok(())
        } else {
            Err(Error::Unauthorized)
        }
    }

    /// Registers a new, active quest with no claims yet.
    pub fn register_quest(
        env: &mut Env,
        id: Symbol,
        creator: Address,
        reward_asset: Address,
        reward_amount: i128,
        verifier: Address,
        deadline: u64,
    ) -> (r: Result<(), Error>)
        requires
            old(env).wf(),
        ensures
            final(env).wf(),
            register_error(old(env)@, id@, creator@, reward_amount, verifier@, deadline) matches Some(
                e,
            ) ==> r == Err::<(), Error>(e) && final(env)@ == old(env)@,
            register_error(old(env)@, id@, creator@, reward_amount, verifier@, deadline) is None
                ==> r is Ok && final(env)@ == registered_state(
                old(env)@,
                Quest {
                    id,
                    creator,
                    reward_asset,
                    reward_amount,
                    verifier,
                    deadline,
                    status: QuestStatus::Active,
                    total_claims: 0,
                },
            ),
    {
        Self::require_not_paused(env)?;
        validation::validate_symbol_length(&id)?;
        validation::validate_addresses_distinct(&creator, &verifier)?;
        validation::validate_reward_amount(reward_amount)?;
        validation::validate_deadline(env, deadline)?;
        if storage::has_quest(env, &id) {
            return Err(Error::QuestAlreadyExists);
        }
        let quest = Quest {
            id: id.clone(),
            creator,
            reward_asset,
            reward_amount,
            verifier,
            deadline,
            status: QuestStatus::Active,
            total_claims: 0,
        };
        storage::set_quest(env, &id, quest);
        let mut stats = storage::get_platform_stats(env);
        stats.total_quests_created = stats.total_quests_created.saturating_add(1);
        storage::set_platform_stats(env, &stats);
        Ok(())
    }

    /// Registers a new quest together with its descriptive metadata.
    pub fn register_quest_with_metadata(
        env: &mut Env,
        id: Symbol,
        creator: Address,
        reward_asset: Address,
        reward_amount: i128,
        verifier: Address,
        deadline: u64,
        metadata: QuestMetadata,
    ) -> (r: Result<(), Error>)
        requires
            old(env).wf(),
        ensures
            final(env).wf(),
            register_error(old(env)@, id@, creator@, reward_amount, verifier@, deadline) matches Some(
                e,
            ) ==> r == Err::<(), Error>(e) && final(env)@ == old(env)@,
            register_error(old(env)@, id@, creator@, reward_amount, verifier@, deadline) is None
                ==> r is Ok && final(env)@ == (EnvView {
                metadata: old(env)@.metadata.insert(key1(id@), metadata),
                ..registered_state(
                    old(env)@,
                    Quest {
                        id,
                        creator,
                        reward_asset,
                        reward_amount,
                        verifier,
                        deadline,
                        status: QuestStatus::Active,
                        total_claims: 0,
                    },
                )
            }),
    {
        let key = id.clone();
        Self::register_quest(env, id, creator, reward_asset, reward_amount, verifier, deadline)?;
        storage::set_quest_metadata(env, &key, metadata);
        Ok(())
    }

    fn set_quest_status(env: &mut Env, caller: &Address, quest_id: &Symbol, target: QuestStatus) -> (r:
        Result<(), Error>)
        requires
            old(env).wf(),
        ensures
            final(env).wf(),
            admin_transition_error(old(env)@, caller@, quest_id@, target) matches Some(e) ==> r
                == Err::<(), Error>(e) && final(env)@ == old(env)@,
            admin_transition_error(old(env)@, caller@, quest_id@, target) is None ==> r is Ok
                && final(env)@ == (EnvView {
                quests: old(env)@.quests.insert(
                    key1(quest_id@),
                    Quest { status: target, ..old(env)@.quests[key1(quest_id@)] },
                ),
                ..old(env)@
            }),
    {
        Self::require_not_paused(env)?;
        Self::require_admin(env, caller)?;
        let mut quest = storage::get_quest(env, quest_id)?;
        validation::validate_quest_status_transition(&quest.status, &target)?;
        proof {
            env.lemma_wf();
        }
        quest.status = target;
        storage::set_quest(env, quest_id, quest);
        Ok(())
    }

    /// Pause an individual quest (admin only).
    pub fn pause_quest(env: &mut Env, caller: Address, quest_id: Symbol) -> (r: Result<(), Error>)
        requires
            old(env).wf(),
        ensures
            final(env).wf(),
            admin_transition_error(old(env)@, caller@, quest_id@, QuestStatus::Paused) matches Some(
                e,
            ) ==> r == Err::<(), Error>(e) && final(env)@ == old(env)@,
            admin_transition_error(old(env)@, caller@, quest_id@, QuestStatus::Paused) is None ==> r
                is Ok && final(env)@ == (EnvView {
                quests: old(env)@.quests.insert(
                    key1(quest_id@),
                    Quest { status: QuestStatus::Paused, ..old(env)@.quests[key1(quest_id@)] },
                ),
                ..old(env)@
            }),
    {
        Self::set_quest_status(env, &caller, &quest_id, QuestStatus::Paused)
    }

    /// Resume an individual quest (admin only).
    pub fn resume_quest(env: &mut Env, caller: Address, quest_id: Symbol) -> (r: Result<(), Error>)
        requires
            old(env).wf(),
        ensures
            final(env).wf(),
            admin_transition_error(old(env)@, caller@, quest_id@, QuestStatus::Active) matches Some(
                e,
            ) ==> r == Err::<(), Error>(e) && final(env)@ == old(env)@,
            admin_transition_error(old(env)@, caller@, quest_id@, QuestStatus::Active) is None ==> r
                is Ok && final(env)@ == (EnvView {
                quests: old(env)@.quests.insert(
                    key1(quest_id@),
                    Quest { status: QuestStatus::Active, ..old(env)@.quests[key1(quest_id@)] },
                ),
                ..old(env)@
            }),
    {
        Self::set_quest_status(env, &caller, &quest_id, QuestStatus::Active)
    }

    /// Pays the reward of an approved submission out of the quest's escrow
    /// and awards the submitter `CLAIM_XP` experience points. Returns the
    /// transfer of the reward from the contract to the submitter.
    pub fn claim_reward(env: &mut Env, quest_id: Symbol, submitter: Address) -> (r: Result<
        Transfer,
        Error,
    >)
        requires
            old(env).wf(),
        ensures
            final(env).wf(),
            claim_reward_error(old(env)@, quest_id@, submitter@) matches Some(e) ==> r == Err::<
                Transfer,
                Error,
            >(e) && final(env)@ == old(env)@,
            claim_reward_error(old(env)@, quest_id@, submitter@) is None ==> {
                let q = old(env)@.quests[key1(quest_id@)];
                &&& r == Ok::<Transfer, Error>(
                    Transfer {
                        token: q.reward_asset,
                        from: old(env)@.contract,
                        to: submitter,
                        amount: q.reward_amount,
                    },
                )
                &&& final(env)@ == claimed_state(old(env)@, quest_id@, submitter@)
                &&& user_stats_of(final(env)@, submitter@).xp == user_stats_of(old(env)@, submitter@).xp
                    + CLAIM_XP
            },
    {
        Self::require_not_paused(env)?;
        let quest = storage::get_quest(env, &quest_id)?;
        let submission = storage::get_submission(env, &quest_id, &submitter)?;
        submission::validate_claim_data(&quest, &submission)?;
        escrow::validate_sufficient(env, &quest_id, quest.reward_amount)?;
        let user = storage::get_user_stats(env, &submitter);
        if user.xp > u64::MAX - CLAIM_XP {
            return Err(Error::ArithmeticOverflow);
        }
        proof {
            env.lemma_wf();
            assert(env@.quests.contains_key(key1(quest_id@)));
        }
        let mut submission = submission;
        submission.status = SubmissionStatus::Paid;
        storage::set_submission(env, &quest_id, &submitter, submission);
        let mut quest = quest;
        quest.total_claims = quest.total_claims + 1;
        let reward_asset = quest.reward_asset.clone();
        let reward_amount = quest.reward_amount;
        storage::set_quest(env, &quest_id, quest);
        let ghost mid = env@;
        let booked = escrow::record_payout(env, &quest_id, &submitter, reward_amount);
        proof {
            assert(payout_error(mid, quest_id@, reward_amount) is None);
        }
        if booked.is_err() {
            proof {
                assert(false);
            }
            return Err(Error::EscrowNotFound);
        }
        let mut stats = storage::get_platform_stats(env);
        stats.total_rewards_claimed = stats.total_rewards_claimed.saturating_add(1);
        storage::set_platform_stats(env, &stats);
        let awarded = UserStats {
            xp: user.xp + CLAIM_XP,
            quests_completed: user.quests_completed.saturating_add(1),
            ..user
        };
        storage::set_user_stats(env, &submitter, awarded);
        Ok(
            Transfer {
                token: reward_asset,
                from: env.current_contract_address(),
                to: submitter,
                amount: reward_amount,
            },
        )
    }

    /// The statistics of a user: experience points, level and completed
    /// quests (those of a new user where none are stored).
    pub fn get_user_stats(env: &Env, user: Address) -> (r: UserStats)
        requires
            env.wf(),
        ensures
            r == user_stats_of(env@, user@),
    {
        storage::get_user_stats(env, &user)
    }

    /// The badges a user holds, in the order they were granted.
    pub fn get_user_badges(env: &Env, user: Address) -> (r: UserBadges)
        requires
            env.wf(),
        ensures
            r.badges@ == badges_of(env@, user@),
    {
        storage::get_user_badges(env, &user)
    }

    /// The administrator grants a badge to a user.
    pub fn grant_badge(env: &mut Env, admin: Address, user: Address, badge: Badge) -> (r: Result<(), Error>)
        requires
            old(env).wf(),
        ensures
            final(env).wf(),
            grant_badge_error(old(env)@, admin@, user@) matches Some(e) ==> r == Err::<(), Error>(e)
                && final(env)@ == old(env)@,
            grant_badge_error(old(env)@, admin@, user@) is None ==> r is Ok && final(env)@ == (EnvView {
                badges: old(env)@.badges.insert(
                    key1(user@),
                    with_badge(badges_of(old(env)@, user@), badge),
                ),
                ..old(env)@
            }),
    {
        Self::require_not_paused(env)?;
        let held = storage::get_user_badges(env, &user);
        if held.badges.len() >= MAX_BADGES_PER_USER {
            return Err(Error::BadgeLimitReached);
        }
        Self::require_admin(env, &admin)?;
        let mut badges = held.badges;
        let mut found = false;
        let mut i: usize = 0;
        while i < badges.len()
            invariant
                i <= badges@.len(),
                found <==> exists|j: int| 0 <= j < i && badges@[j] == badge,
            decreases badges@.len() - i,
        {
            if badges[i] == badge {
                found = true;
            }
            i = i + 1;
        }
        if !found {
            badges.push(badge);
        }
        storage::set_user_badges(env, &user, badges);
        Ok(())
    }

    /// Stops every state-changing operation (admin only).
    pub fn emergency_pause(env: &mut Env, caller: Address) -> (r: Result<(), Error>)
        requires
            old(env).wf(),
        ensures
            final(env).wf(),
            !is_admin_of(old(env)@, caller@) ==> r == Err::<(), Error>(Error::Unauthorized)
                && final(env)@ == old(env)@,
            is_admin_of(old(env)@, caller@) ==> r is Ok && final(env)@ == (EnvView {
                paused: true,
                ..old(env)@
            }),
    {
        Self::require_admin(env, &caller)?;
        storage::set_paused(env, true);
        Ok(())
    }

    /// Lets state-changing operations run again (admin only).
    pub fn emergency_unpause(env: &mut Env, caller: Address) -> (r: Result<(), Error>)
        requires
            old(env).wf(),
        ensures
            final(env).wf(),
            !is_admin_of(old(env)@, caller@) ==> r == Err::<(), Error>(Error::Unauthorized)
                && final(env)@ == old(env)@,
            is_admin_of(old(env)@, caller@) ==> r is Ok && final(env)@ == (EnvView {
                paused: false,
                ..old(env)@
            }),
    {
        Self::require_admin(env, &caller)?;
        storage::set_paused(env, false);
        Ok(())
    }

    /// Resets every platform counter to zero (admin only).
    pub fn reset_platform_stats(env: &mut Env, caller: Address) -> (r: Result<(), Error>)
        requires
            old(env).wf(),
        ensures
            final(env).wf(),
            !is_admin_of(old(env)@, caller@) ==> r == Err::<(), Error>(Error::Unauthorized)
                && final(env)@ == old(env)@,
            is_admin_of(old(env)@, caller@) ==> r is Ok && final(env)@ == (EnvView {
                stats: zero_stats(),
                ..old(env)@
            }),
    {
        if !storage::is_admin(env, &caller) {
            return Err(Error::Unauthorized);
        }
        storage::set_platform_stats(
            env,
            &PlatformStats {
                total_quests_created: 0,
                total_submissions: 0,
                total_rewards_distributed: 0,
                total_active_users: 0,
                total_rewards_claimed: 0,
            },
        );
        Ok(())
    }

    pub fn get_platform_stats(env: &Env) -> (r: PlatformStats)
        ensures
            r == env@.stats,
    {
        storage::get_platform_stats(env)
    }

    // ── Oracle management ──

    /// Add a new oracle configuration (admin only)
    pub fn add_oracle(env: &mut Env, caller: Address, oracle_config: OracleConfig) -> (r: Result<
        (),
        Error,
    >)
        requires
            old(env).wf(),
        ensures
            final(env).wf(),
            old(env)@.paused ==> r == Err::<(), Error>(Error::ContractPaused) && final(env)@ == old(env)@,
            !old(env)@.paused && !is_admin_of(old(env)@, caller@) ==> r == Err::<(), Error>(Error::Unauthorized)
                && final(env)@ == old(env)@,
            !old(env)@.paused && is_admin_of(old(env)@, caller@) && !config_valid(oracle_config) ==> r == Err::<
                (),
                Error,
            >(Error::InvalidOracleConfiguration) && final(env)@ == old(env)@,
            !old(env)@.paused && is_admin_of(old(env)@, caller@) && config_valid(oracle_config) && has_oracle(
                old(env)@.oracles,
                oracle_config.oracle_address@,
            ) ==> r == Err::<(), Error>(Error::OracleAlreadyExists) && final(env)@ == old(env)@,
            !old(env)@.paused && is_admin_of(old(env)@, caller@) && config_valid(oracle_config) && !has_oracle(
                old(env)@.oracles,
                oracle_config.oracle_address@,
            ) ==> r is Ok && final(env)@ == (EnvView {
                oracles: old(env)@.oracles.push(oracle_config),
                ..old(env)@
            }),
    {
        Self::require_not_paused(env)?;
        Self::require_admin(env, &caller)?;
        Oracle::validate_config(&oracle_config)?;
        storage::add_oracle_config(env, &oracle_config)?;
        Ok(())
    }

    /// Remove an oracle configuration (admin only)
    pub fn remove_oracle(env: &mut Env, caller: Address, oracle_address: Address) -> (r: Result<
        (),
        Error,
    >)
        requires
            old(env).wf(),
        ensures
            final(env).wf(),
            old(env)@.paused ==> r == Err::<(), Error>(Error::ContractPaused) && final(env)@ == old(env)@,
            !old(env)@.paused && !is_admin_of(old(env)@, caller@) ==> r == Err::<(), Error>(Error::Unauthorized)
                && final(env)@ == old(env)@,
            !old(env)@.paused && is_admin_of(old(env)@, caller@) && !has_oracle(old(env)@.oracles, oracle_address@) ==> r
                == Err::<(), Error>(Error::OracleNotFound) && final(env)@ == old(env)@,
            !old(env)@.paused && is_admin_of(old(env)@, caller@) && has_oracle(old(env)@.oracles, oracle_address@) ==> r
                is Ok && exists|i: int|
                0 <= i < old(env)@.oracles.len() && old(env)@.oracles[i].oracle_address@
                    == oracle_address@ && final(env)@ == (EnvView {
                    oracles: old(env)@.oracles.remove(i),
                    ..old(env)@
                }),
    {
        Self::require_not_paused(env)?;
        Self::require_admin(env, &caller)?;
        storage::remove_oracle_config(env, &oracle_address)?;
        Ok(())
    }

    /// Update oracle configuration (admin only)
    pub fn update_oracle(env: &mut Env, caller: Address, oracle_config: OracleConfig) -> (r: Result<
        (),
        Error,
    >)
        requires
            old(env).wf(),
        ensures
            final(env).wf(),
            old(env)@.paused ==> r == Err::<(), Error>(Error::ContractPaused) && final(env)@ == old(env)@,
            !old(env)@.paused && !is_admin_of(old(env)@, caller@) ==> r == Err::<(), Error>(Error::Unauthorized)
                && final(env)@ == old(env)@,
            !old(env)@.paused && is_admin_of(old(env)@, caller@) && !config_valid(oracle_config) ==> r == Err::<
                (),
                Error,
            >(Error::InvalidOracleConfiguration) && final(env)@ == old(env)@,
            !old(env)@.paused && is_admin_of(old(env)@, caller@) && config_valid(oracle_config) && !has_oracle(
                old(env)@.oracles,
                oracle_config.oracle_address@,
            ) ==> r == Err::<(), Error>(Error::OracleNotFound) && final(env)@ == old(env)@,
            !old(env)@.paused && is_admin_of(old(env)@, caller@) && config_valid(oracle_config) && has_oracle(
                old(env)@.oracles,
                oracle_config.oracle_address@,
            ) ==> r is Ok && exists|i: int|
                0 <= i < old(env)@.oracles.len() && old(env)@.oracles[i].oracle_address@
                    == oracle_config.oracle_address@ && final(env)@ == (EnvView {
                    oracles: old(env)@.oracles.update(i, oracle_config),
                    ..old(env)@
                }),
    {
        Self::require_not_paused(env)?;
        Self::require_admin(env, &caller)?;
        Oracle::validate_config(&oracle_config)?;
        storage::update_oracle_config(env, &oracle_config)?;
        Ok(())
    }

    /// Get all oracle configurations
    pub fn get_oracle_configs(env: &Env) -> (r: Vec<OracleConfig>)
        ensures
            r@ == env@.oracles,
    {
        storage::get_all_oracle_configs(env)
    }

    /// Get active oracle configurations
    pub fn get_active_oracle_configs(env: &Env) -> (r: Vec<OracleConfig>)
        ensures
            r@ == active_oracles(env@),
    {
        storage::get_active_oracle_configs(env)
    }

    /// Get price from all active oracles (aggregated)
    pub fn get_price(env: &Env, base_asset: Address, quote_asset: Address, max_age_seconds: u64) -> (r:
        Result<AggregatedPrice, Error>)
        requires
            aggregation_fits(active_oracles(env@)),
        ensures
            aggregation_error(active_oracles(env@)) matches Some(e) ==> r == Err::<
                AggregatedPrice,
                Error,
            >(e),
            aggregation_error(active_oracles(env@)) is None ==> (r matches Ok(a) && aggregate_of(
                env@.now,
                active_oracles(env@),
                request_of(base_asset, quote_asset, max_age_seconds),
                a,
            )),
    {
        let oracle_configs = storage::get_active_oracle_configs(env);
        let request = PriceFeedRequest { base_asset, quote_asset, max_age_seconds };
        Oracle::get_aggregated_price(env, &oracle_configs, &request)
    }

    /// Get price from a specific oracle
    pub fn get_price_from_oracle(
        env: &Env,
        oracle_address: Address,
        base_asset: Address,
        quote_asset: Address,
        max_age_seconds: u64,
    ) -> (r: Result<PriceData, Error>)
        requires
            env.wf(),
        ensures
            !has_oracle(env@.oracles, oracle_address@) ==> r == Err::<PriceData, Error>(
                Error::OracleNotFound,
            ),
            has_oracle(env@.oracles, oracle_address@) ==> exists|i: int|
                0 <= i < env@.oracles.len() && env@.oracles[i].oracle_address@ == oracle_address@
                    && (if env@.oracles[i].is_active {
                    r matches Ok(pd) && price_answer(
                        env@.now,
                        env@.oracles[i],
                        request_of(base_asset, quote_asset, max_age_seconds),
                        pd,
                    )
                } else {
                    r == Err::<PriceData, Error>(Error::OracleInactive)
                }),
    {
        let oracle_config = storage::get_oracle_config(env, &oracle_address)?;
        let request = PriceFeedRequest { base_asset, quote_asset, max_age_seconds };
        Oracle::get_price(env, &oracle_config, &request)
    }

    /// Converts an amount of `from_asset` into `to_asset` at the aggregated
    /// oracle price, which carries seven decimals. The amount is read as an
    /// unsigned 128-bit number.
    #[verifier::spinoff_prover]
    pub fn convert_reward_amount(env: &Env, from_asset: Address, to_asset: Address, amount: i128) -> (r:
        Result<i128, Error>)
        requires
            from_asset@ != to_asset@ ==> aggregation_fits(active_oracles(env@)),
        ensures
            from_asset@ == to_asset@ ==> r == Ok::<i128, Error>(amount),
            from_asset@ != to_asset@ ==> {
                let s = active_oracles(env@);
                &&& aggregation_error(s) matches Some(e) ==> r == Err::<i128, Error>(e)
                &&& aggregation_error(s) is None ==> r == Ok::<i128, Error>(
                    converted_amount(amount, accepted_weighted_price_of(s)) as i128,
                )
            },
    {
        if from_asset == to_asset {
            return Ok(amount);
        }
        let price = Self::get_price(env, from_asset, to_asset, CONVERSION_MAX_AGE_SECONDS)?;
        proof {
            lemma_aggregate_price_within_sources(active_oracles(env@));
        }
        let wp = &price.weighted_price;
        let amount_u128 = amount as u128;
        proof {
            assert(wp@ * amount_u128 < crate::u256::limit_u256()) by (nonlinear_arith)
                requires
                    wp@ <= 1050,
                    amount_u128 < limit_u128(),
            ;
        }
        let product = wp.mul_u128(amount_u128);
        let converted = product.div_u64(PRICE_SCALE);
        proof {
            assert(converted@ < 0x8000_0000_0000_0000_0000_0000_0000_0000) by (nonlinear_arith)
                requires
                    converted@ == product@ / (PRICE_SCALE as nat),
                    product@ == wp@ * amount_u128,
                    wp@ <= 1050,
                    amount_u128 < limit_u128(),
            {
                vstd::arithmetic::div_mod::lemma_div_is_ordered(
                    product@ as int,
                    1050 * limit_u128() as int,
                    PRICE_SCALE as int,
                );
            }
        }
        proof {
            assert(wp@ == accepted_weighted_price_of(active_oracles(env@)));
            assert(amount_u128 as nat == (amount as u128) as nat);
            assert(converted@ as int == converted_amount(amount, wp@));
        }
        match converted.to_u128() {
            Some(v) => Ok(v as i128),
            None => Err(Error::ConversionOverflow),
        }
    }

    /// Checks a reward against the aggregated oracle price: the aggregate must
    /// be confident enough.
    pub fn validate_reward_amount_with_oracle(
        env: &Env,
        reward_asset: Address,
        reward_amount: i128,
        reference_asset: Address,
        max_deviation_percent: u32,
    ) -> (r: Result<(), Error>)
        requires
            aggregation_fits(active_oracles(env@)),
        ensures
            aggregation_error(active_oracles(env@)) matches Some(e) ==> r == Err::<(), Error>(e),
            aggregation_error(active_oracles(env@)) is None ==> r is Ok,
    {
        let price = Self::get_price(env, reward_asset, reference_asset, CONVERSION_MAX_AGE_SECONDS)?;
        proof {
            lemma_aggregate_confidence_bounded(active_oracles(env@));
        }
        if price.confidence_score < MIN_REWARD_CONFIDENCE {
            return Err(Error::InsufficientOracleConfidence);
        }
        Ok(())
    }
}

/// The aggregated price of these oracles, before rounding is undone.
pub open spec fn accepted_weighted_price_of(s: Seq<OracleConfig>) -> nat {
    crate::oracle::accepted_weighted_price(s) / crate::oracle::accepted_weight(s)
}

impl EarnQuestContract {
    /// Submit proof with input validation
    pub fn submit_proof(env: &mut Env, quest_id: Symbol, submitter: Address, proof_hash: [u8; 32]) -> (r:
        Result<(), Error>)
        requires
            old(env).wf(),
        ensures
            final(env).wf(),
            guarded(old(env)@, submit_error(old(env)@, quest_id@)) matches Some(e) ==> r == Err::<(), Error>(e)
                && final(env)@ == old(env)@,
            guarded(old(env)@, submit_error(old(env)@, quest_id@)) is None ==> r is Ok && final(env)@ == (EnvView {
                submissions: old(env)@.submissions.insert(
                    key2(quest_id@, submitter@),
                    Submission {
                        quest_id,
                        submitter,
                        proof_hash,
                        status: SubmissionStatus::Pending,
                        timestamp: old(env)@.now,
                    },
                ),
                stats: PlatformStats {
                    total_submissions: bump(old(env)@.stats.total_submissions),
                    ..old(env)@.stats
                },
                ..old(env)@
            }),
    {
        Self::require_not_paused(&*env)?;
        submission::submit_proof(env, &quest_id, &submitter, &proof_hash)
    }

    pub fn approve_submission(env: &mut Env, quest_id: Symbol, submitter: Address, verifier: Address) -> (r:
        Result<(), Error>)
        requires
            old(env).wf(),
        ensures
            final(env).wf(),
            guarded(old(env)@, review_error(old(env)@, quest_id@, submitter@, verifier@, true)) matches Some(e) ==> r
                == Err::<(), Error>(e) && final(env)@ == old(env)@,
            guarded(old(env)@, review_error(old(env)@, quest_id@, submitter@, verifier@, true)) is None ==> r is Ok
                && final(env)@ == with_submission_status(
                old(env)@,
                quest_id@,
                submitter@,
                SubmissionStatus::Approved,
            ),
    {
        Self::require_not_paused(&*env)?;
        submission::approve_submission(env, &quest_id, &submitter, &verifier)
    }

    pub fn reject_submission(env: &mut Env, quest_id: Symbol, submitter: Address, verifier: Address) -> (r:
        Result<(), Error>)
        requires
            old(env).wf(),
        ensures
            final(env).wf(),
            guarded(old(env)@, review_error(old(env)@, quest_id@, submitter@, verifier@, false)) matches Some(e) ==> r
                == Err::<(), Error>(e) && final(env)@ == old(env)@,
            guarded(old(env)@, review_error(old(env)@, quest_id@, submitter@, verifier@, false)) is None ==> r is Ok
                && final(env)@ == with_submission_status(
                old(env)@,
                quest_id@,
                submitter@,
                SubmissionStatus::Rejected,
            ),
    {
        Self::require_not_paused(&*env)?;
        submission::reject_submission(env, &quest_id, &submitter, &verifier)
    }

    pub fn approve_submissions_batch(
        env: &mut Env,
        verifier: Address,
        submissions: Vec<BatchApprovalInput>,
    ) -> (r: Result<(), Error>)
        requires
            old(env).wf(),
        ensures
            final(env).wf(),
            guarded(old(env)@, batch_error(old(env)@, verifier@, submissions@)) matches Some(e) ==> r == Err::<(), Error>(
                e,
            ) && final(env)@ == old(env)@,
            guarded(old(env)@, batch_error(old(env)@, verifier@, submissions@)) is None ==> r is Ok && final(env)@ == (
            EnvView {
                submissions: approve_prefix(
                    old(env)@.submissions,
                    submissions@,
                    submissions@.len(),
                ),
                ..old(env)@
            }),
    {
        Self::require_not_paused(&*env)?;
        submission::approve_submissions_batch(env, &verifier, &submissions)
    }

    // ── Dispute resolution ──

    /// Open a dispute for a rejected submission.
    ///
    /// Only the submitter can open a dispute. They must have a submission
    /// on this quest that was previously rejected. The dispute is assigned
    /// to an arbitrator (could be the verifier or a designated third party).
    ///
    /// Returns the created Dispute record.
    pub fn open_dispute(env: &mut Env, quest_id: Symbol, initiator: Address, arbitrator: Address) -> (r:
        Result<Dispute, Error>)
        requires
            old(env).wf(),
        ensures
            final(env).wf(),
            guarded(old(env)@, open_error(old(env)@, quest_id@, initiator@)) matches Some(e) ==> r == Err::<
                Dispute,
                Error,
            >(e) && final(env)@ == old(env)@,
            guarded(old(env)@, open_error(old(env)@, quest_id@, initiator@)) is None ==> {
                let d = Dispute {
                    quest_id,
                    initiator,
                    arbitrator,
                    status: DisputeStatus::Pending,
                    filed_at: old(env)@.now,
                };
                &&& r == Ok::<Dispute, Error>(d)
                &&& final(env)@ == (EnvView {
                    disputes: old(env)@.disputes.insert(key2(quest_id@, initiator@), d),
                    ..old(env)@
                })
            },
    {
        Self::require_not_paused(&*env)?;
        dispute::open_dispute(env, quest_id, initiator, arbitrator)
    }

    /// Resolve an open dispute. Only the assigned arbitrator can resolve.
    pub fn resolve_dispute(env: &mut Env, quest_id: Symbol, initiator: Address, arbitrator: Address) -> (r:
        Result<(), Error>)
        requires
            old(env).wf(),
        ensures
            final(env).wf(),
            guarded(old(env)@, resolve_error(old(env)@, quest_id@, initiator@, arbitrator@)) matches Some(e) ==> r
                == Err::<(), Error>(e) && final(env)@ == old(env)@,
            guarded(old(env)@, resolve_error(old(env)@, quest_id@, initiator@, arbitrator@)) is None ==> r is Ok
                && final(env)@ == with_dispute_status(
                old(env)@,
                quest_id@,
                initiator@,
                DisputeStatus::Resolved,
            ),
    {
        Self::require_not_paused(&*env)?;
        dispute::resolve_dispute(env, quest_id, initiator, arbitrator)
    }

    /// Withdraw a pending dispute (only by initiator).
    pub fn withdraw_dispute(env: &mut Env, quest_id: Symbol, initiator: Address) -> (r: Result<
        (),
        Error,
    >)
        requires
            old(env).wf(),
        ensures
            final(env).wf(),
            guarded(old(env)@, dispute_withdraw_error(old(env)@, quest_id@, initiator@)) matches Some(e) ==> r
                == Err::<(), Error>(e) && final(env)@ == old(env)@,
            guarded(old(env)@, dispute_withdraw_error(old(env)@, quest_id@, initiator@)) is None ==> r is Ok
                && final(env)@ == with_dispute_status(
                old(env)@,
                quest_id@,
                initiator@,
                DisputeStatus::Withdrawn,
            ),
    {
        Self::require_not_paused(&*env)?;
        dispute::withdraw_dispute(env, quest_id, initiator)
    }

    /// Get dispute details.
    pub fn get_dispute(env: &Env, quest_id: Symbol, initiator: Address) -> (r: Result<Dispute, Error>)
        requires
            env.wf(),
        ensures
            r == (if env@.disputes.contains_key(key2(quest_id@, initiator@)) {
                Ok::<Dispute, Error>(env@.disputes[key2(quest_id@, initiator@)])
            } else {
                Err(Error::DisputeNotFound)
            }),
    {
        dispute::get_dispute(env, quest_id, initiator)
    }

    // ── Escrow ──

    pub fn deposit_escrow(env: &mut Env, quest_id: Symbol, depositor: Address, token: Address, amount: i128) -> (r:
        Result<Transfer, Error>)
        requires
            old(env).wf(),
            guarded(old(env)@, deposit_error(old(env)@, quest_id@, depositor@, token@, amount)) is None
                ==> deposit_fits(old(env)@, quest_id@, amount),
        ensures
            final(env).wf(),
            guarded(old(env)@, deposit_error(old(env)@, quest_id@, depositor@, token@, amount)) matches Some(e) ==> r
                == Err::<Transfer, Error>(e) && final(env)@ == old(env)@,
            guarded(old(env)@, deposit_error(old(env)@, quest_id@, depositor@, token@, amount)) is None ==> {
                &&& r == Ok::<Transfer, Error>(
                    Transfer { token, from: depositor, to: old(env)@.contract, amount },
                )
                &&& final(env)@ == (EnvView {
                    escrows: old(env)@.escrows.insert(
                        key1(quest_id@),
                        deposited_record(old(env)@, quest_id@, depositor, token, amount),
                    ),
                    ..old(env)@
                })
            },
    {
        Self::require_not_paused(&*env)?;
        escrow::deposit(env, &quest_id, &depositor, &token, amount)
    }

    pub fn cancel_quest(env: &mut Env, quest_id: Symbol, creator: Address) -> (r: Result<
        (i128, Option<Transfer>),
        Error,
    >)
        requires
            old(env).wf(),
        ensures
            final(env).wf(),
            guarded(old(env)@, close_error(old(env)@, quest_id@, creator@, QuestStatus::Cancelled)) matches Some(e) ==> r
                == Err::<(i128, Option<Transfer>), Error>(e) && final(env)@ == old(env)@,
            guarded(old(env)@, close_error(old(env)@, quest_id@, creator@, QuestStatus::Cancelled)) is None ==> {
                let o = refund_outcome(old(env)@, quest_id@);
                &&& r == Ok::<(i128, Option<Transfer>), Error>((o.1, o.2))
                &&& final(env)@ == closed_state(old(env)@, quest_id@, QuestStatus::Cancelled)
            },
    {
        Self::require_not_paused(&*env)?;
        escrow::cancel_quest(env, &quest_id, &creator)
    }

    pub fn withdraw_unclaimed(env: &mut Env, quest_id: Symbol, creator: Address) -> (r: Result<
        (i128, Option<Transfer>),
        Error,
    >)
        requires
            old(env).wf(),
        ensures
            final(env).wf(),
            guarded(old(env)@, withdraw_error(old(env)@, quest_id@, creator@)) matches Some(e) ==> r == Err::<
                (i128, Option<Transfer>),
                Error,
            >(e) && final(env)@ == old(env)@,
            guarded(old(env)@, withdraw_error(old(env)@, quest_id@, creator@)) is None ==> {
                let o = refund_outcome(old(env)@, quest_id@);
                &&& r == Ok::<(i128, Option<Transfer>), Error>((o.1, o.2))
                &&& final(env)@ == (EnvView { escrows: o.0, ..old(env)@ })
            },
    {
        Self::require_not_paused(&*env)?;
        escrow::withdraw_unclaimed(env, &quest_id, &creator)
    }

    pub fn expire_quest(env: &mut Env, quest_id: Symbol, creator: Address) -> (r: Result<
        (i128, Option<Transfer>),
        Error,
    >)
        requires
            old(env).wf(),
        ensures
            final(env).wf(),
            guarded(old(env)@, close_error(old(env)@, quest_id@, creator@, QuestStatus::Expired)) matches Some(e) ==> r
                == Err::<(i128, Option<Transfer>), Error>(e) && final(env)@ == old(env)@,
            guarded(old(env)@, close_error(old(env)@, quest_id@, creator@, QuestStatus::Expired)) is None ==> {
                let o = refund_outcome(old(env)@, quest_id@);
                &&& r == Ok::<(i128, Option<Transfer>), Error>((o.1, o.2))
                &&& final(env)@ == closed_state(old(env)@, quest_id@, QuestStatus::Expired)
            },
    {
        Self::require_not_paused(&*env)?;
        escrow::expire_quest(env, &quest_id, &creator)
    }

    pub fn get_escrow_balance(env: &Env, quest_id: Symbol) -> (r: Result<i128, Error>)
        requires
            env.wf(),
        ensures
            r == (if env@.escrows.contains_key(key1(quest_id@)) {
                Ok::<i128, Error>(env@.escrows[key1(quest_id@)].balances.available() as i128)
            } else {
                Err(Error::EscrowNotFound)
            }),
    {
        escrow::get_balance(env, &quest_id)
    }

    pub fn get_escrow_info(env: &Env, quest_id: Symbol) -> (r: Result<EscrowInfo, Error>)
        requires
            env.wf(),
        ensures
            r == (if env@.escrows.contains_key(key1(quest_id@)) {
                Ok::<EscrowInfo, Error>(
                    storage::escrow_info_of(quest_id, env@.escrows[key1(quest_id@)]),
                )
            } else {
                Err(Error::EscrowNotFound)
            }),
    {
        escrow::get_info(env, &quest_id)
    }

    // ── Quests and metadata ──

    /// Query quest details by ID.
    pub fn get_quest(env: &Env, quest_id: Symbol) -> (r: Result<Quest, Error>)
        requires
            env.wf(),
        ensures
            r == (if env@.quests.contains_key(key1(quest_id@)) {
                Ok::<Quest, Error>(env@.quests[key1(quest_id@)])
            } else {
                Err(Error::QuestNotFound)
            }),
    {
        storage::get_quest(env, &quest_id)
    }

    /// Query submission details for a user.
    pub fn get_submission(env: &Env, quest_id: Symbol, submitter: Address) -> (r: Result<
        Submission,
        Error,
    >)
        requires
            env.wf(),
        ensures
            r == (if env@.submissions.contains_key(key2(quest_id@, submitter@)) {
                Ok::<Submission, Error>(env@.submissions[key2(quest_id@, submitter@)])
            } else {
                Err(Error::SubmissionNotFound)
            }),
    {
        storage::get_submission(env, &quest_id, &submitter)
    }

    /// The quest's creator replaces the quest's metadata.
    pub fn update_quest_metadata(env: &mut Env, quest_id: Symbol, updater: Address, metadata: QuestMetadata) -> (r:
        Result<(), Error>)
        requires
            old(env).wf(),
        ensures
            final(env).wf(),
            old(env)@.paused ==> r == Err::<(), Error>(Error::ContractPaused) && final(env)@ == old(env)@,
            !old(env)@.paused && !old(env)@.quests.contains_key(key1(quest_id@)) ==> r == Err::<(), Error>(
                Error::QuestNotFound,
            ) && final(env)@ == old(env)@,
            !old(env)@.paused && old(env)@.quests.contains_key(key1(quest_id@)) && updater@ != old(env)@.quests[key1(
                quest_id@,
            )].creator@ ==> r == Err::<(), Error>(Error::Unauthorized) && final(env)@ == old(env)@,
            !old(env)@.paused && old(env)@.quests.contains_key(key1(quest_id@)) && updater@ == old(env)@.quests[key1(
                quest_id@,
            )].creator@ ==> r is Ok && final(env)@ == (EnvView {
                metadata: old(env)@.metadata.insert(key1(quest_id@), metadata),
                ..old(env)@
            }),
    {
        Self::require_not_paused(env)?;
        let quest = storage::get_quest(env, &quest_id)?;
        if updater != quest.creator {
            return Err(Error::Unauthorized);
        }
        storage::set_quest_metadata(env, &quest_id, metadata);
        Ok(())
    }

    pub fn get_quest_metadata(env: &Env, quest_id: Symbol) -> (r: Result<QuestMetadata, Error>)
        requires
            env.wf(),
        ensures
            r is Ok <==> env@.metadata.contains_key(key1(quest_id@)),
            r matches Ok(m) ==> {
                let s = env@.metadata[key1(quest_id@)];
                &&& m.title == s.title
                &&& m.description == s.description
                &&& m.requirements@ == s.requirements@
                &&& m.category == s.category
                &&& m.tags@ == s.tags@
            },
            r matches Err(e) ==> e == Error::MetadataNotFound,
    {
        storage::get_quest_metadata(env, &quest_id)
    }

    pub fn has_quest_metadata(env: &Env, quest_id: Symbol) -> (r: bool)
        requires
            env.wf(),
        ensures
            r == env@.metadata.contains_key(key1(quest_id@)),
    {
        storage::has_quest_metadata(env, &quest_id)
    }

    // ── Quest queries ──

    pub fn get_quests_by_status(env: &Env, status: QuestStatus, offset: u32, limit: u32) -> (r: Vec<
        Quest,
    >)
        requires
            env.wf(),
        ensures
            r@ == page(matching(env@, QuestFilter::ByStatus(status)), offset as nat, limit as nat),
    {
        quest::select_quests(env, &QuestFilter::ByStatus(status), offset, limit)
    }

    pub fn get_quests_by_creator(env: &Env, creator: Address, offset: u32, limit: u32) -> (r: Vec<
        Quest,
    >)
        requires
            env.wf(),
        ensures
            r@ == page(matching(env@, QuestFilter::ByCreator(creator)), offset as nat, limit as nat),
    {
        quest::select_quests(env, &QuestFilter::ByCreator(creator), offset, limit)
    }

    pub fn get_active_quests(env: &Env, offset: u32, limit: u32) -> (r: Vec<Quest>)
        requires
            env.wf(),
        ensures
            r@ == page(
                matching(env@, QuestFilter::ByStatus(QuestStatus::Active)),
                offset as nat,
                limit as nat,
            ),
    {
        quest::select_quests(env, &QuestFilter::ByStatus(QuestStatus::Active), offset, limit)
    }

    /// The quests whose reward lies between `min_reward` and `max_reward`,
    /// both included.
    pub fn get_quests_by_reward_range(
        env: &Env,
        min_reward: i128,
        max_reward: i128,
        offset: u32,
        limit: u32,
    ) -> (r: Vec<Quest>)
        requires
            env.wf(),
        ensures
            r@ == page(
                matching(env@, QuestFilter::ByRewardRange(min_reward, max_reward)),
                offset as nat,
                limit as nat,
            ),
    {
        quest::select_quests(env, &QuestFilter::ByRewardRange(min_reward, max_reward), offset, limit)
    }
}

/// The quest that entry `i` of a batch registration describes.
pub open spec fn batch_quest(creator: Address, items: Seq<BatchQuestInput>, i: int) -> Quest {
    Quest {
        id: items[i].id,
        creator,
        reward_asset: items[i].reward_asset,
        reward_amount: items[i].reward_amount,
        verifier: items[i].verifier,
        deadline: items[i].deadline,
        status: QuestStatus::Active,
        total_claims: 0,
    }
}

/// The check that registering entry `i` of a batch fails, if any, once the
/// entries before it were registered.
pub open spec fn quest_batch_item_error(
    v: EnvView,
    creator: Seq<char>,
    items: Seq<BatchQuestInput>,
    i: int,
) -> Option<Error> {
    let it = items[i];
    if !(0 < it.id@.len() <= MAX_SYMBOL_LENGTH) {
        Some(Error::InvalidSymbol)
    } else if creator == it.verifier@ {
        Some(Error::AddressesNotDistinct)
    } else if it.reward_amount <= 0 {
        Some(Error::InvalidRewardAmount)
    } else if it.deadline <= v.now {
        Some(Error::InvalidDeadline)
    } else if v.quests.contains_key(key1(it.id@)) || exists|j: int|
        0 <= j < i && (#[trigger] items[j]).id@ == it.id@ {
        Some(Error::QuestAlreadyExists)
    } else {
        None
    }
}

/// The first failing entry among the first `n` of a batch registration, if any.
pub open spec fn quest_batch_prefix_error(
    v: EnvView,
    creator: Seq<char>,
    items: Seq<BatchQuestInput>,
    n: nat,
) -> Option<Error>
    decreases n,
{
    if n == 0 {
        None
    } else {
        match quest_batch_prefix_error(v, creator, items, (n - 1) as nat) {
            Some(e) => Some(e),
            None => quest_batch_item_error(v, creator, items, n - 1),
        }
    }
}

/// The first check that a batch registration fails, if any.
pub open spec fn quest_batch_error(v: EnvView, creator: Seq<char>, items: Seq<BatchQuestInput>) -> Option<
    Error,
> {
    if v.paused {
        Some(Error::ContractPaused)
    } else if !(0 < items.len() <= MAX_BATCH_QUEST_REGISTRATION) {
        Some(Error::InvalidBatchSize)
    } else {
        quest_batch_prefix_error(v, creator, items, items.len())
    }
}

/// The state after the first `n` entries of a batch were registered, in order.
pub open spec fn registered_prefix(
    v: EnvView,
    creator: Address,
    items: Seq<BatchQuestInput>,
    n: nat,
) -> EnvView
    decreases n,
{
    if n == 0 {
        v
    } else {
        registered_state(
            registered_prefix(v, creator, items, (n - 1) as nat),
            batch_quest(creator, items, n - 1),
        )
    }
}

proof fn lemma_registered_prefix(v: EnvView, creator: Address, items: Seq<BatchQuestInput>, n: nat)
    requires
        n <= items.len(),
    ensures
        ({
            let w = registered_prefix(v, creator, items, n);
            &&& w.now == v.now
            &&& forall|k: Seq<Seq<char>>|
                #[trigger] w.quests.contains_key(k) <==> v.quests.contains_key(k) || exists|j: int|
                    0 <= j < n && key1((#[trigger] items[j]).id@) == k
        }),
    decreases n,
{
    if n > 0 {
        lemma_registered_prefix(v, creator, items, (n - 1) as nat);
        let w = registered_prefix(v, creator, items, n);
        assert forall|k: Seq<Seq<char>>|
            #[trigger] w.quests.contains_key(k) <==> v.quests.contains_key(k) || exists|j: int|
                0 <= j < n && key1((#[trigger] items[j]).id@) == k by {
            if w.quests.contains_key(k) && !v.quests.contains_key(k) {
                if k == key1(items[n - 1].id@) {
                } else {
                    let w0 = registered_prefix(v, creator, items, (n - 1) as nat);
                    assert(w0.quests.contains_key(k));
                    let j = choose|j: int| 0 <= j < n - 1 && key1((#[trigger] items[j]).id@) == k;
                    assert(0 <= j < n && key1(items[j].id@) == k);
                }
            }
            if exists|j: int| 0 <= j < n && key1((#[trigger] items[j]).id@) == k {
                let j = choose|j: int| 0 <= j < n && key1((#[trigger] items[j]).id@) == k;
                if j < n - 1 {
                    assert(exists|j2: int| 0 <= j2 < n - 1 && key1((#[trigger] items[j2]).id@) == k);
                }
            }
        }
    }
}

proof fn lemma_quest_batch_step(v: EnvView, creator: Seq<char>, items: Seq<BatchQuestInput>, i: nat)
    requires
        i < items.len(),
        quest_batch_prefix_error(v, creator, items, i) is None,
    ensures
        quest_batch_prefix_error(v, creator, items, i + 1) == quest_batch_item_error(
            v,
            creator,
            items,
            i as int,
        ),
        quest_batch_item_error(v, creator, items, i as int) matches Some(e)
            ==> quest_batch_prefix_error(v, creator, items, items.len()) == Some(e),
{
    if quest_batch_item_error(v, creator, items, i as int) is Some {
        lemma_quest_batch_stays(v, creator, items, i + 1, items.len());
    }
}

proof fn lemma_quest_batch_stays(
    v: EnvView,
    creator: Seq<char>,
    items: Seq<BatchQuestInput>,
    m: nat,
    n: nat,
)
    requires
        m <= n,
        quest_batch_prefix_error(v, creator, items, m) is Some,
    ensures
        quest_batch_prefix_error(v, creator, items, n) == quest_batch_prefix_error(
            v,
            creator,
            items,
            m,
        ),
    decreases n,
{
    if m < n {
        lemma_quest_batch_stays(v, creator, items, m, (n - 1) as nat);
    }
}

proof fn lemma_quest_batch_none(
    v: EnvView,
    creator: Seq<char>,
    items: Seq<BatchQuestInput>,
    n: nat,
    i: nat,
)
    requires
        i < n,
        quest_batch_prefix_error(v, creator, items, n) is None,
    ensures
        quest_batch_item_error(v, creator, items, i as int) is None,
    decreases n,
{
    if i < n - 1 {
        lemma_quest_batch_none(v, creator, items, (n - 1) as nat, i);
    }
}

impl EarnQuestContract {
    /// Registers several quests of one creator at once. Either every quest is
    /// registered, in order, or the first failing check is returned and
    /// nothing changes.
    pub fn register_quests_batch(env: &mut Env, creator: Address, quests: Vec<BatchQuestInput>) -> (r:
        Result<(), Error>)
        requires
            old(env).wf(),
        ensures
            final(env).wf(),
            quest_batch_error(old(env)@, creator@, quests@) matches Some(e) ==> r == Err::<(), Error>(
                e,
            ) && final(env)@ == old(env)@,
            quest_batch_error(old(env)@, creator@, quests@) is None ==> r is Ok && final(env)@
                == registered_prefix(old(env)@, creator, quests@, quests@.len()),
    {
        Self::require_not_paused(env)?;
        let len = quests.len();
        validation::validate_array_length(len, MAX_BATCH_QUEST_REGISTRATION)?;
        // Check every entry against the stored state before writing anything.
        let mut i: usize = 0;
        while i < len
            invariant
                env.wf(),
                env@ == old(env)@,
                !env@.paused,
                len == quests@.len(),
                0 < len <= MAX_BATCH_QUEST_REGISTRATION,
                i <= len,
                quest_batch_prefix_error(env@, creator@, quests@, i as nat) is None,
            decreases len - i,
        {
            let item = &quests[i];
            proof {
                lemma_quest_batch_step(env@, creator@, quests@, i as nat);
            }
            validation::validate_symbol_length(&item.id)?;
            validation::validate_addresses_distinct(&creator, &item.verifier)?;
            validation::validate_reward_amount(item.reward_amount)?;
            validation::validate_deadline(env, item.deadline)?;
            let mut repeated = storage::has_quest(env, &item.id);
            let mut j: usize = 0;
            while j < i
                invariant
                    len == quests@.len(),
                    j <= i < len,
                    *item == quests@[i as int],
                    repeated == (env@.quests.contains_key(key1(item.id@)) || exists|t: int|
                        0 <= t < j && (#[trigger] quests@[t]).id@ == item.id@),
                decreases i - j,
            {
                if quests[j].id == item.id {
                    repeated = true;
                }
                j = j + 1;
            }
            if repeated {
                return Err(Error::QuestAlreadyExists);
            }
            i = i + 1;
        }
        // Every entry passes: register them in order.
        let ghost v0 = env@;
        let mut i: usize = 0;
        while i < len
            invariant
                env.wf(),
                len == quests@.len(),
                i <= len,
                quest_batch_prefix_error(v0, creator@, quests@, len as nat) is None,
                env@ == registered_prefix(v0, creator, quests@, i as nat),
            decreases len - i,
        {
            let item = &quests[i];
            proof {
                lemma_quest_batch_none(v0, creator@, quests@, len as nat, i as nat);
                lemma_registered_prefix(v0, creator, quests@, i as nat);
                assert(!env@.quests.contains_key(key1(item.id@))) by {
                    if env@.quests.contains_key(key1(item.id@)) {
                        if !v0.quests.contains_key(key1(item.id@)) {
                            let j = choose|j: int|
                                0 <= j < i && key1((#[trigger] quests@[j]).id@) == key1(item.id@);
                            assert(key1(quests@[j].id@)[0] == quests@[j].id@);
                            assert(quests@[j].id@ == item.id@);
                        }
                    }
                }
            }
            let quest = Quest {
                id: item.id.clone(),
                creator: creator.clone(),
                reward_asset: item.reward_asset.clone(),
                reward_amount: item.reward_amount,
                verifier: item.verifier.clone(),
                deadline: item.deadline,
                status: QuestStatus::Active,
                total_claims: 0,
            };
            storage::set_quest(env, &item.id, quest);
            let mut stats = storage::get_platform_stats(env);
            stats.total_quests_created = stats.total_quests_created.saturating_add(1);
            storage::set_platform_stats(env, &stats);
            i = i + 1;
        }
        Ok(())
    }
}

} // verus!
