//! The contract's environment: the ledger time, the contract's own address,
//! and everything the contract stores, with reads and writes over it.

use vstd::prelude::*;

use crate::errors::Error;
use crate::table::{key1, key2, PairKey, Table};
use crate::types::{
    UserStats, Address, Badge, Dispute, EscrowBalances, EscrowInfo, EscrowMeta, OracleConfig, PlatformStats, Quest,
    QuestMetadata, Submission, Symbol, UserBadges,
};

verus! {

/// An escrow as stored: its balances and who funded it.
pub struct EscrowRecord {
    pub balances: EscrowBalances,
    pub meta: EscrowMeta,
}

/// Everything the contract knows, as plain values.
pub struct EnvView {
    pub now: u64,
    pub contract: Address,
    pub admin: Option<Address>,
    pub quests: Map<Seq<Seq<char>>, Quest>,
    pub quest_order: Seq<Seq<Seq<char>>>,
    pub submissions: Map<Seq<Seq<char>>, Submission>,
    pub disputes: Map<Seq<Seq<char>>, Dispute>,
    pub escrows: Map<Seq<Seq<char>>, EscrowRecord>,
    pub metadata: Map<Seq<Seq<char>>, QuestMetadata>,
    pub oracles: Seq<OracleConfig>,
    pub stats: PlatformStats,
    pub paused: bool,
    pub users: Map<Seq<Seq<char>>, UserStats>,
    pub badges: Map<Seq<Seq<char>>, Seq<Badge>>,
}

/// The contract's environment.
pub struct Env {
    now: u64,
    contract: Address,
    admin: Option<Address>,
    quests: Table<String, Quest>,
    submissions: Table<PairKey, Submission>,
    disputes: Table<PairKey, Dispute>,
    escrows: Table<String, EscrowRecord>,
    metadata: Table<String, QuestMetadata>,
    oracles: Vec<OracleConfig>,
    stats: PlatformStats,
    paused: bool,
    users: Table<String, UserStats>,
    badges: Table<String, Vec<Badge>>,
}

impl View for Env {
    type V = EnvView;

    closed spec fn view(&self) -> EnvView {
        EnvView {
            now: self.now,
            contract: self.contract,
            admin: self.admin,
            quests: self.quests.view(),
            quest_order: self.quests.keys(),
            submissions: self.submissions.view(),
            disputes: self.disputes.view(),
            escrows: self.escrows.view(),
            metadata: self.metadata.view(),
            oracles: self.oracles@,
            stats: self.stats,
            paused: self.paused,
            users: self.users.view(),
            badges: self.badges.view().map_values(|b: Vec<Badge>| b@),
        }
    }
}

/// No two oracle configurations share an address.
pub open spec fn oracle_addresses_unique(s: Seq<OracleConfig>) -> bool {
    forall|i: int, j: int|
        0 <= i < s.len() && 0 <= j < s.len() && i != j ==> (#[trigger] s[i]).oracle_address@
            != (#[trigger] s[j]).oracle_address@
}

/// Some oracle configuration has this address.
pub open spec fn has_oracle(s: Seq<OracleConfig>, addr: Seq<char>) -> bool {
    exists|i: int| 0 <= i < s.len() && (#[trigger] s[i]).oracle_address@ == addr
}

pub open spec fn is_active_config(c: OracleConfig) -> bool {
    c.is_active
}

/// Every stored escrow keeps its accounting consistent.
pub open spec fn escrows_consistent(m: Map<Seq<Seq<char>>, EscrowRecord>) -> bool {
    forall|k: Seq<Seq<char>>| #[trigger] m.contains_key(k) ==> m[k].balances.consistent()
}

pub open spec fn zero_stats() -> PlatformStats {
    PlatformStats {
        total_quests_created: 0,
        total_submissions: 0,
        total_rewards_distributed: 0,
        total_active_users: 0,
        total_rewards_claimed: 0,
    }
}

impl EnvView {
    /// The invariant of the stored state.
    pub open spec fn valid(self) -> bool {
        &&& escrows_consistent(self.escrows)
        &&& oracle_addresses_unique(self.oracles)
        &&& forall|k: Seq<Seq<char>>| #[trigger]
            self.quests.contains_key(k) ==> self.quests[k].reward_amount > 0
        &&& self.quest_order.no_duplicates()
        &&& forall|k: Seq<Seq<char>>| #[trigger]
            self.quests.contains_key(k) <==> self.quest_order.contains(k)
    }
}

impl Env {
    pub closed spec fn wf(&self) -> bool {
        &&& self.quests.wf()
        &&& self.submissions.wf()
        &&& self.disputes.wf()
        &&& self.escrows.wf()
        &&& self.metadata.wf()
        &&& self.users.wf()
        &&& self.badges.wf()
        &&& self@.valid()
    }

    pub proof fn lemma_wf(&self)
        requires
            self.wf(),
        ensures
            self@.valid(),
    {
    }

    /// The submission keys, in the order they were first written.
    pub closed spec fn submission_keys(&self) -> Seq<Seq<Seq<char>>> {
        self.submissions.keys()
    }

    /// The dispute keys, in the order they were first written.
    pub closed spec fn dispute_keys(&self) -> Seq<Seq<Seq<char>>> {
        self.disputes.keys()
    }

    /// The escrow keys, in the order they were first written.
    pub closed spec fn escrow_keys(&self) -> Seq<Seq<Seq<char>>> {
        self.escrows.keys()
    }

    /// The user keys, in the order they were first written.
    pub closed spec fn user_keys(&self) -> Seq<Seq<Seq<char>>> {
        self.users.keys()
    }

    /// The keys of the users holding badges, in the order they were first written.
    pub closed spec fn badge_keys(&self) -> Seq<Seq<Seq<char>>> {
        self.badges.keys()
    }

    /// The metadata keys, in the order they were first written.
    pub closed spec fn metadata_keys(&self) -> Seq<Seq<Seq<char>>> {
        self.metadata.keys()
    }

    /// Each key list names every stored record once.
    pub proof fn lemma_keys(&self)
        requires
            self.wf(),
        ensures
            self.submission_keys().no_duplicates(),
            self.dispute_keys().no_duplicates(),
            self.escrow_keys().no_duplicates(),
            self.metadata_keys().no_duplicates(),
            self.user_keys().no_duplicates(),
            self.badge_keys().no_duplicates(),
            forall|k: Seq<Seq<char>>| #[trigger]
                self@.badges.contains_key(k) <==> self.badge_keys().contains(k),
            forall|k: Seq<Seq<char>>| #[trigger]
                self@.users.contains_key(k) <==> self.user_keys().contains(k),
            forall|k: Seq<Seq<char>>| #[trigger]
                self@.submissions.contains_key(k) <==> self.submission_keys().contains(k),
            forall|k: Seq<Seq<char>>| #[trigger]
                self@.disputes.contains_key(k) <==> self.dispute_keys().contains(k),
            forall|k: Seq<Seq<char>>| #[trigger]
                self@.escrows.contains_key(k) <==> self.escrow_keys().contains(k),
            forall|k: Seq<Seq<char>>| #[trigger]
                self@.metadata.contains_key(k) <==> self.metadata_keys().contains(k),
    {
        self.submissions.lemma_wf();
        self.disputes.lemma_wf();
        self.escrows.lemma_wf();
        self.metadata.lemma_wf();
        self.users.lemma_wf();
        self.badges.lemma_wf();
    }

    /// A fresh environment at ledger time `now`, for the contract at `contract`,
    /// with nothing stored.
    pub fn new(now: u64, contract: Address) -> (r: Env)
        ensures
            r.wf(),
            r@ == (EnvView {
                now,
                contract,
                admin: None,
                quests: Map::empty(),
                quest_order: Seq::empty(),
                submissions: Map::empty(),
                disputes: Map::empty(),
                escrows: Map::empty(),
                metadata: Map::empty(),
                oracles: Seq::empty(),
                stats: zero_stats(),
                paused: false,
                users: Map::empty(),
                badges: Map::empty(),
            }),
    {
        let r = Env {
            now,
            contract,
            admin: None,
            quests: Table::new(),
            submissions: Table::new(),
            disputes: Table::new(),
            escrows: Table::new(),
            metadata: Table::new(),
            oracles: Vec::new(),
            stats: PlatformStats {
                total_quests_created: 0,
                total_submissions: 0,
                total_rewards_distributed: 0,
                total_active_users: 0,
                total_rewards_claimed: 0,
            },
            paused: false,
            users: Table::new(),
            badges: Table::new(),
        };
        proof {
            r.quests.lemma_wf();
            assert(r@.badges =~= Map::empty());
        }
        r
    }

    /// The ledger time, in seconds.
    pub fn timestamp(&self) -> (r: u64)
        ensures
            r == self@.now,
    {
        self.now
    }

    /// Moves the ledger clock to `now`; nothing stored changes.
    pub fn set_timestamp(&mut self, now: u64)
        requires
            old(self).wf(),
        ensures
            final(self).wf(),
            final(self)@ == (EnvView { now, ..old(self)@ }),
    {
        self.now = now;
    }

    /// The contract's own address.
    pub fn current_contract_address(&self) -> (r: Address)
        ensures
            r == self@.contract,
    {
        self.contract.clone()
    }
}

// ── Administration ──

pub fn is_initialized(env: &Env) -> (r: bool)
    ensures
        r == env@.admin is Some,
{
    env.admin.is_some()
}

/// Records the contract's administrator.
pub fn set_admin(env: &mut Env, admin: &Address)
    requires
        old(env).wf(),
    ensures
        final(env).wf(),
        final(env)@ == (EnvView { admin: Some(*admin), ..old(env)@ }),
{
    env.admin = Some(admin.clone());
}

pub fn get_admin(env: &Env) -> (r: Option<Address>)
    ensures
        r == env@.admin,
{
    match &env.admin {
        Some(a) => Some(a.clone()),
        None => None,
    }
}

/// Whether `address` is the contract's administrator.
pub fn is_admin(env: &Env, address: &Address) -> (r: bool)
    ensures
        r == (env@.admin matches Some(a) && a@ == address@),
{
    match &env.admin {
        Some(a) => *a == *address,
        None => false,
    }
}

// ── Quests ──

pub fn has_quest(env: &Env, quest_id: &Symbol) -> (r: bool)
    requires
        env.wf(),
    ensures
        r == env@.quests.contains_key(key1(quest_id@)),
{
    env.quests.contains(quest_id)
}

pub fn get_quest(env: &Env, quest_id: &Symbol) -> (r: Result<Quest, Error>)
    requires
        env.wf(),
    ensures
        r == (if env@.quests.contains_key(key1(quest_id@)) {
            Ok::<Quest, Error>(env@.quests[key1(quest_id@)])
        } else {
            Err(Error::QuestNotFound)
        }),
{
    match env.quests.get(quest_id) {
        Some(q) => Ok(q.clone()),
        None => Err(Error::QuestNotFound),
    }
}

pub fn set_quest(env: &mut Env, quest_id: &Symbol, quest: Quest)
    requires
        old(env).wf(),
        quest.reward_amount > 0,
    ensures
        final(env).wf(),
        final(env)@ == (EnvView {
            quests: old(env)@.quests.insert(key1(quest_id@), quest),
            quest_order: if old(env)@.quests.contains_key(key1(quest_id@)) {
                old(env)@.quest_order
            } else {
                old(env)@.quest_order.push(key1(quest_id@))
            },
            ..old(env)@
        }),
{
    proof {
        env.quests.lemma_wf();
    }
    env.quests.insert(quest_id.clone(), quest);
    proof {
        env.quests.lemma_wf();
    }
}

/// The number of stored quests.
pub fn quest_count(env: &Env) -> (r: usize)
    requires
        env.wf(),
    ensures
        r == env@.quest_order.len(),
{
    env.quests.len()
}

/// The quest at position `i` of the registration order.
pub fn quest_at(env: &Env, i: usize) -> (r: Quest)
    requires
        env.wf(),
        i < env@.quest_order.len(),
    ensures
        r == env@.quests[env@.quest_order[i as int]],
{
    env.quests.value_at(i).clone()
}

/// The identifier under which the quest at position `i` of the registration
/// order is stored.
pub fn quest_key_at(env: &Env, i: usize) -> (r: Symbol)
    requires
        env.wf(),
        i < env@.quest_order.len(),
    ensures
        key1(r@) == env@.quest_order[i as int],
{
    let (k, _) = env.quests.entry_at(i);
    k.clone()
}

// ── Submissions ──

pub fn has_submission(env: &Env, quest_id: &Symbol, submitter: &Address) -> (r: bool)
    requires
        env.wf(),
    ensures
        r == env@.submissions.contains_key(key2(quest_id@, submitter@)),
{
    let k = PairKey { first: quest_id.clone(), second: submitter.clone() };
    env.submissions.contains(&k)
}

pub fn get_submission(env: &Env, quest_id: &Symbol, submitter: &Address) -> (r: Result<
    Submission,
    Error,
>)
    requires
        env.wf(),
    ensures
        r == (if env@.submissions.contains_key(key2(quest_id@, submitter@)) {
            Ok::<Submission, Error>(env@.submissions[key2(quest_id@, submitter@)])
        } else {
            Err(Error::SubmissionNotFound)
        }),
{
    let k = PairKey { first: quest_id.clone(), second: submitter.clone() };
    match env.submissions.get(&k) {
        Some(s) => Ok(s.clone()),
        None => Err(Error::SubmissionNotFound),
    }
}

pub fn set_submission(env: &mut Env, quest_id: &Symbol, submitter: &Address, s: Submission)
    requires
        old(env).wf(),
    ensures
        final(env).wf(),
        final(env)@ == (EnvView {
            submissions: old(env)@.submissions.insert(key2(quest_id@, submitter@), s),
            ..old(env)@
        }),
{
    let k = PairKey { first: quest_id.clone(), second: submitter.clone() };
    env.submissions.insert(k, s);
}

pub fn submission_count(env: &Env) -> (r: usize)
    requires
        env.wf(),
    ensures
        r == env.submission_keys().len(),
{
    env.submissions.len()
}

/// The quest, submitter and submission at position `i` of the submission keys.
pub fn submission_entry_at(env: &Env, i: usize) -> (r: (Symbol, Address, Submission))
    requires
        env.wf(),
        i < env.submission_keys().len(),
    ensures
        key2(r.0@, r.1@) == env.submission_keys()[i as int],
        env@.submissions.contains_key(key2(r.0@, r.1@)),
        r.2 == env@.submissions[key2(r.0@, r.1@)],
{
    let (k, v) = env.submissions.entry_at(i);
    (k.first.clone(), k.second.clone(), v.clone())
}

// ── Disputes ──

pub fn has_dispute(env: &Env, quest_id: &Symbol, initiator: &Address) -> (r: bool)
    requires
        env.wf(),
    ensures
        r == env@.disputes.contains_key(key2(quest_id@, initiator@)),
{
    let k = PairKey { first: quest_id.clone(), second: initiator.clone() };
    env.disputes.contains(&k)
}

pub fn get_dispute(env: &Env, quest_id: &Symbol, initiator: &Address) -> (r: Result<
    Dispute,
    Error,
>)
    requires
        env.wf(),
    ensures
        r == (if env@.disputes.contains_key(key2(quest_id@, initiator@)) {
            Ok::<Dispute, Error>(env@.disputes[key2(quest_id@, initiator@)])
        } else {
            Err(Error::DisputeNotFound)
        }),
{
    let k = PairKey { first: quest_id.clone(), second: initiator.clone() };
    match env.disputes.get(&k) {
        Some(d) => Ok(d.clone()),
        None => Err(Error::DisputeNotFound),
    }
}

pub fn set_dispute(env: &mut Env, quest_id: &Symbol, initiator: &Address, d: Dispute)
    requires
        old(env).wf(),
    ensures
        final(env).wf(),
        final(env)@ == (EnvView {
            disputes: old(env)@.disputes.insert(key2(quest_id@, initiator@), d),
            ..old(env)@
        }),
{
    let k = PairKey { first: quest_id.clone(), second: initiator.clone() };
    env.disputes.insert(k, d);
}

pub fn dispute_count(env: &Env) -> (r: usize)
    requires
        env.wf(),
    ensures
        r == env.dispute_keys().len(),
{
    env.disputes.len()
}

/// The quest, initiator and dispute at position `i` of the dispute keys.
pub fn dispute_entry_at(env: &Env, i: usize) -> (r: (Symbol, Address, Dispute))
    requires
        env.wf(),
        i < env.dispute_keys().len(),
    ensures
        key2(r.0@, r.1@) == env.dispute_keys()[i as int],
        env@.disputes.contains_key(key2(r.0@, r.1@)),
        r.2 == env@.disputes[key2(r.0@, r.1@)],
{
    let (k, v) = env.disputes.entry_at(i);
    (k.first.clone(), k.second.clone(), v.clone())
}

// ── Escrow ──

pub fn has_escrow(env: &Env, quest_id: &Symbol) -> (r: bool)
    requires
        env.wf(),
    ensures
        r == env@.escrows.contains_key(key1(quest_id@)),
{
    env.escrows.contains(quest_id)
}

pub fn get_escrow_balances(env: &Env, quest_id: &Symbol) -> (r: Result<EscrowBalances, Error>)
    requires
        env.wf(),
    ensures
        r == (if env@.escrows.contains_key(key1(quest_id@)) {
            Ok::<EscrowBalances, Error>(env@.escrows[key1(quest_id@)].balances)
        } else {
            Err(Error::EscrowNotFound)
        }),
{
    match env.escrows.get(quest_id) {
        Some(e) => Ok(e.balances),
        None => Err(Error::EscrowNotFound),
    }
}

pub fn get_escrow_meta(env: &Env, quest_id: &Symbol) -> (r: Result<EscrowMeta, Error>)
    requires
        env.wf(),
    ensures
        r == (if env@.escrows.contains_key(key1(quest_id@)) {
            Ok::<EscrowMeta, Error>(env@.escrows[key1(quest_id@)].meta)
        } else {
            Err(Error::EscrowNotFound)
        }),
{
    match env.escrows.get(quest_id) {
        Some(e) => Ok(e.meta.clone()),
        None => Err(Error::EscrowNotFound),
    }
}

/// The full escrow view of a quest, assembled from its balances and metadata.
pub open spec fn escrow_info_of(quest_id: Symbol, e: EscrowRecord) -> EscrowInfo {
    EscrowInfo {
        quest_id,
        depositor: e.meta.depositor,
        token: e.meta.token,
        total_deposited: e.balances.total_deposited,
        total_paid_out: e.balances.total_paid_out,
        total_refunded: e.balances.total_refunded,
        is_active: e.balances.is_active,
        created_at: e.meta.created_at,
        deposit_count: e.balances.deposit_count,
    }
}

pub fn get_escrow(env: &Env, quest_id: &Symbol) -> (r: Result<EscrowInfo, Error>)
    requires
        env.wf(),
    ensures
        r == (if env@.escrows.contains_key(key1(quest_id@)) {
            Ok::<EscrowInfo, Error>(escrow_info_of(*quest_id, env@.escrows[key1(quest_id@)]))
        } else {
            Err(Error::EscrowNotFound)
        }),
{
    match env.escrows.get(quest_id) {
        Some(e) => Ok(
            EscrowInfo {
                quest_id: quest_id.clone(),
                depositor: e.meta.depositor.clone(),
                token: e.meta.token.clone(),
                total_deposited: e.balances.total_deposited,
                total_paid_out: e.balances.total_paid_out,
                total_refunded: e.balances.total_refunded,
                is_active: e.balances.is_active,
                created_at: e.meta.created_at,
                deposit_count: e.balances.deposit_count,
            },
        ),
        None => Err(Error::EscrowNotFound),
    }
}

/// Writes the balances of an existing escrow; its metadata stays.
pub fn set_escrow_balances(env: &mut Env, quest_id: &Symbol, b: EscrowBalances)
    requires
        old(env).wf(),
        old(env)@.escrows.contains_key(key1(quest_id@)),
        b.consistent(),
    ensures
        final(env).wf(),
        final(env)@ == (EnvView {
            escrows: old(env)@.escrows.insert(
                key1(quest_id@),
                EscrowRecord { balances: b, meta: old(env)@.escrows[key1(quest_id@)].meta },
            ),
            ..old(env)@
        }),
{
    let meta = match env.escrows.get(quest_id) {
        Some(e) => e.meta.clone(),
        None => {
            proof {
                assert(false);
            }
            EscrowMeta { depositor: String::new(), token: String::new(), created_at: 0 }
        },
    };
    env.escrows.insert(quest_id.clone(), EscrowRecord { balances: b, meta });
}

/// Writes a whole escrow record.
pub fn set_escrow(env: &mut Env, quest_id: &Symbol, e: EscrowRecord)
    requires
        old(env).wf(),
        e.balances.consistent(),
    ensures
        final(env).wf(),
        final(env)@ == (EnvView {
            escrows: old(env)@.escrows.insert(key1(quest_id@), e),
            ..old(env)@
        }),
{
    env.escrows.insert(quest_id.clone(), e);
}

pub fn escrow_count(env: &Env) -> (r: usize)
    requires
        env.wf(),
    ensures
        r == env.escrow_keys().len(),
{
    env.escrows.len()
}

/// The quest and escrow at position `i` of the escrow keys.
pub fn escrow_entry_at(env: &Env, i: usize) -> (r: (Symbol, EscrowBalances, EscrowMeta))
    requires
        env.wf(),
        i < env.escrow_keys().len(),
    ensures
        key1(r.0@) == env.escrow_keys()[i as int],
        env@.escrows.contains_key(key1(r.0@)),
        r.1 == env@.escrows[key1(r.0@)].balances,
        r.2 == env@.escrows[key1(r.0@)].meta,
{
    let (k, v) = env.escrows.entry_at(i);
    (k.clone(), v.balances, v.meta.clone())
}

// ── Quest metadata ──

pub fn has_quest_metadata(env: &Env, quest_id: &Symbol) -> (r: bool)
    requires
        env.wf(),
    ensures
        r == env@.metadata.contains_key(key1(quest_id@)),
{
    env.metadata.contains(quest_id)
}

pub fn get_quest_metadata(env: &Env, quest_id: &Symbol) -> (r: Result<QuestMetadata, Error>)
    requires
        env.wf(),
    ensures
        r is Ok <==> env@.metadata.contains_key(key1(quest_id@)),
        r matches Ok(m) ==> {
            let s = env@.metadata[key1(quest_id@)];
            &&& m.title == s.title
            &&& m.description == s.description
            &&& m.requirements@ == s.requirements@
            &&& m.category == s.category
            &&& m.tags@ == s.tags@
        },
        r matches Err(e) ==> e == Error::MetadataNotFound,
{
    match env.metadata.get(quest_id) {
        Some(m) => Ok(m.clone()),
        None => Err(Error::MetadataNotFound),
    }
}

pub fn set_quest_metadata(env: &mut Env, quest_id: &Symbol, m: QuestMetadata)
    requires
        old(env).wf(),
    ensures
        final(env).wf(),
        final(env)@ == (EnvView {
            metadata: old(env)@.metadata.insert(key1(quest_id@), m),
            ..old(env)@
        }),
{
    env.metadata.insert(quest_id.clone(), m);
}

pub fn metadata_count(env: &Env) -> (r: usize)
    requires
        env.wf(),
    ensures
        r == env.metadata_keys().len(),
{
    env.metadata.len()
}

/// The quest and metadata at position `i` of the metadata keys.
pub fn metadata_entry_at(env: &Env, i: usize) -> (r: (Symbol, QuestMetadata))
    requires
        env.wf(),
        i < env.metadata_keys().len(),
    ensures
        key1(r.0@) == env.metadata_keys()[i as int],
        env@.metadata.contains_key(key1(r.0@)),
        ({
            let m = env@.metadata[key1(r.0@)];
            &&& r.1.title == m.title
            &&& r.1.description == m.description
            &&& r.1.requirements@ == m.requirements@
            &&& r.1.category == m.category
            &&& r.1.tags@ == m.tags@
        }),
{
    let (k, v) = env.metadata.entry_at(i);
    (k.clone(), v.clone())
}

// ── Pause ──

pub fn is_paused(env: &Env) -> (r: bool)
    ensures
        r == env@.paused,
{
    env.paused
}

pub fn set_paused(env: &mut Env, paused: bool)
    requires
        old(env).wf(),
    ensures
        final(env).wf(),
        final(env)@ == (EnvView { paused, ..old(env)@ }),
{
    env.paused = paused;
}

// ── User statistics ──

/// The statistics of a user who has none stored yet.
pub open spec fn fresh_user_stats() -> UserStats {
    UserStats { xp: 0, level: 1, quests_completed: 0 }
}

/// The stored statistics of a user, or those of a new user.
pub open spec fn user_stats_of(v: EnvView, user: Seq<char>) -> UserStats {
    if v.users.contains_key(key1(user)) {
        v.users[key1(user)]
    } else {
        fresh_user_stats()
    }
}

pub fn get_user_stats(env: &Env, user: &Address) -> (r: UserStats)
    requires
        env.wf(),
    ensures
        r == user_stats_of(env@, user@),
{
    match env.users.get(user) {
        Some(u) => *u,
        None => UserStats { xp: 0, level: 1, quests_completed: 0 },
    }
}

pub fn set_user_stats(env: &mut Env, user: &Address, stats: UserStats)
    requires
        old(env).wf(),
    ensures
        final(env).wf(),
        final(env)@ == (EnvView { users: old(env)@.users.insert(key1(user@), stats), ..old(env)@ }),
{
    env.users.insert(user.clone(), stats);
}

pub fn user_count(env: &Env) -> (r: usize)
    requires
        env.wf(),
    ensures
        r == env.user_keys().len(),
{
    env.users.len()
}

/// The user and statistics at position `i` of the user keys.
pub fn user_entry_at(env: &Env, i: usize) -> (r: (Address, UserStats))
    requires
        env.wf(),
        i < env.user_keys().len(),
    ensures
        key1(r.0@) == env.user_keys()[i as int],
        env@.users.contains_key(key1(r.0@)),
        r.1 == env@.users[key1(r.0@)],
{
    let (k, v) = env.users.entry_at(i);
    (k.clone(), *v)
}

// ── Badges ──

/// The badges a user holds, in the order they were granted.
pub open spec fn badges_of(v: EnvView, user: Seq<char>) -> Seq<Badge> {
    if v.badges.contains_key(key1(user)) {
        v.badges[key1(user)]
    } else {
        Seq::empty()
    }
}

fn copy_badges(b: &Vec<Badge>) -> (r: Vec<Badge>)
    ensures
        r@ == b@,
{
    let mut r: Vec<Badge> = Vec::new();
    let mut i: usize = 0;
    while i < b.len()
        invariant
            i <= b@.len(),
            r@ == b@.take(i as int),
        decreases b@.len() - i,
    {
        r.push(b[i]);
        i = i + 1;
        proof {
            assert(r@ =~= b@.take(i as int));
        }
    }
    proof {
        assert(b@.take(i as int) =~= b@);
    }
    r
}

pub fn get_user_badges(env: &Env, user: &Address) -> (r: UserBadges)
    requires
        env.wf(),
    ensures
        r.badges@ == badges_of(env@, user@),
{
    match env.badges.get(user) {
        Some(b) => UserBadges { badges: copy_badges(b) },
        None => UserBadges { badges: Vec::new() },
    }
}

pub fn set_user_badges(env: &mut Env, user: &Address, badges: Vec<Badge>)
    requires
        old(env).wf(),
    ensures
        final(env).wf(),
        final(env)@ == (EnvView { badges: old(env)@.badges.insert(key1(user@), badges@), ..old(env)@ }),
{
    let ghost b = badges@;
    env.badges.insert(user.clone(), badges);
    proof {
        assert(env@.badges =~= old(env)@.badges.insert(key1(user@), b));
    }
}

pub fn badge_user_count(env: &Env) -> (r: usize)
    requires
        env.wf(),
    ensures
        r == env.badge_keys().len(),
{
    env.badges.len()
}

/// The user and badges at position `i` of the badge keys.
pub fn badge_entry_at(env: &Env, i: usize) -> (r: (Address, Vec<Badge>))
    requires
        env.wf(),
        i < env.badge_keys().len(),
    ensures
        key1(r.0@) == env.badge_keys()[i as int],
        env@.badges.contains_key(key1(r.0@)),
        r.1@ == env@.badges[key1(r.0@)],
{
    let (k, v) = env.badges.entry_at(i);
    (k.clone(), copy_badges(v))
}

// ── Platform statistics ──

pub fn get_platform_stats(env: &Env) -> (r: PlatformStats)
    ensures
        r == env@.stats,
{
    env.stats
}

pub fn set_platform_stats(env: &mut Env, stats: &PlatformStats)
    requires
        old(env).wf(),
    ensures
        final(env).wf(),
        final(env)@ == (EnvView { stats: *stats, ..old(env)@ }),
{
    env.stats = *stats;
}

// ── Oracle configurations ──

/// Prepares the oracle registry; an environment always has one, so nothing
/// changes.
pub fn initialize_oracle_storage(env: &mut Env)
    requires
        old(env).wf(),
    ensures
        final(env).wf(),
        final(env)@ == old(env)@,
{
}

/// The position of the oracle configuration with this address, if any.
fn find_oracle(env: &Env, oracle_address: &Address) -> (r: Option<usize>)
    requires
        env.wf(),
    ensures
        r is Some <==> has_oracle(env@.oracles, oracle_address@),
        r matches Some(i) ==> i < env@.oracles.len() && env@.oracles[i as int].oracle_address@
            == oracle_address@,
{
    let mut i: usize = 0;
    while i < env.oracles.len()
        invariant
            i <= env.oracles@.len(),
            forall|j: int| 0 <= j < i ==> env.oracles@[j].oracle_address@ != oracle_address@,
        decreases env.oracles@.len() - i,
    {
        if env.oracles[i].oracle_address == *oracle_address {
            return Some(i);
        }
        i = i + 1;
    }
    None
}

pub fn has_oracle_config(env: &Env, oracle_address: &Address) -> (r: bool)
    requires
        env.wf(),
    ensures
        r == has_oracle(env@.oracles, oracle_address@),
{
    find_oracle(env, oracle_address).is_some()
}

/// Registers a new oracle configuration; its address must not be taken.
pub fn add_oracle_config(env: &mut Env, config: &OracleConfig) -> (r: Result<(), Error>)
    requires
        old(env).wf(),
    ensures
        final(env).wf(),
        r is Err <==> has_oracle(old(env)@.oracles, config.oracle_address@),
        r matches Err(e) ==> e == Error::OracleAlreadyExists && final(env)@ == old(env)@,
        r is Ok ==> final(env)@ == (EnvView {
            oracles: old(env)@.oracles.push(*config),
            ..old(env)@
        }),
{
    if find_oracle(env, &config.oracle_address).is_some() {
        return Err(Error::OracleAlreadyExists);
    }
    env.oracles.push(config.clone());
    proof {
        let s = env.oracles@;
        assert forall|i: int, j: int|
            0 <= i < s.len() && 0 <= j < s.len() && i != j implies (#[trigger] s[i]).oracle_address@
            != (#[trigger] s[j]).oracle_address@ by {
            if i == s.len() - 1 {
                assert(old(env).oracles@[j] == s[j]);
            } else if j == s.len() - 1 {
                assert(old(env).oracles@[i] == s[i]);
            } else {
                assert(old(env).oracles@[i] == s[i]);
                assert(old(env).oracles@[j] == s[j]);
            }
        }
    }
    Ok(())
}

pub fn get_oracle_config(env: &Env, oracle_address: &Address) -> (r: Result<OracleConfig, Error>)
    requires
        env.wf(),
    ensures
        r is Ok <==> has_oracle(env@.oracles, oracle_address@),
        r matches Ok(c) ==> exists|i: int|
            0 <= i < env@.oracles.len() && env@.oracles[i] == c && c.oracle_address@
                == oracle_address@,
        r matches Err(e) ==> e == Error::OracleNotFound,
{
    match find_oracle(env, oracle_address) {
        Some(i) => Ok(env.oracles[i].clone()),
        None => Err(Error::OracleNotFound),
    }
}

/// Replaces the configuration that has the same address.
pub fn update_oracle_config(env: &mut Env, config: &OracleConfig) -> (r: Result<(), Error>)
    requires
        old(env).wf(),
    ensures
        final(env).wf(),
        r is Ok <==> has_oracle(old(env)@.oracles, config.oracle_address@),
        r matches Err(e) ==> e == Error::OracleNotFound && final(env)@ == old(env)@,
        r is Ok ==> exists|i: int|
            0 <= i < old(env)@.oracles.len() && old(env)@.oracles[i].oracle_address@
                == config.oracle_address@ && final(env)@ == (EnvView {
                oracles: old(env)@.oracles.update(i, *config),
                ..old(env)@
            }),
{
    match find_oracle(env, &config.oracle_address) {
        Some(i) => {
            env.oracles.set(i, config.clone());
            proof {
                let s = env.oracles@;
                assert forall|a: int, b: int|
                    0 <= a < s.len() && 0 <= b < s.len() && a != b implies (
                    #[trigger] s[a]).oracle_address@ != (#[trigger] s[b]).oracle_address@ by {
                    assert(s[a].oracle_address@ == old(env).oracles@[a].oracle_address@);
                    assert(s[b].oracle_address@ == old(env).oracles@[b].oracle_address@);
                }
                assert(env@ == (EnvView {
                    oracles: old(env)@.oracles.update(i as int, *config),
                    ..old(env)@
                }));
            }
            Ok(())
        },
        None => Err(Error::OracleNotFound),
    }
}

/// Removes the configuration with this address.
pub fn remove_oracle_config(env: &mut Env, oracle_address: &Address) -> (r: Result<(), Error>)
    requires
        old(env).wf(),
    ensures
        final(env).wf(),
        r is Ok <==> has_oracle(old(env)@.oracles, oracle_address@),
        r matches Err(e) ==> e == Error::OracleNotFound && final(env)@ == old(env)@,
        r is Ok ==> exists|i: int|
            0 <= i < old(env)@.oracles.len() && old(env)@.oracles[i].oracle_address@
                == oracle_address@ && final(env)@ == (EnvView {
                oracles: old(env)@.oracles.remove(i),
                ..old(env)@
            }),
{
    match find_oracle(env, oracle_address) {
        Some(i) => {
            env.oracles.remove(i);
            proof {
                let s = env.oracles@;
                let o = old(env).oracles@;
                assert forall|a: int, b: int|
                    0 <= a < s.len() && 0 <= b < s.len() && a != b implies (
                    #[trigger] s[a]).oracle_address@ != (#[trigger] s[b]).oracle_address@ by {
                    let a2 = if a < i { a } else { a + 1 };
                    let b2 = if b < i { b } else { b + 1 };
                    assert(s[a] == o[a2]);
                    assert(s[b] == o[b2]);
                }
                assert(env@ == (EnvView { oracles: o.remove(i as int), ..old(env)@ }));
            }
            Ok(())
        },
        None => Err(Error::OracleNotFound),
    }
}

/// Every configuration, in the order they were added.
pub fn get_all_oracle_configs(env: &Env) -> (r: Vec<OracleConfig>)
    ensures
        r@ == env@.oracles,
{
    let r = env.oracles.clone();
    proof {
        assert(r@ =~= env.oracles@);
    }
    r
}

/// The active configurations, in the order they were added.
pub fn get_active_oracle_configs(env: &Env) -> (r: Vec<OracleConfig>)
    ensures
        r@ == env@.oracles.filter(|c: OracleConfig| is_active_config(c)),
{
    let ghost pred = |c: OracleConfig| is_active_config(c);
    let mut r: Vec<OracleConfig> = Vec::new();
    let mut i: usize = 0;
    while i < env.oracles.len()
        invariant
            i <= env.oracles@.len(),
            r@ == env.oracles@.take(i as int).filter(pred),
            pred == (|c: OracleConfig| is_active_config(c)),
        decreases env.oracles@.len() - i,
    {
        proof {
            assert(env.oracles@.take(i + 1) =~= env.oracles@.take(i as int).push(env.oracles@[i as int]));
            env.oracles@.take(i as int).lemma_filter_push(env.oracles@[i as int], pred);
            assert(pred(env.oracles@[i as int]) == env.oracles@[i as int].is_active);
        }
        if env.oracles[i].is_active {
            r.push(env.oracles[i].clone());
        }
        i = i + 1;
    }
    proof {
        assert(env.oracles@.take(i as int) =~= env.oracles@);
    }
    r
}

} // verus!
