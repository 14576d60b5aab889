//! Records kept by the quest contract.
//!
//! Account addresses and quest symbols are carried as their textual form
//! (`String`); a proof hash is its 32 raw bytes.

use vstd::prelude::*;

use crate::u256::U256;

verus! {

/// The textual form of an account or contract address.
pub type Address = String;

/// The textual form of a quest identifier.
pub type Symbol = String;

#[derive(Clone, Copy, Debug, PartialEq, Eq, Structural)]
pub enum QuestStatus {
    Active,
    Paused,
    Completed,
    Expired,
    Cancelled,
}

pub struct Quest {
    pub id: Symbol,
    pub creator: Address,
    pub reward_asset: Address,
    pub reward_amount: i128,
    pub verifier: Address,
    pub deadline: u64,
    pub status: QuestStatus,
    pub total_claims: u32,
}

impl Clone for Quest {
    fn clone(&self) -> (r: Self)
        ensures
            r == *self,
    {
        Quest {
            id: self.id.clone(),
            creator: self.creator.clone(),
            reward_asset: self.reward_asset.clone(),
            reward_amount: self.reward_amount,
            verifier: self.verifier.clone(),
            deadline: self.deadline,
            status: self.status,
            total_claims: self.total_claims,
        }
    }
}

#[derive(Clone, Copy, Debug, PartialEq, Eq, Structural)]
pub enum SubmissionStatus {
    Pending,
    Approved,
    Rejected,
    Paid,
}

pub struct Submission {
    pub quest_id: Symbol,
    pub submitter: Address,
    pub proof_hash: [u8; 32],
    pub status: SubmissionStatus,
    pub timestamp: u64,
}

impl Clone for Submission {
    fn clone(&self) -> (r: Self)
        ensures
            r == *self,
    {
        Submission {
            quest_id: self.quest_id.clone(),
            submitter: self.submitter.clone(),
            proof_hash: self.proof_hash,
            status: self.status,
            timestamp: self.timestamp,
        }
    }
}

#[derive(Clone, Copy, Debug, PartialEq, Eq, Structural)]
pub enum DisputeStatus {
    Pending,
    UnderReview,
    Resolved,
    Withdrawn,
}

pub struct Dispute {
    pub quest_id: Symbol,
    pub initiator: Address,
    pub arbitrator: Address,
    pub status: DisputeStatus,
    pub filed_at: u64,
}

impl Clone for Dispute {
    fn clone(&self) -> (r: Self)
        ensures
            r == *self,
    {
        Dispute {
            quest_id: self.quest_id.clone(),
            initiator: self.initiator.clone(),
            arbitrator: self.arbitrator.clone(),
            status: self.status,
            filed_at: self.filed_at,
        }
    }
}

#[derive(Clone, Copy, Debug, PartialEq, Eq, Structural)]
pub struct UserStats {
    pub xp: u64,
    /// Current user level (1–5)
    pub level: u32,
    /// Number of quests successfully completed
    pub quests_completed: u32,
}

#[derive(Clone, Copy, Debug, PartialEq, Eq, Structural)]
pub enum Badge {
    Rookie,
    Explorer,
    Veteran,
    Master,
    Legend,
}

/// A user's badge collection.
pub struct UserBadges {
    pub badges: Vec<Badge>,
}

/// The amounts held in escrow for one quest.
#[derive(Clone, Copy, Debug, PartialEq, Eq, Structural)]
pub struct EscrowBalances {
    /// Total tokens deposited (cumulative, includes top-ups)
    pub total_deposited: i128,
    /// Total tokens paid out to quest completers
    pub total_paid_out: i128,
    /// Total tokens refunded back to creator
    pub total_refunded: i128,
    /// Whether this escrow is still active
    pub is_active: bool,
    /// Number of deposits made (1 = initial, >1 = top-ups)
    pub deposit_count: u32,
}

impl EscrowBalances {
    /// What the escrow still holds.
    pub open spec fn available(self) -> int {
        self.total_deposited - self.total_paid_out - self.total_refunded
    }

    /// The accounting that every stored escrow keeps: refunds are never
    /// negative, never more is paid out and refunded than deposited, and
    /// what was deposited less what was paid out stays representable.
    pub open spec fn consistent(self) -> bool {
        &&& 0 <= self.total_refunded
        &&& self.total_paid_out + self.total_refunded <= self.total_deposited
        &&& self.total_deposited - self.total_paid_out <= i128::MAX
    }
}

/// Who funded an escrow, with which token, and when.
pub struct EscrowMeta {
    pub depositor: Address,
    pub token: Address,
    pub created_at: u64,
}

impl Clone for EscrowMeta {
    fn clone(&self) -> (r: Self)
        ensures
            r == *self,
    {
        EscrowMeta {
            depositor: self.depositor.clone(),
            token: self.token.clone(),
            created_at: self.created_at,
        }
    }
}

/// Full escrow view, assembled from the balances and the metadata.
pub struct EscrowInfo {
    pub quest_id: Symbol,
    pub depositor: Address,
    pub token: Address,
    pub total_deposited: i128,
    pub total_paid_out: i128,
    pub total_refunded: i128,
    pub is_active: bool,
    pub created_at: u64,
    pub deposit_count: u32,
}

pub enum MetadataDescription {
    Inline(String),
    Hash([u8; 32]),
}

impl Clone for MetadataDescription {
    fn clone(&self) -> (r: Self)
        ensures
            r == *self,
    {
        match self {
            MetadataDescription::Inline(s) => MetadataDescription::Inline(s.clone()),
            MetadataDescription::Hash(h) => MetadataDescription::Hash(*h),
        }
    }
}

/// The short part of a quest's metadata: title, description, category.
pub struct QuestMetadataCore {
    pub title: String,
    pub description: MetadataDescription,
    pub category: String,
}

/// The long part of a quest's metadata: requirements and tags.
pub struct QuestMetadataExtended {
    pub requirements: Vec<String>,
    pub tags: Vec<String>,
}

/// Descriptive data attached to a quest.
pub struct QuestMetadata {
    pub title: String,
    pub description: MetadataDescription,
    pub requirements: Vec<String>,
    pub category: String,
    pub tags: Vec<String>,
}

impl Clone for QuestMetadata {
    fn clone(&self) -> (r: Self)
        ensures
            r.title == self.title,
            r.description == self.description,
            r.requirements@ == self.requirements@,
            r.category == self.category,
            r.tags@ == self.tags@,
    {
        let requirements = self.requirements.clone();
        let tags = self.tags.clone();
        proof {
            assert(requirements@ =~= self.requirements@);
            assert(tags@ =~= self.tags@);
        }
        QuestMetadata {
            title: self.title.clone(),
            description: self.description.clone(),
            requirements,
            category: self.category.clone(),
            tags,
        }
    }
}

#[derive(Clone, Copy, Debug, PartialEq, Eq, Structural)]
pub struct PlatformStats {
    pub total_quests_created: u64,
    pub total_submissions: u64,
    pub total_rewards_distributed: u128,
    pub total_active_users: u64,
    pub total_rewards_claimed: u64,
}

/// Price data from an oracle
pub struct PriceData {
    pub base_asset: Address,
    pub quote_asset: Address,
    pub price: U256,
    pub decimals: u32,
    pub timestamp: u64,
    /// 0-100 percentage confidence score
    pub confidence: u32,
}

#[derive(Clone, Copy, Debug, PartialEq, Eq, Structural)]
pub enum OracleType {
    StellarAsset,
    StellarOracle,
    Custom,
}

/// Oracle configuration
pub struct OracleConfig {
    pub oracle_address: Address,
    pub oracle_type: OracleType,
    pub max_age_seconds: u64,
    pub min_confidence: u32,
    pub is_active: bool,
}

impl Clone for OracleConfig {
    fn clone(&self) -> (r: Self)
        ensures
            r == *self,
    {
        OracleConfig {
            oracle_address: self.oracle_address.clone(),
            oracle_type: self.oracle_type,
            max_age_seconds: self.max_age_seconds,
            min_confidence: self.min_confidence,
            is_active: self.is_active,
        }
    }
}

/// Price feed request
pub struct PriceFeedRequest {
    pub base_asset: Address,
    pub quote_asset: Address,
    pub max_age_seconds: u64,
}

/// Oracle response wrapper
pub struct OracleResponse {
    pub price_data: PriceData,
    pub oracle_address: Address,
    pub response_timestamp: u64,
}

/// Oracle aggregation result for multiple sources
pub struct AggregatedPrice {
    pub base_asset: Address,
    pub quote_asset: Address,
    pub weighted_price: U256,
    pub decimals: u32,
    pub sources_used: u32,
    pub total_sources: u32,
    pub confidence_score: u32,
    pub timestamp: u64,
}

/// One quest of a batch registration; the caller is the creator of each.
pub struct BatchQuestInput {
    pub id: Symbol,
    pub reward_asset: Address,
    pub reward_amount: i128,
    pub verifier: Address,
    pub deadline: u64,
}

/// One entry of a batch approval: which submission to approve.
pub struct BatchApprovalInput {
    pub quest_id: Symbol,
    pub submitter: Address,
}

/// A token movement that the contract asks the token contract to perform.
pub struct Transfer {
    pub token: Address,
    pub from: Address,
    pub to: Address,
    pub amount: i128,
}

} // verus!
