use earn_quest::contract::EarnQuestContract;
use earn_quest::errors::Error;
use earn_quest::oracle::Oracle;
use earn_quest::storage::{self, Env};
use earn_quest::types::{
    Badge, BatchApprovalInput, BatchQuestInput, Dispute, DisputeStatus, OracleConfig, OracleType,
    PriceFeedRequest, QuestStatus, SubmissionStatus,
};

fn s(x: &str) -> String {
    String::from(x)
}

fn setup() -> Env {
    let mut env = Env::new(1_000, s("CCONTRACT"));
    EarnQuestContract::initialize(&mut env, s("GADMIN"));
    env
}

fn register(env: &mut Env, id: &str, reward: i128) {
    EarnQuestContract::register_quest(
        env,
        s(id),
        s("GCREATOR"),
        s("CTOKEN"),
        reward,
        s("GVERIFIER"),
        5_000,
    )
    .unwrap();
}

fn approved_claimable(env: &mut Env, id: &str, who: &str, reward: i128) {
    register(env, id, reward);
    EarnQuestContract::deposit_escrow(env, s(id), s("GCREATOR"), s("CTOKEN"), 10 * reward).unwrap();
    EarnQuestContract::submit_proof(env, s(id), s(who), [3u8; 32]).unwrap();
    EarnQuestContract::approve_submission(env, s(id), s(who), s("GVERIFIER")).unwrap();
}

fn oracle(addr: &str) -> OracleConfig {
    OracleConfig {
        oracle_address: s(addr),
        oracle_type: OracleType::StellarAsset,
        max_age_seconds: 300,
        min_confidence: 80,
        is_active: true,
    }
}

#[test]
fn emergency_pause_is_admin_only() {
    let mut env = setup();
    assert_eq!(
        EarnQuestContract::emergency_pause(&mut env, s("GMALLORY")),
        Err(Error::Unauthorized)
    );
    assert!(!storage::is_paused(&env));
    assert_eq!(EarnQuestContract::emergency_pause(&mut env, s("GADMIN")), Ok(()));
    assert!(storage::is_paused(&env));
    assert_eq!(
        EarnQuestContract::emergency_unpause(&mut env, s("GMALLORY")),
        Err(Error::Unauthorized)
    );
    assert!(storage::is_paused(&env));
    assert_eq!(EarnQuestContract::emergency_unpause(&mut env, s("GADMIN")), Ok(()));
    assert!(!storage::is_paused(&env));
}

#[test]
fn paused_contract_refuses_claims_and_registration() {
    let mut env = setup();
    approved_claimable(&mut env, "quest1", "GALICE", 100);
    EarnQuestContract::emergency_pause(&mut env, s("GADMIN")).unwrap();

    assert_eq!(
        EarnQuestContract::claim_reward(&mut env, s("quest1"), s("GALICE")).err(),
        Some(Error::ContractPaused)
    );
    assert_eq!(
        EarnQuestContract::get_submission(&env, s("quest1"), s("GALICE")).unwrap().status,
        SubmissionStatus::Approved
    );
    assert_eq!(EarnQuestContract::get_escrow_balance(&env, s("quest1")), Ok(1_000));
    assert_eq!(EarnQuestContract::get_user_stats(&env, s("GALICE")).xp, 0);

    assert_eq!(
        EarnQuestContract::register_quest(
            &mut env,
            s("quest2"),
            s("GCREATOR"),
            s("CTOKEN"),
            50,
            s("GVERIFIER"),
            5_000,
        ),
        Err(Error::ContractPaused)
    );
    assert_eq!(
        EarnQuestContract::get_quest(&env, s("quest2")).err(),
        Some(Error::QuestNotFound)
    );
    let batch = vec![BatchQuestInput {
        id: s("quest3"),
        reward_asset: s("CTOKEN"),
        reward_amount: 10,
        verifier: s("GVERIFIER"),
        deadline: 5_000,
    }];
    assert_eq!(
        EarnQuestContract::register_quests_batch(&mut env, s("GCREATOR"), batch),
        Err(Error::ContractPaused)
    );
    assert_eq!(EarnQuestContract::get_platform_stats(&env).total_quests_created, 1);
    assert_eq!(
        EarnQuestContract::pause_quest(&mut env, s("GADMIN"), s("quest1")),
        Err(Error::ContractPaused)
    );
    assert_eq!(
        EarnQuestContract::get_quest(&env, s("quest1")).unwrap().status,
        QuestStatus::Active
    );
    assert_eq!(
        EarnQuestContract::submit_proof(&mut env, s("quest1"), s("GBOB"), [1u8; 32]),
        Err(Error::ContractPaused)
    );
    assert_eq!(
        EarnQuestContract::deposit_escrow(&mut env, s("quest1"), s("GCREATOR"), s("CTOKEN"), 5).err(),
        Some(Error::ContractPaused)
    );
    assert_eq!(
        EarnQuestContract::cancel_quest(&mut env, s("quest1"), s("GCREATOR")).err(),
        Some(Error::ContractPaused)
    );

    // once unpaused the same claim goes through
    EarnQuestContract::emergency_unpause(&mut env, s("GADMIN")).unwrap();
    let t = EarnQuestContract::claim_reward(&mut env, s("quest1"), s("GALICE")).unwrap();
    assert_eq!(t.amount, 100);
}

#[test]
fn paused_contract_refuses_oracles_and_batch_approval() {
    let mut env = setup();
    register(&mut env, "quest1", 100);
    EarnQuestContract::deposit_escrow(&mut env, s("quest1"), s("GCREATOR"), s("CTOKEN"), 500).unwrap();
    EarnQuestContract::submit_proof(&mut env, s("quest1"), s("GALICE"), [1u8; 32]).unwrap();
    EarnQuestContract::add_oracle(&mut env, s("GADMIN"), oracle("O1")).unwrap();
    EarnQuestContract::emergency_pause(&mut env, s("GADMIN")).unwrap();

    assert_eq!(
        EarnQuestContract::add_oracle(&mut env, s("GADMIN"), oracle("O2")),
        Err(Error::ContractPaused)
    );
    assert_eq!(
        EarnQuestContract::remove_oracle(&mut env, s("GADMIN"), s("O1")),
        Err(Error::ContractPaused)
    );
    assert_eq!(EarnQuestContract::get_oracle_configs(&env).len(), 1);
    let items = vec![BatchApprovalInput { quest_id: s("quest1"), submitter: s("GALICE") }];
    assert_eq!(
        EarnQuestContract::approve_submissions_batch(&mut env, s("GVERIFIER"), items),
        Err(Error::ContractPaused)
    );
    assert_eq!(
        EarnQuestContract::get_submission(&env, s("quest1"), s("GALICE")).unwrap().status,
        SubmissionStatus::Pending
    );
    // reads still answer
    assert_eq!(EarnQuestContract::get_quest(&env, s("quest1")).unwrap().reward_amount, 100);
}

#[test]
fn claim_awards_one_hundred_xp() {
    let mut env = setup();
    let fresh = EarnQuestContract::get_user_stats(&env, s("GALICE"));
    assert_eq!(fresh.xp, 0);
    assert_eq!(fresh.level, 1);
    assert_eq!(fresh.quests_completed, 0);

    approved_claimable(&mut env, "quest1", "GALICE", 100);
    EarnQuestContract::claim_reward(&mut env, s("quest1"), s("GALICE")).unwrap();
    let after = EarnQuestContract::get_user_stats(&env, s("GALICE"));
    assert_eq!(after.xp, 100);
    assert_eq!(after.level, 1);
    assert_eq!(after.quests_completed, 1);

    approved_claimable(&mut env, "quest2", "GALICE", 7);
    EarnQuestContract::claim_reward(&mut env, s("quest2"), s("GALICE")).unwrap();
    assert_eq!(EarnQuestContract::get_user_stats(&env, s("GALICE")).xp, 200);
    assert_eq!(EarnQuestContract::get_user_stats(&env, s("GALICE")).quests_completed, 2);

    // a refused claim awards nothing
    assert_eq!(
        EarnQuestContract::claim_reward(&mut env, s("quest2"), s("GALICE")).err(),
        Some(Error::AlreadyClaimed)
    );
    assert_eq!(EarnQuestContract::get_user_stats(&env, s("GALICE")).xp, 200);
    assert_eq!(EarnQuestContract::get_user_stats(&env, s("GBOB")).xp, 0);
}

#[test]
fn payout_books_any_amount() {
    let mut env = setup();
    register(&mut env, "quest1", 100);
    EarnQuestContract::deposit_escrow(&mut env, s("quest1"), s("GCREATOR"), s("CTOKEN"), 100).unwrap();
    assert_eq!(
        earn_quest::escrow::record_payout(&mut env, &s("quest1"), &s("GALICE"), 30),
        Ok(())
    );
    assert_eq!(EarnQuestContract::get_escrow_balance(&env, s("quest1")), Ok(70));
    assert_eq!(
        earn_quest::escrow::record_payout(&mut env, &s("quest1"), &s("GALICE"), -40),
        Ok(())
    );
    assert_eq!(EarnQuestContract::get_escrow_balance(&env, s("quest1")), Ok(110));
    assert_eq!(
        EarnQuestContract::get_escrow_info(&env, s("quest1")).unwrap().total_paid_out,
        -10
    );
    assert_eq!(
        earn_quest::escrow::record_payout(&mut env, &s("quest1"), &s("GALICE"), 111),
        Err(Error::InsufficientEscrow)
    );
    assert_eq!(EarnQuestContract::get_escrow_balance(&env, s("quest1")), Ok(110));
    assert_eq!(
        earn_quest::escrow::record_payout(&mut env, &s("quest9"), &s("GALICE"), 1),
        Err(Error::EscrowNotFound)
    );
}

#[test]
fn open_dispute_checks_for_an_open_dispute_first() {
    let mut env = setup();
    register(&mut env, "quest1", 100);
    // a pending dispute on record, with no submission behind it
    storage::set_dispute(
        &mut env,
        &s("quest1"),
        &s("GALICE"),
        Dispute {
            quest_id: s("quest1"),
            initiator: s("GALICE"),
            arbitrator: s("GARB"),
            status: DisputeStatus::Pending,
            filed_at: 900,
        },
    );
    assert_eq!(
        EarnQuestContract::open_dispute(&mut env, s("quest1"), s("GALICE"), s("GARB2")).err(),
        Some(Error::DisputeAlreadyExists)
    );
    // once it is withdrawn the submission checks decide
    EarnQuestContract::withdraw_dispute(&mut env, s("quest1"), s("GALICE")).unwrap();
    assert_eq!(
        EarnQuestContract::open_dispute(&mut env, s("quest1"), s("GALICE"), s("GARB2")).err(),
        Some(Error::SubmissionNotFound)
    );
}

#[test]
fn aggregation_does_not_depend_on_order() {
    let env = Env::new(60, s("CCONTRACT"));
    let request = PriceFeedRequest {
        base_asset: s("CXLM"),
        quote_asset: s("CUSDC"),
        max_age_seconds: 300,
    };
    let c = |addr: &str, t: OracleType, m: u32, active: bool| OracleConfig {
        oracle_address: s(addr),
        oracle_type: t,
        max_age_seconds: 300,
        min_confidence: m,
        is_active: active,
    };
    let forward = vec![
        c("O1", OracleType::StellarAsset, 10, true),
        c("O2", OracleType::StellarOracle, 30, true),
        c("O3", OracleType::Custom, 20, true),
        c("O4", OracleType::Custom, 90, true),
        c("O5", OracleType::StellarAsset, 50, false),
    ];
    let mut backward = forward.clone();
    backward.reverse();
    let a = Oracle::get_aggregated_price(&env, &forward, &request).unwrap();
    let b = Oracle::get_aggregated_price(&env, &backward, &request).unwrap();
    // (1000 * 10 + 1050 * 30 + 1025 * 20) / 60 = 1033 (rounded down)
    assert_eq!(a.weighted_price.to_u128(), Some(1033));
    assert_eq!(b.weighted_price.to_u128(), Some(1033));
    assert_eq!(a.sources_used, b.sources_used);
    assert_eq!(a.total_sources, b.total_sources);
    assert_eq!(a.confidence_score, b.confidence_score);
    assert_eq!(a.confidence_score, 90);
}

#[test]
fn badges_are_granted_by_the_admin_once_each() {
    let mut env = setup();
    assert!(EarnQuestContract::get_user_badges(&env, s("GALICE")).badges.is_empty());
    assert_eq!(
        EarnQuestContract::grant_badge(&mut env, s("GMALLORY"), s("GALICE"), Badge::Rookie),
        Err(Error::Unauthorized)
    );
    assert!(EarnQuestContract::get_user_badges(&env, s("GALICE")).badges.is_empty());
    EarnQuestContract::grant_badge(&mut env, s("GADMIN"), s("GALICE"), Badge::Rookie).unwrap();
    EarnQuestContract::grant_badge(&mut env, s("GADMIN"), s("GALICE"), Badge::Veteran).unwrap();
    EarnQuestContract::grant_badge(&mut env, s("GADMIN"), s("GALICE"), Badge::Rookie).unwrap();
    assert_eq!(
        EarnQuestContract::get_user_badges(&env, s("GALICE")).badges,
        vec![Badge::Rookie, Badge::Veteran]
    );
    assert!(EarnQuestContract::get_user_badges(&env, s("GBOB")).badges.is_empty());

    EarnQuestContract::emergency_pause(&mut env, s("GADMIN")).unwrap();
    assert_eq!(
        EarnQuestContract::grant_badge(&mut env, s("GADMIN"), s("GBOB"), Badge::Legend),
        Err(Error::ContractPaused)
    );
    assert!(EarnQuestContract::get_user_badges(&env, s("GBOB")).badges.is_empty());
}

#[test]
fn badge_collection_is_capped() {
    let mut env = setup();
    let full: Vec<Badge> = (0..50).map(|_| Badge::Explorer).collect();
    storage::set_user_badges(&mut env, &s("GALICE"), full);
    assert_eq!(
        EarnQuestContract::grant_badge(&mut env, s("GADMIN"), s("GALICE"), Badge::Master),
        Err(Error::BadgeLimitReached)
    );
    // the cap is checked before the caller
    assert_eq!(
        EarnQuestContract::grant_badge(&mut env, s("GMALLORY"), s("GALICE"), Badge::Master),
        Err(Error::BadgeLimitReached)
    );
    assert_eq!(EarnQuestContract::get_user_badges(&env, s("GALICE")).badges.len(), 50);
}
