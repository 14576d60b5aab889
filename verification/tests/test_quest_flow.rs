use earn_quest::contract::EarnQuestContract;
use earn_quest::errors::Error;
use earn_quest::storage::{self, Env};
use earn_quest::types::{
    BatchApprovalInput, BatchQuestInput, DisputeStatus, MetadataDescription, QuestMetadata,
    QuestStatus, SubmissionStatus,
};

fn s(x: &str) -> String {
    String::from(x)
}

fn setup() -> Env {
    let mut env = Env::new(1_000, s("CCONTRACT"));
    EarnQuestContract::initialize(&mut env, s("GADMIN"));
    env
}

fn register(env: &mut Env, id: &str, reward: i128) {
    EarnQuestContract::register_quest(
        env,
        s(id),
        s("GCREATOR"),
        s("CTOKEN"),
        reward,
        s("GVERIFIER"),
        5_000,
    )
    .unwrap();
}

#[test]
fn register_and_read_quest() {
    let mut env = setup();
    register(&mut env, "quest1", 100);
    let q = EarnQuestContract::get_quest(&env, s("quest1")).unwrap();
    assert_eq!(q.creator, "GCREATOR");
    assert_eq!(q.reward_amount, 100);
    assert_eq!(q.status, QuestStatus::Active);
    assert_eq!(q.total_claims, 0);
    assert_eq!(EarnQuestContract::get_platform_stats(&env).total_quests_created, 1);
    assert_eq!(
        EarnQuestContract::get_quest(&env, s("nope")).err(),
        Some(Error::QuestNotFound)
    );
}

#[test]
fn register_rejects_bad_input() {
    let mut env = setup();
    let r = |env: &mut Env, id: &str, creator: &str, amount: i128, verifier: &str, deadline: u64| {
        EarnQuestContract::register_quest(
            env,
            s(id),
            s(creator),
            s("CTOKEN"),
            amount,
            s(verifier),
            deadline,
        )
    };
    assert_eq!(r(&mut env, "", "GC", 10, "GV", 5_000), Err(Error::InvalidSymbol));
    assert_eq!(
        r(&mut env, "abcdefghijabcdefghijabcdefghijabc", "GC", 10, "GV", 5_000),
        Err(Error::InvalidSymbol)
    );
    assert_eq!(r(&mut env, "q", "GC", 10, "GC", 5_000), Err(Error::AddressesNotDistinct));
    assert_eq!(r(&mut env, "q", "GC", 0, "GV", 5_000), Err(Error::InvalidRewardAmount));
    assert_eq!(r(&mut env, "q", "GC", 10, "GV", 1_000), Err(Error::InvalidDeadline));
    assert_eq!(r(&mut env, "q", "GC", 10, "GV", 5_000), Ok(()));
    assert_eq!(r(&mut env, "q", "GC", 10, "GV", 5_000), Err(Error::QuestAlreadyExists));
    assert_eq!(EarnQuestContract::get_platform_stats(&env).total_quests_created, 1);
}

#[test]
fn deposit_tops_up_escrow() {
    let mut env = setup();
    register(&mut env, "quest1", 100);
    let t = EarnQuestContract::deposit_escrow(&mut env, s("quest1"), s("GCREATOR"), s("CTOKEN"), 250)
        .unwrap();
    assert_eq!(t.from, "GCREATOR");
    assert_eq!(t.to, "CCONTRACT");
    assert_eq!(t.token, "CTOKEN");
    assert_eq!(t.amount, 250);
    EarnQuestContract::deposit_escrow(&mut env, s("quest1"), s("GCREATOR"), s("CTOKEN"), 50).unwrap();
    assert_eq!(EarnQuestContract::get_escrow_balance(&env, s("quest1")), Ok(300));
    let info = EarnQuestContract::get_escrow_info(&env, s("quest1")).unwrap();
    assert_eq!(info.total_deposited, 300);
    assert_eq!(info.deposit_count, 2);
    assert_eq!(info.depositor, "GCREATOR");
    assert_eq!(info.created_at, 1_000);
    assert!(info.is_active);
}

#[test]
fn deposit_errors() {
    let mut env = setup();
    register(&mut env, "quest1", 100);
    let d = |env: &mut Env, id: &str, who: &str, token: &str, amount: i128| {
        EarnQuestContract::deposit_escrow(env, s(id), s(who), s(token), amount).map(|_| ())
    };
    assert_eq!(d(&mut env, "quest1", "GCREATOR", "CTOKEN", 0), Err(Error::InvalidRewardAmount));
    assert_eq!(d(&mut env, "other", "GCREATOR", "CTOKEN", 10), Err(Error::QuestNotFound));
    assert_eq!(d(&mut env, "quest1", "GSTRANGER", "CTOKEN", 10), Err(Error::Unauthorized));
    assert_eq!(d(&mut env, "quest1", "GCREATOR", "COTHER", 10), Err(Error::TokenMismatch));
    assert_eq!(
        EarnQuestContract::get_escrow_balance(&env, s("quest1")),
        Err(Error::EscrowNotFound)
    );
    EarnQuestContract::cancel_quest(&mut env, s("quest1"), s("GCREATOR")).unwrap();
    assert_eq!(d(&mut env, "quest1", "GCREATOR", "CTOKEN", 10), Err(Error::QuestNotActive));
}

#[test]
fn claim_reward_pays_once() {
    let mut env = setup();
    register(&mut env, "quest1", 100);
    EarnQuestContract::deposit_escrow(&mut env, s("quest1"), s("GCREATOR"), s("CTOKEN"), 250).unwrap();
    EarnQuestContract::submit_proof(&mut env, s("quest1"), s("GALICE"), [7u8; 32]).unwrap();
    let sub = EarnQuestContract::get_submission(&env, s("quest1"), s("GALICE")).unwrap();
    assert_eq!(sub.status, SubmissionStatus::Pending);
    assert_eq!(sub.timestamp, 1_000);
    assert_eq!(sub.proof_hash, [7u8; 32]);
    assert_eq!(
        EarnQuestContract::claim_reward(&mut env, s("quest1"), s("GALICE")).err(),
        Some(Error::InvalidStatusTransition)
    );
    assert_eq!(
        EarnQuestContract::approve_submission(&mut env, s("quest1"), s("GALICE"), s("GMALLORY")),
        Err(Error::Unauthorized)
    );
    EarnQuestContract::approve_submission(&mut env, s("quest1"), s("GALICE"), s("GVERIFIER")).unwrap();
    let t = EarnQuestContract::claim_reward(&mut env, s("quest1"), s("GALICE")).unwrap();
    assert_eq!(t.from, "CCONTRACT");
    assert_eq!(t.to, "GALICE");
    assert_eq!(t.amount, 100);
    assert_eq!(EarnQuestContract::get_escrow_balance(&env, s("quest1")), Ok(150));
    assert_eq!(EarnQuestContract::get_quest(&env, s("quest1")).unwrap().total_claims, 1);
    assert_eq!(
        EarnQuestContract::get_submission(&env, s("quest1"), s("GALICE")).unwrap().status,
        SubmissionStatus::Paid
    );
    assert_eq!(
        EarnQuestContract::claim_reward(&mut env, s("quest1"), s("GALICE")).err(),
        Some(Error::AlreadyClaimed)
    );
    let stats = EarnQuestContract::get_platform_stats(&env);
    assert_eq!(stats.total_rewards_claimed, 1);
    assert_eq!(stats.total_submissions, 1);
}

#[test]
fn claim_needs_escrow() {
    let mut env = setup();
    register(&mut env, "quest1", 100);
    EarnQuestContract::submit_proof(&mut env, s("quest1"), s("GALICE"), [1u8; 32]).unwrap();
    EarnQuestContract::approve_submission(&mut env, s("quest1"), s("GALICE"), s("GVERIFIER")).unwrap();
    assert_eq!(
        EarnQuestContract::claim_reward(&mut env, s("quest1"), s("GALICE")).err(),
        Some(Error::EscrowNotFound)
    );
    // nothing changed
    assert_eq!(
        EarnQuestContract::get_submission(&env, s("quest1"), s("GALICE")).unwrap().status,
        SubmissionStatus::Approved
    );
    assert_eq!(EarnQuestContract::get_quest(&env, s("quest1")).unwrap().total_claims, 0);
    assert_eq!(
        EarnQuestContract::claim_reward(&mut env, s("quest1"), s("GBOB")).err(),
        Some(Error::SubmissionNotFound)
    );
}

#[test]
fn approval_needs_enough_escrow() {
    let mut env = setup();
    register(&mut env, "quest1", 100);
    EarnQuestContract::deposit_escrow(&mut env, s("quest1"), s("GCREATOR"), s("CTOKEN"), 60).unwrap();
    EarnQuestContract::submit_proof(&mut env, s("quest1"), s("GALICE"), [1u8; 32]).unwrap();
    assert_eq!(
        EarnQuestContract::approve_submission(&mut env, s("quest1"), s("GALICE"), s("GVERIFIER")),
        Err(Error::InsufficientEscrow)
    );
    assert_eq!(
        EarnQuestContract::approve_submission(&mut env, s("quest1"), s("GBOB"), s("GVERIFIER")),
        Err(Error::SubmissionNotFound)
    );
}

#[test]
fn submit_proof_checks_quest() {
    let mut env = setup();
    assert_eq!(
        EarnQuestContract::submit_proof(&mut env, s("quest1"), s("GALICE"), [0u8; 32]),
        Err(Error::QuestNotFound)
    );
    register(&mut env, "quest1", 100);
    EarnQuestContract::pause_quest(&mut env, s("GADMIN"), s("quest1")).unwrap();
    assert_eq!(
        EarnQuestContract::submit_proof(&mut env, s("quest1"), s("GALICE"), [0u8; 32]),
        Err(Error::QuestNotActive)
    );
    EarnQuestContract::resume_quest(&mut env, s("GADMIN"), s("quest1")).unwrap();
    env.set_timestamp(5_001);
    assert_eq!(
        EarnQuestContract::submit_proof(&mut env, s("quest1"), s("GALICE"), [0u8; 32]),
        Err(Error::QuestExpired)
    );
    env.set_timestamp(5_000);
    assert_eq!(
        EarnQuestContract::submit_proof(&mut env, s("quest1"), s("GALICE"), [0u8; 32]),
        Ok(())
    );
}

#[test]
fn pause_and_resume_are_admin_only() {
    let mut env = setup();
    register(&mut env, "quest1", 100);
    assert_eq!(
        EarnQuestContract::pause_quest(&mut env, s("GCREATOR"), s("quest1")),
        Err(Error::Unauthorized)
    );
    assert_eq!(
        EarnQuestContract::resume_quest(&mut env, s("GADMIN"), s("quest1")),
        Err(Error::InvalidStatusTransition)
    );
    assert_eq!(EarnQuestContract::pause_quest(&mut env, s("GADMIN"), s("quest1")), Ok(()));
    assert_eq!(
        EarnQuestContract::get_quest(&env, s("quest1")).unwrap().status,
        QuestStatus::Paused
    );
    assert_eq!(
        EarnQuestContract::pause_quest(&mut env, s("GADMIN"), s("missing")),
        Err(Error::QuestNotFound)
    );
    assert!(EarnQuestContract::is_admin(&env, s("GADMIN")));
    assert!(!EarnQuestContract::is_admin(&env, s("GCREATOR")));
    assert_eq!(EarnQuestContract::get_admin(&env), "GADMIN");
}

#[test]
fn cancel_refunds_and_blocks_second_withdrawal() {
    let mut env = setup();
    register(&mut env, "quest1", 100);
    EarnQuestContract::deposit_escrow(&mut env, s("quest1"), s("GCREATOR"), s("CTOKEN"), 300).unwrap();
    assert_eq!(
        EarnQuestContract::cancel_quest(&mut env, s("quest1"), s("GALICE")).err(),
        Some(Error::Unauthorized)
    );
    assert_eq!(
        EarnQuestContract::withdraw_unclaimed(&mut env, s("quest1"), s("GCREATOR")).err(),
        Some(Error::QuestNotTerminal)
    );
    let (refunded, transfer) =
        EarnQuestContract::cancel_quest(&mut env, s("quest1"), s("GCREATOR")).unwrap();
    assert_eq!(refunded, 300);
    let t = transfer.unwrap();
    assert_eq!(t.from, "CCONTRACT");
    assert_eq!(t.to, "GCREATOR");
    assert_eq!(t.amount, 300);
    assert_eq!(
        EarnQuestContract::get_quest(&env, s("quest1")).unwrap().status,
        QuestStatus::Cancelled
    );
    let info = EarnQuestContract::get_escrow_info(&env, s("quest1")).unwrap();
    assert!(!info.is_active);
    assert_eq!(info.total_refunded, 300);
    assert_eq!(EarnQuestContract::get_escrow_balance(&env, s("quest1")), Ok(0));
    assert_eq!(
        EarnQuestContract::withdraw_unclaimed(&mut env, s("quest1"), s("GCREATOR")).err(),
        Some(Error::NoFundsToWithdraw)
    );
    assert_eq!(
        EarnQuestContract::cancel_quest(&mut env, s("quest1"), s("GCREATOR")).err(),
        Some(Error::QuestNotActive)
    );
}

#[test]
fn cancel_without_escrow_refunds_nothing() {
    let mut env = setup();
    register(&mut env, "quest1", 100);
    let (refunded, transfer) =
        EarnQuestContract::cancel_quest(&mut env, s("quest1"), s("GCREATOR")).unwrap();
    assert_eq!(refunded, 0);
    assert!(transfer.is_none());
    assert_eq!(
        EarnQuestContract::withdraw_unclaimed(&mut env, s("quest1"), s("GCREATOR")).err(),
        Some(Error::EscrowNotFound)
    );
}

#[test]
fn expire_waits_for_deadline_and_buffer() {
    let mut env = setup();
    register(&mut env, "quest1", 100);
    EarnQuestContract::deposit_escrow(&mut env, s("quest1"), s("GCREATOR"), s("CTOKEN"), 120).unwrap();
    env.set_timestamp(5_060);
    assert_eq!(
        EarnQuestContract::expire_quest(&mut env, s("quest1"), s("GCREATOR")).err(),
        Some(Error::QuestNotActive)
    );
    env.set_timestamp(5_061);
    let (refunded, _) = EarnQuestContract::expire_quest(&mut env, s("quest1"), s("GCREATOR")).unwrap();
    assert_eq!(refunded, 120);
    assert_eq!(
        EarnQuestContract::get_quest(&env, s("quest1")).unwrap().status,
        QuestStatus::Expired
    );
}

#[test]
fn withdraw_unclaimed_after_partial_payout() {
    let mut env = setup();
    register(&mut env, "quest1", 100);
    EarnQuestContract::deposit_escrow(&mut env, s("quest1"), s("GCREATOR"), s("CTOKEN"), 250).unwrap();
    EarnQuestContract::submit_proof(&mut env, s("quest1"), s("GALICE"), [1u8; 32]).unwrap();
    EarnQuestContract::approve_submission(&mut env, s("quest1"), s("GALICE"), s("GVERIFIER")).unwrap();
    EarnQuestContract::claim_reward(&mut env, s("quest1"), s("GALICE")).unwrap();
    // mark the quest completed is not offered; cancel refunds the rest
    let (refunded, _) = EarnQuestContract::cancel_quest(&mut env, s("quest1"), s("GCREATOR")).unwrap();
    assert_eq!(refunded, 150);
    let info = EarnQuestContract::get_escrow_info(&env, s("quest1")).unwrap();
    assert_eq!(info.total_paid_out, 100);
    assert_eq!(info.total_refunded, 150);
    assert_eq!(info.total_deposited, 250);
}

#[test]
fn dispute_lifecycle() {
    let mut env = setup();
    register(&mut env, "quest1", 100);
    assert_eq!(
        EarnQuestContract::open_dispute(&mut env, s("quest1"), s("GALICE"), s("GARB")).err(),
        Some(Error::SubmissionNotFound)
    );
    EarnQuestContract::submit_proof(&mut env, s("quest1"), s("GALICE"), [1u8; 32]).unwrap();
    assert_eq!(
        EarnQuestContract::open_dispute(&mut env, s("quest1"), s("GALICE"), s("GARB")).err(),
        Some(Error::SubmissionNotRejected)
    );
    EarnQuestContract::reject_submission(&mut env, s("quest1"), s("GALICE"), s("GVERIFIER")).unwrap();
    env.set_timestamp(1_234);
    let d = EarnQuestContract::open_dispute(&mut env, s("quest1"), s("GALICE"), s("GARB")).unwrap();
    assert_eq!(d.status, DisputeStatus::Pending);
    assert_eq!(d.filed_at, 1_234);
    assert_eq!(d.arbitrator, "GARB");
    assert_eq!(
        EarnQuestContract::open_dispute(&mut env, s("quest1"), s("GALICE"), s("GARB")).err(),
        Some(Error::DisputeAlreadyExists)
    );
    assert_eq!(
        EarnQuestContract::resolve_dispute(&mut env, s("quest1"), s("GALICE"), s("GOTHER")),
        Err(Error::DisputeNotAuthorized)
    );
    assert_eq!(
        EarnQuestContract::resolve_dispute(&mut env, s("quest1"), s("GALICE"), s("GARB")),
        Ok(())
    );
    assert_eq!(
        EarnQuestContract::get_dispute(&env, s("quest1"), s("GALICE")).unwrap().status,
        DisputeStatus::Resolved
    );
    assert_eq!(
        EarnQuestContract::resolve_dispute(&mut env, s("quest1"), s("GALICE"), s("GARB")),
        Err(Error::DisputeNotPending)
    );
    assert_eq!(
        EarnQuestContract::withdraw_dispute(&mut env, s("quest1"), s("GALICE")),
        Err(Error::DisputeNotPending)
    );
    // a closed dispute may be opened again
    let d2 = EarnQuestContract::open_dispute(&mut env, s("quest1"), s("GALICE"), s("GARB2")).unwrap();
    assert_eq!(d2.arbitrator, "GARB2");
    assert_eq!(
        EarnQuestContract::withdraw_dispute(&mut env, s("quest1"), s("GALICE")),
        Ok(())
    );
    assert_eq!(
        EarnQuestContract::get_dispute(&env, s("quest1"), s("GALICE")).unwrap().status,
        DisputeStatus::Withdrawn
    );
    assert_eq!(
        EarnQuestContract::get_dispute(&env, s("quest1"), s("GBOB")).err(),
        Some(Error::DisputeNotFound)
    );
    assert_eq!(
        EarnQuestContract::withdraw_dispute(&mut env, s("quest1"), s("GBOB")),
        Err(Error::DisputeNotFound)
    );
    assert!(!earn_quest::dispute::has_active_dispute(&env, &s("quest1"), &s("GALICE")));
}

#[test]
fn batch_approval_is_all_or_nothing() {
    let mut env = setup();
    register(&mut env, "quest1", 100);
    register(&mut env, "quest2", 100);
    for who in ["GALICE", "GBOB"] {
        EarnQuestContract::submit_proof(&mut env, s("quest1"), s(who), [1u8; 32]).unwrap();
        EarnQuestContract::submit_proof(&mut env, s("quest2"), s(who), [2u8; 32]).unwrap();
    }
    let item = |q: &str, w: &str| BatchApprovalInput { quest_id: s(q), submitter: s(w) };
    assert_eq!(
        EarnQuestContract::approve_submissions_batch(&mut env, s("GVERIFIER"), vec![]),
        Err(Error::InvalidBatchSize)
    );
    assert_eq!(
        EarnQuestContract::approve_submissions_batch(
            &mut env,
            s("GVERIFIER"),
            vec![item("quest1", "GALICE"), item("quest1", "GVERIFIER")]
        ),
        Err(Error::AddressesNotDistinct)
    );
    assert_eq!(
        EarnQuestContract::approve_submissions_batch(
            &mut env,
            s("GVERIFIER"),
            vec![item("quest1", "GALICE"), item("quest2", "GBOB"), item("quest1", "GALICE")]
        ),
        Err(Error::InvalidStatusTransition)
    );
    assert_eq!(
        EarnQuestContract::get_submission(&env, s("quest1"), s("GALICE")).unwrap().status,
        SubmissionStatus::Pending
    );
    assert_eq!(
        EarnQuestContract::approve_submissions_batch(
            &mut env,
            s("GVERIFIER"),
            vec![item("quest1", "GALICE"), item("quest9", "GBOB")]
        ),
        Err(Error::QuestNotFound)
    );
    assert_eq!(
        EarnQuestContract::approve_submissions_batch(
            &mut env,
            s("GVERIFIER"),
            vec![item("quest1", "GALICE"), item("quest2", "GBOB")]
        ),
        Ok(())
    );
    assert_eq!(
        EarnQuestContract::get_submission(&env, s("quest1"), s("GALICE")).unwrap().status,
        SubmissionStatus::Approved
    );
    assert_eq!(
        EarnQuestContract::get_submission(&env, s("quest2"), s("GBOB")).unwrap().status,
        SubmissionStatus::Approved
    );
    assert_eq!(
        EarnQuestContract::get_submission(&env, s("quest1"), s("GBOB")).unwrap().status,
        SubmissionStatus::Pending
    );
    let many: Vec<BatchApprovalInput> = (0..51).map(|_| item("quest1", "GBOB")).collect();
    assert_eq!(
        EarnQuestContract::approve_submissions_batch(&mut env, s("GVERIFIER"), many),
        Err(Error::InvalidBatchSize)
    );
}

#[test]
fn quest_queries_page_in_registration_order() {
    let mut env = setup();
    for (i, id) in ["q1", "q2", "q3", "q4", "q5"].iter().enumerate() {
        register(&mut env, id, 10 * (i as i128 + 1));
    }
    EarnQuestContract::pause_quest(&mut env, s("GADMIN"), s("q2")).unwrap();
    let active = EarnQuestContract::get_active_quests(&env, 0, 10);
    let ids: Vec<String> = active.iter().map(|q| q.id.clone()).collect();
    assert_eq!(ids, vec!["q1", "q3", "q4", "q5"]);
    let page = EarnQuestContract::get_active_quests(&env, 1, 2);
    let ids: Vec<String> = page.iter().map(|q| q.id.clone()).collect();
    assert_eq!(ids, vec!["q3", "q4"]);
    assert!(EarnQuestContract::get_active_quests(&env, 10, 2).is_empty());
    let paused = EarnQuestContract::get_quests_by_status(&env, QuestStatus::Paused, 0, 5);
    assert_eq!(paused.len(), 1);
    assert_eq!(paused[0].id, "q2");
    let ranged = EarnQuestContract::get_quests_by_reward_range(&env, 20, 40, 0, 10);
    let ids: Vec<String> = ranged.iter().map(|q| q.id.clone()).collect();
    assert_eq!(ids, vec!["q2", "q3", "q4"]);
    assert_eq!(EarnQuestContract::get_quests_by_creator(&env, s("GCREATOR"), 0, 3).len(), 3);
    assert!(EarnQuestContract::get_quests_by_creator(&env, s("GNOBODY"), 0, 3).is_empty());
}

#[test]
fn platform_stats_reset_is_admin_only() {
    let mut env = setup();
    register(&mut env, "quest1", 100);
    assert_eq!(
        EarnQuestContract::reset_platform_stats(&mut env, s("GCREATOR")),
        Err(Error::Unauthorized)
    );
    assert_eq!(EarnQuestContract::get_platform_stats(&env).total_quests_created, 1);
    assert_eq!(EarnQuestContract::reset_platform_stats(&mut env, s("GADMIN")), Ok(()));
    assert_eq!(EarnQuestContract::get_platform_stats(&env).total_quests_created, 0);
}

#[test]
fn escrow_inactive_after_refund_blocks_deposit_and_payout() {
    let mut env = Env::new(100, s("CCONTRACT"));
    EarnQuestContract::register_quest(&mut env, s("q"), s("GC"), s("CT"), 5, s("GV"), 900).unwrap();
    EarnQuestContract::deposit_escrow(&mut env, s("q"), s("GC"), s("CT"), 5).unwrap();
    assert_eq!(storage::has_escrow(&env, &s("q")), true);
    assert_eq!(earn_quest::escrow::validate_sufficient(&env, &s("q"), 5), Ok(()));
    assert_eq!(
        earn_quest::escrow::validate_sufficient(&env, &s("q"), 6),
        Err(Error::InsufficientEscrow)
    );
    EarnQuestContract::cancel_quest(&mut env, s("q"), s("GC")).unwrap();
    assert_eq!(
        earn_quest::escrow::validate_sufficient(&env, &s("q"), 0),
        Err(Error::EscrowInactive)
    );
    assert_eq!(
        earn_quest::escrow::record_payout(&mut env, &s("q"), &s("GA"), 1),
        Err(Error::EscrowInactive)
    );
}

#[test]
fn batch_registration_is_all_or_nothing() {
    let mut env = setup();
    register(&mut env, "taken", 5);
    let input = |id: &str, amount: i128| BatchQuestInput {
        id: s(id),
        reward_asset: s("CTOKEN"),
        reward_amount: amount,
        verifier: s("GVERIFIER"),
        deadline: 9_000,
    };
    assert_eq!(
        EarnQuestContract::register_quests_batch(&mut env, s("GCREATOR"), vec![]),
        Err(Error::InvalidBatchSize)
    );
    assert_eq!(
        EarnQuestContract::register_quests_batch(
            &mut env,
            s("GCREATOR"),
            vec![input("a", 1), input("b", 2), input("a", 3)]
        ),
        Err(Error::QuestAlreadyExists)
    );
    assert_eq!(
        EarnQuestContract::register_quests_batch(&mut env, s("GCREATOR"), vec![input("a", 1), input("taken", 2)]),
        Err(Error::QuestAlreadyExists)
    );
    assert_eq!(
        EarnQuestContract::register_quests_batch(&mut env, s("GCREATOR"), vec![input("a", 1), input("b", 0)]),
        Err(Error::InvalidRewardAmount)
    );
    assert_eq!(
        EarnQuestContract::register_quests_batch(&mut env, s("GVERIFIER"), vec![input("a", 1)]),
        Err(Error::AddressesNotDistinct)
    );
    assert_eq!(EarnQuestContract::get_quest(&env, s("a")).err(), Some(Error::QuestNotFound));
    assert_eq!(
        EarnQuestContract::register_quests_batch(&mut env, s("GCREATOR"), vec![input("a", 1), input("b", 2)]),
        Ok(())
    );
    assert_eq!(EarnQuestContract::get_quest(&env, s("b")).unwrap().reward_amount, 2);
    assert_eq!(EarnQuestContract::get_quest(&env, s("a")).unwrap().creator, "GCREATOR");
    assert_eq!(EarnQuestContract::get_platform_stats(&env).total_quests_created, 3);
    let all = EarnQuestContract::get_active_quests(&env, 0, 10);
    let ids: Vec<String> = all.iter().map(|q| q.id.clone()).collect();
    assert_eq!(ids, vec!["taken", "a", "b"]);
}

#[test]
fn metadata_is_kept_per_quest() {
    let mut env = setup();
    let meta = QuestMetadata {
        title: s("Title"),
        description: MetadataDescription::Inline(s("Do the thing")),
        requirements: vec![s("r1")],
        category: s("dev"),
        tags: vec![s("t1"), s("t2")],
    };
    EarnQuestContract::register_quest_with_metadata(
        &mut env,
        s("quest1"),
        s("GCREATOR"),
        s("CTOKEN"),
        10,
        s("GVERIFIER"),
        5_000,
        meta,
    )
    .unwrap();
    assert!(EarnQuestContract::has_quest_metadata(&env, s("quest1")));
    let m = EarnQuestContract::get_quest_metadata(&env, s("quest1")).unwrap();
    assert_eq!(m.title, "Title");
    assert_eq!(m.tags.len(), 2);
    let new_meta = QuestMetadata {
        title: s("New"),
        description: MetadataDescription::Hash([9u8; 32]),
        requirements: vec![],
        category: s("ops"),
        tags: vec![],
    };
    assert_eq!(
        EarnQuestContract::update_quest_metadata(&mut env, s("quest1"), s("GOTHER"), new_meta),
        Err(Error::Unauthorized)
    );
    let new_meta = QuestMetadata {
        title: s("New"),
        description: MetadataDescription::Hash([9u8; 32]),
        requirements: vec![],
        category: s("ops"),
        tags: vec![],
    };
    assert_eq!(
        EarnQuestContract::update_quest_metadata(&mut env, s("quest1"), s("GCREATOR"), new_meta),
        Ok(())
    );
    assert_eq!(EarnQuestContract::get_quest_metadata(&env, s("quest1")).unwrap().title, "New");
    assert_eq!(
        EarnQuestContract::get_quest_metadata(&env, s("quest2")).err(),
        Some(Error::MetadataNotFound)
    );
    assert!(!EarnQuestContract::has_quest_metadata(&env, s("quest2")));
}

#[test]
fn terminal_quests_and_reviews_are_final() {
    let mut env = setup();
    register(&mut env, "quest1", 100);
    EarnQuestContract::submit_proof(&mut env, s("quest1"), s("GALICE"), [3u8; 32]).unwrap();
    EarnQuestContract::approve_submission(&mut env, s("quest1"), s("GALICE"), s("GVERIFIER")).unwrap();
    assert_eq!(
        EarnQuestContract::approve_submission(&mut env, s("quest1"), s("GALICE"), s("GVERIFIER")),
        Err(Error::InvalidStatusTransition)
    );
    assert_eq!(
        EarnQuestContract::reject_submission(&mut env, s("quest1"), s("GALICE"), s("GVERIFIER")),
        Err(Error::InvalidStatusTransition)
    );
    EarnQuestContract::cancel_quest(&mut env, s("quest1"), s("GCREATOR")).unwrap();
    assert_eq!(
        EarnQuestContract::pause_quest(&mut env, s("GADMIN"), s("quest1")),
        Err(Error::InvalidStatusTransition)
    );
    assert_eq!(
        EarnQuestContract::resume_quest(&mut env, s("GADMIN"), s("quest1")),
        Err(Error::InvalidStatusTransition)
    );
    assert_eq!(
        EarnQuestContract::expire_quest(&mut env, s("quest1"), s("GCREATOR")).err(),
        Some(Error::QuestNotActive)
    );
    assert_eq!(
        EarnQuestContract::get_quest(&env, s("quest1")).unwrap().status,
        QuestStatus::Cancelled
    );
}
