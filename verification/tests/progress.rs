use lesson_rewards::errors::ErrorCode;
use lesson_rewards::events::{IssuanceOutcome, LessonCompleted, NftMinted};
use lesson_rewards::ids::AccountId;
use lesson_rewards::record::CURRICULUM_SIZE;
use lesson_rewards::store::ProgressStore;

fn learner() -> AccountId {
    AccountId::new(1, 2, 3, 4)
}

fn other_learner() -> AccountId {
    AccountId::new(5, 6, 7, 8)
}

fn badge(n: u64) -> AccountId {
    AccountId::new(100 + n, 0, 0, 0)
}

#[test]
fn fresh_record_is_blank() {
    let u = learner();
    let mut s = ProgressStore::new();
    assert!(s.get(u).is_none());
    assert_eq!(s.initialize_user(u), Ok(()));
    let rec = s.get(u).unwrap();
    assert_eq!(rec.user, u);
    for i in 0..CURRICULUM_SIZE as u8 {
        assert!(!rec.completed(i));
        assert!(!rec.claimed(i));
    }
}

#[test]
fn duplicate_initialization_is_refused() {
    let u = learner();
    let mut s = ProgressStore::new();
    assert_eq!(s.initialize_user(u), Ok(()));
    assert_eq!(s.initialize_user(u), Err(ErrorCode::RecordAlreadyExists));
    // The refusal did not reset anything recorded meanwhile.
    s.complete_lesson(u, 2).unwrap();
    assert_eq!(s.initialize_user(u), Err(ErrorCode::RecordAlreadyExists));
    assert!(s.get(u).unwrap().completed(2));
}

#[test]
fn completing_a_lesson_emits_the_fact_once() {
    let u = learner();
    let mut s = ProgressStore::new();
    s.initialize_user(u).unwrap();
    assert_eq!(
        s.complete_lesson(u, 0),
        Ok(LessonCompleted { user: u, lesson_id: 0 })
    );
    assert!(s.get(u).unwrap().completed(0));
    assert_eq!(s.complete_lesson(u, 0), Err(ErrorCode::LessonAlreadyCompleted));
    assert!(s.get(u).unwrap().completed(0));
}

#[test]
fn lesson_id_outside_curriculum_is_invalid() {
    let u = learner();
    let mut s = ProgressStore::new();
    s.initialize_user(u).unwrap();
    assert_eq!(s.complete_lesson(u, 7), Err(ErrorCode::InvalidLessonId));
    assert_eq!(s.complete_lesson(u, 5), Err(ErrorCode::InvalidLessonId));
    assert_eq!(
        s.mint_nft_reward(u, 5, IssuanceOutcome::Issued { mint: badge(0) }),
        Err(ErrorCode::InvalidLessonId)
    );
}

#[test]
fn operations_on_unknown_learner_fail() {
    let u = learner();
    let mut s = ProgressStore::new();
    assert_eq!(s.complete_lesson(u, 0), Err(ErrorCode::RecordNotFound));
    assert_eq!(
        s.mint_nft_reward(u, 0, IssuanceOutcome::Issued { mint: badge(0) }),
        Err(ErrorCode::RecordNotFound)
    );
    assert_eq!(s.reward_eligibility(u, 0), Err(ErrorCode::RecordNotFound));
}

#[test]
fn reward_before_completion_is_refused() {
    let u = learner();
    let mut s = ProgressStore::new();
    s.initialize_user(u).unwrap();
    assert_eq!(s.reward_eligibility(u, 0), Err(ErrorCode::LessonNotCompleted));
    assert_eq!(
        s.mint_nft_reward(u, 0, IssuanceOutcome::Issued { mint: badge(0) }),
        Err(ErrorCode::LessonNotCompleted)
    );
    assert!(!s.get(u).unwrap().claimed(0));
}

#[test]
fn reward_after_completion_is_claimed_once() {
    let u = learner();
    let m = badge(0);
    let mut s = ProgressStore::new();
    s.initialize_user(u).unwrap();
    s.complete_lesson(u, 0).unwrap();
    assert_eq!(s.reward_eligibility(u, 0), Ok(()));
    assert_eq!(
        s.mint_nft_reward(u, 0, IssuanceOutcome::Issued { mint: m }),
        Ok(NftMinted { user: u, lesson_id: 0, mint: m })
    );
    assert!(s.get(u).unwrap().claimed(0));
    assert_eq!(
        s.mint_nft_reward(u, 0, IssuanceOutcome::Issued { mint: badge(1) }),
        Err(ErrorCode::NftAlreadyClaimed)
    );
    assert_eq!(s.reward_eligibility(u, 0), Err(ErrorCode::NftAlreadyClaimed));
}

#[test]
fn failed_issuance_leaves_no_trace() {
    let u = learner();
    let mut s = ProgressStore::new();
    s.initialize_user(u).unwrap();
    s.complete_lesson(u, 3).unwrap();
    let before = s.get(u).unwrap();
    assert_eq!(
        s.mint_nft_reward(u, 3, IssuanceOutcome::Failed),
        Err(ErrorCode::IssuanceServiceFailure)
    );
    // The retry sees exactly the state the failed attempt saw.
    let after = s.get(u).unwrap();
    for i in 0..CURRICULUM_SIZE as u8 {
        assert_eq!(before.completed(i), after.completed(i));
        assert_eq!(before.claimed(i), after.claimed(i));
    }
    assert_eq!(s.reward_eligibility(u, 3), Ok(()));
    assert_eq!(
        s.mint_nft_reward(u, 3, IssuanceOutcome::Issued { mint: badge(3) }),
        Ok(NftMinted { user: u, lesson_id: 3, mint: badge(3) })
    );
}

#[test]
fn competing_claims_issue_exactly_one_token() {
    // Serialized competing attempts for the same (user, lesson): each checks
    // eligibility, only an eligible attempt invokes the issuance service.
    let u = learner();
    let mut s = ProgressStore::new();
    s.initialize_user(u).unwrap();
    s.complete_lesson(u, 1).unwrap();
    let mut service_calls: usize = 0;
    let mut successes: usize = 0;
    let mut already_claimed: usize = 0;
    for n in 0..4u64 {
        let outcome = if s.reward_eligibility(u, 1).is_ok() {
            service_calls += 1;
            IssuanceOutcome::Issued { mint: badge(n) }
        } else {
            IssuanceOutcome::Failed
        };
        match s.mint_nft_reward(u, 1, outcome) {
            Ok(_) => successes += 1,
            Err(ErrorCode::NftAlreadyClaimed) => already_claimed += 1,
            Err(e) => panic!("unexpected error: {:?}", e),
        }
    }
    assert_eq!(service_calls, 1);
    assert_eq!(successes, 1);
    assert_eq!(already_claimed, 3);
}

#[test]
fn claimed_rewards_always_rest_on_completions() {
    let u = learner();
    let v = other_learner();
    let mut s = ProgressStore::new();
    s.initialize_user(u).unwrap();
    s.initialize_user(v).unwrap();
    s.complete_lesson(u, 0).unwrap();
    s.complete_lesson(u, 2).unwrap();
    s.complete_lesson(v, 4).unwrap();
    s.mint_nft_reward(u, 2, IssuanceOutcome::Issued { mint: badge(2) })
        .unwrap();
    s.mint_nft_reward(v, 4, IssuanceOutcome::Issued { mint: badge(4) })
        .unwrap();
    for user in [u, v] {
        let rec = s.get(user).unwrap();
        for i in 0..CURRICULUM_SIZE as u8 {
            if rec.claimed(i) {
                assert!(rec.completed(i));
            }
        }
    }
}

#[test]
fn learners_are_independent() {
    let u = learner();
    let v = other_learner();
    let mut s = ProgressStore::new();
    s.initialize_user(u).unwrap();
    s.initialize_user(v).unwrap();
    s.complete_lesson(u, 0).unwrap();
    assert!(!s.get(v).unwrap().completed(0));
    assert_eq!(
        s.mint_nft_reward(v, 0, IssuanceOutcome::Issued { mint: badge(0) }),
        Err(ErrorCode::LessonNotCompleted)
    );
    assert!(s.get(u).unwrap().completed(0));
    assert_eq!(s.get(v).unwrap().user, v);
    assert_eq!(s.get(u).unwrap().user, u);
}

#[test]
fn whole_curriculum_can_be_completed_and_claimed() {
    let u = learner();
    let mut s = ProgressStore::new();
    s.initialize_user(u).unwrap();
    for i in 0..CURRICULUM_SIZE as u8 {
        assert_eq!(
            s.complete_lesson(u, i),
            Ok(LessonCompleted { user: u, lesson_id: i })
        );
        assert_eq!(
            s.mint_nft_reward(u, i, IssuanceOutcome::Issued { mint: badge(i as u64) }),
            Ok(NftMinted { user: u, lesson_id: i, mint: badge(i as u64) })
        );
    }
    let rec = s.get(u).unwrap();
    for i in 0..CURRICULUM_SIZE as u8 {
        assert!(rec.completed(i));
        assert!(rec.claimed(i));
    }
}

#[test]
fn completion_stands_across_later_operations() {
    let u = learner();
    let mut s = ProgressStore::new();
    s.initialize_user(u).unwrap();
    s.complete_lesson(u, 0).unwrap();
    s.complete_lesson(u, 1).unwrap();
    s.mint_nft_reward(u, 0, IssuanceOutcome::Issued { mint: badge(0) })
        .unwrap();
    s.initialize_user(other_learner()).unwrap();
    s.mint_nft_reward(u, 1, IssuanceOutcome::Failed).ok();
    assert!(s.get(u).unwrap().completed(0));
    assert_eq!(s.complete_lesson(u, 0), Err(ErrorCode::LessonAlreadyCompleted));
}
