//! The laws of the progress state machine, stated and proved over the
//! store's specification functions.
//!
//! `evolves_to` (see `store`) captures every state change a guard can make:
//! each mutating operation ensures it, so any chain of operations relates
//! start and end state by it.  The lemmas here draw the global consequences:
//! recorded facts are permanent, a claimed reward always rests on a recorded
//! completion, a failed issuance changes nothing a retry could observe, and
//! once a claim commits every further attempt for the same lesson is
//! refused.

use vstd::prelude::*;
use crate::errors::ErrorCode;
use crate::ids::AccountId;
use crate::record::CURRICULUM_SIZE;
use crate::store::{evolves_to, ProgressStore};

verus! {

/// In every well-formed state — and every reachable state is well formed,
/// since each operation preserves `wf` — a claimed reward implies a recorded
/// completion for the same lesson.
pub proof fn lemma_claim_implies_completion(s: ProgressStore, user: AccountId, lesson_id: u8)
    requires
        s.wf(),
        s.spec_contains(user),
        (lesson_id as int) < CURRICULUM_SIZE,
        s.spec_record(user).spec_claimed(lesson_id as int),
    ensures
        s.spec_record(user).spec_completed(lesson_id as int),
{
    s.lemma_idx(user);
    assert(s@[s.spec_idx(user)].wf());
}

/// A reward is never issuable for a lesson whose completion was not
/// recorded: whenever the completion flag is unset, the issuance guard's
/// precondition check answers `LessonNotCompleted`.
pub proof fn lemma_no_reward_without_completion(s: ProgressStore, user: AccountId, lesson_id: u8)
    requires
        s.wf(),
        s.spec_contains(user),
        (lesson_id as int) < CURRICULUM_SIZE,
        !s.spec_record(user).spec_completed(lesson_id as int),
    ensures
        s.spec_eligibility(user, lesson_id) == Err::<(), ErrorCode>(ErrorCode::LessonNotCompleted),
{
}

/// Chains of guard operations compose: if `b` can arise from `a` and `c`
/// from `b`, then `c` can arise from `a`.
pub proof fn lemma_evolves_to_trans(a: ProgressStore, b: ProgressStore, c: ProgressStore)
    requires
        evolves_to(a, b),
        evolves_to(b, c),
    ensures
        evolves_to(a, c),
{
    assert forall|u: AccountId| #[trigger] a.spec_contains(u) implies c.spec_contains(u) by {
        assert(b.spec_contains(u));
    }
    assert forall|u: AccountId| a.spec_contains(u) implies #[trigger] c.spec_record(u).user
        == a.spec_record(u).user by {
        assert(b.spec_contains(u));
        assert(b.spec_record(u).user == a.spec_record(u).user);
    }
    assert forall|u: AccountId, i: int|
        0 <= i < CURRICULUM_SIZE && a.spec_contains(u) && #[trigger] a.spec_record(u)
            .spec_completed(i) implies c.spec_record(u).spec_completed(i) by {
        assert(b.spec_contains(u));
        assert(b.spec_record(u).spec_completed(i));
    }
    assert forall|u: AccountId, i: int|
        0 <= i < CURRICULUM_SIZE && a.spec_contains(u) && #[trigger] a.spec_record(u)
            .spec_claimed(i) implies c.spec_record(u).spec_claimed(i) by {
        assert(b.spec_contains(u));
        assert(b.spec_record(u).spec_claimed(i));
    }
}

/// Once a lesson stands completed, it stays completed in every state the
/// store can evolve to, and the completion guard's check there refuses the
/// repeated attempt with `LessonAlreadyCompleted`.
pub proof fn lemma_completion_is_permanent(
    pre: ProgressStore,
    post: ProgressStore,
    user: AccountId,
    lesson_id: u8,
)
    requires
        evolves_to(pre, post),
        pre.spec_contains(user),
        (lesson_id as int) < CURRICULUM_SIZE,
        pre.spec_record(user).spec_completed(lesson_id as int),
    ensures
        post.spec_contains(user),
        post.spec_record(user).spec_completed(lesson_id as int),
        post.spec_completion_check(user, lesson_id) == Err::<(), ErrorCode>(
            ErrorCode::LessonAlreadyCompleted,
        ),
{
}

/// Once a reward claim has committed, it stands in every state the store
/// can evolve to, and the issuance guard's check there refuses every further
/// attempt with `NftAlreadyClaimed`: in any serial order of issuance
/// attempts for one user and lesson, at most one can commit, so at most one
/// invocation of the external service is ever warranted.
pub proof fn lemma_claim_is_permanent(
    pre: ProgressStore,
    post: ProgressStore,
    user: AccountId,
    lesson_id: u8,
)
    requires
        pre.wf(),
        evolves_to(pre, post),
        pre.spec_contains(user),
        (lesson_id as int) < CURRICULUM_SIZE,
        pre.spec_record(user).spec_claimed(lesson_id as int),
    ensures
        post.spec_contains(user),
        post.spec_record(user).spec_claimed(lesson_id as int),
        post.spec_eligibility(user, lesson_id) == Err::<(), ErrorCode>(
            ErrorCode::NftAlreadyClaimed,
        ),
{
    lemma_claim_implies_completion(pre, user, lesson_id);
}

/// Two stores that hold the very same records judge every request alike: a
/// failed issuance leaves the store as it was, so the retried attempt
/// re-evaluates its preconditions exactly as the first one did.
pub proof fn lemma_same_records_same_judgement(
    a: ProgressStore,
    b: ProgressStore,
    user: AccountId,
    lesson_id: u8,
)
    requires
        a.wf(),
        a@ == b@,
    ensures
        b.wf(),
        a.spec_contains(user) == b.spec_contains(user),
        a.spec_contains(user) ==> a.spec_record(user) == b.spec_record(user),
        a.spec_completion_check(user, lesson_id) == b.spec_completion_check(user, lesson_id),
        a.spec_eligibility(user, lesson_id) == b.spec_eligibility(user, lesson_id),
{
    if a.spec_contains(user) {
        a.lemma_idx(user);
        assert(b@[a.spec_idx(user)].user == user);
        assert(b.spec_contains(user));
        b.lemma_idx(user);
        let jb = b.spec_idx(user);
        assert(a@[jb].user == user);
        assert(jb == a.spec_idx(user));
    }
    if b.spec_contains(user) {
        let j = choose|j: int| 0 <= j < b@.len() && b@[j].user == user;
        assert(a@[j].user == user);
        assert(a.spec_contains(user));
    }
}

} // verus!
