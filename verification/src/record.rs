//! The per-learner progress record: which lessons stand completed and which
//! rewards stand claimed, one flag per lesson of the fixed curriculum.

use vstd::prelude::*;
use crate::ids::AccountId;

verus! {

/// Number of lessons in the curriculum; lesson ids range over
/// `0 .. CURRICULUM_SIZE`.
pub const CURRICULUM_SIZE: usize = 5;

/// One learner's progress: the owner identity, set once at creation, and two
/// parallel flag sequences indexed by lesson id.
///
/// Well-formedness (`wf`) demands that a claimed reward always points at a
/// completed lesson; every constructor establishes it and every guard
/// preserves it.
#[derive(Clone, Copy, Debug)]
pub struct UserProgress {
    /// The learner that owns this record; immutable after creation.
    pub user: AccountId,
    /// `completed_lessons[i]` holds exactly when lesson `i` was completed.
    pub completed_lessons: [bool; CURRICULUM_SIZE],
    /// `nfts_claimed[i]` holds exactly when the reward for lesson `i` was
    /// issued and recorded.
    pub nfts_claimed: [bool; CURRICULUM_SIZE],
}

impl UserProgress {
    /// Lesson `i` stands completed.
    pub open spec fn spec_completed(&self, i: int) -> bool {
        self.completed_lessons@[i]
    }

    /// The reward for lesson `i` stands claimed.
    pub open spec fn spec_claimed(&self, i: int) -> bool {
        self.nfts_claimed@[i]
    }

    /// A reward is never claimed for an uncompleted lesson.
    pub open spec fn wf(&self) -> bool {
        forall|i: int|
            0 <= i < CURRICULUM_SIZE ==> (self.spec_claimed(i) ==> self.spec_completed(i))
    }

    /// A fresh record for `user`: nothing completed, nothing claimed.
    pub fn new(user: AccountId) -> (r: UserProgress)
        ensures
            r.user == user,
            forall|i: int| 0 <= i < CURRICULUM_SIZE ==> !r.spec_completed(i),
            forall|i: int| 0 <= i < CURRICULUM_SIZE ==> !r.spec_claimed(i),
            r.wf(),
    {
        UserProgress {
            user,
            completed_lessons: [false; CURRICULUM_SIZE],
            nfts_claimed: [false; CURRICULUM_SIZE],
        }
    }

    /// Reads the completion flag of lesson `lesson_id`.
    pub fn completed(&self, lesson_id: u8) -> (r: bool)
        requires
            (lesson_id as int) < CURRICULUM_SIZE,
        ensures
            r == self.spec_completed(lesson_id as int),
    {
        self.completed_lessons[lesson_id as usize]
    }

    /// Reads the claim flag of lesson `lesson_id`.
    pub fn claimed(&self, lesson_id: u8) -> (r: bool)
        requires
            (lesson_id as int) < CURRICULUM_SIZE,
        ensures
            r == self.spec_claimed(lesson_id as int),
    {
        self.nfts_claimed[lesson_id as usize]
    }
}

} // verus!
