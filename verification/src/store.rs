//! The progress-record store and the two guards that operate on it.
//!
//! The store is the sole source of truth: it maps each learner identity to
//! exactly one progress record, created on first contact and never deleted.
//! Every operation is an indivisible transaction: it checks all its
//! preconditions against the current record, and either commits its single
//! mutation together with the event it returns, or fails with an error and
//! leaves the store untouched.

use vstd::prelude::*;
use vstd::pervasive::VecAdditionalExecFns;
use crate::errors::ErrorCode;
use crate::events::{IssuanceOutcome, LessonCompleted, NftMinted};
use crate::ids::AccountId;
use crate::record::{UserProgress, CURRICULUM_SIZE};

verus! {

/// Keyed storage of progress records, one per learner.
pub struct ProgressStore {
    records: Vec<UserProgress>,
}

impl View for ProgressStore {
    type V = Seq<UserProgress>;

    closed spec fn view(&self) -> Seq<UserProgress> {
        self.records@
    }
}

/// The store `post` can arise from `pre` by any sequence of guard
/// operations: records are never removed, owners never change, and every
/// flag moves monotonically from unset to set.
pub open spec fn evolves_to(pre: ProgressStore, post: ProgressStore) -> bool {
    &&& forall|u: AccountId| #[trigger] pre.spec_contains(u) ==> post.spec_contains(u)
    &&& forall|u: AccountId|
        pre.spec_contains(u) ==> #[trigger] post.spec_record(u).user == pre.spec_record(u).user
    &&& forall|u: AccountId, i: int|
        0 <= i < CURRICULUM_SIZE && pre.spec_contains(u)
            && #[trigger] pre.spec_record(u).spec_completed(i)
            ==> post.spec_record(u).spec_completed(i)
    &&& forall|u: AccountId, i: int|
        0 <= i < CURRICULUM_SIZE && pre.spec_contains(u)
            && #[trigger] pre.spec_record(u).spec_claimed(i)
            ==> post.spec_record(u).spec_claimed(i)
}

impl ProgressStore {
    /// Well-formedness: at most one record per learner, and every record
    /// upholds its own invariant (claimed implies completed).
    pub open spec fn wf(&self) -> bool {
        &&& forall|j: int, k: int|
            0 <= j < k < self@.len() ==> #[trigger] self@[j].user != #[trigger] self@[k].user
        &&& forall|j: int| 0 <= j < self@.len() ==> (#[trigger] self@[j]).wf()
    }

    /// A record for `user` exists.
    pub open spec fn spec_contains(&self, user: AccountId) -> bool {
        exists|j: int| 0 <= j < self@.len() && (#[trigger] self@[j]).user == user
    }

    /// The position of `user`'s record, when one exists.
    pub open spec fn spec_idx(&self, user: AccountId) -> int {
        choose|j: int| 0 <= j < self@.len() && (#[trigger] self@[j]).user == user
    }

    /// `user`'s record, when one exists.
    pub open spec fn spec_record(&self, user: AccountId) -> UserProgress {
        self@[self.spec_idx(user)]
    }

    /// In a well-formed store, `spec_idx` names the one position that holds
    /// `user`'s record.
    pub proof fn lemma_idx(&self, user: AccountId)
        requires
            self.wf(),
            self.spec_contains(user),
        ensures
            0 <= self.spec_idx(user) < self@.len(),
            self@[self.spec_idx(user)].user == user,
            self.spec_record(user).user == user,
            forall|j: int|
                0 <= j < self@.len() && (#[trigger] self@[j]).user == user
                    ==> j == self.spec_idx(user),
    {
        let j0 = self.spec_idx(user);
        assert(0 <= j0 < self@.len() && self@[j0].user == user);
        assert forall|j: int|
            0 <= j < self@.len() && (#[trigger] self@[j]).user == user implies j == j0 by {
            if j < j0 {
                assert(self@[j].user != self@[j0].user);
            } else if j0 < j {
                assert(self@[j0].user != self@[j].user);
            }
        }
    }

    /// Outcome of the completion guard's precondition check on the current
    /// state: which error `complete_lesson` returns, or that it may commit.
    pub open spec fn spec_completion_check(&self, user: AccountId, lesson_id: u8) -> Result<
        (),
        ErrorCode,
    > {
        if lesson_id as int >= CURRICULUM_SIZE {
            Err(ErrorCode::InvalidLessonId)
        } else if !self.spec_contains(user) {
            Err(ErrorCode::RecordNotFound)
        } else if self.spec_record(user).spec_completed(lesson_id as int) {
            Err(ErrorCode::LessonAlreadyCompleted)
        } else {
            Ok(())
        }
    }

    /// Outcome of the issuance guard's precondition check on the current
    /// state: which error bars a reward claim, or that the learner is
    /// eligible and the external service may be invoked.
    pub open spec fn spec_eligibility(&self, user: AccountId, lesson_id: u8) -> Result<
        (),
        ErrorCode,
    > {
        if lesson_id as int >= CURRICULUM_SIZE {
            Err(ErrorCode::InvalidLessonId)
        } else if !self.spec_contains(user) {
            Err(ErrorCode::RecordNotFound)
        } else if !self.spec_record(user).spec_completed(lesson_id as int) {
            Err(ErrorCode::LessonNotCompleted)
        } else if self.spec_record(user).spec_claimed(lesson_id as int) {
            Err(ErrorCode::NftAlreadyClaimed)
        } else {
            Ok(())
        }
    }

    /// An empty store: no learner has a record yet.
    pub fn new() -> (r: ProgressStore)
        ensures
            r.wf(),
            r@.len() == 0,
            forall|u: AccountId| !(#[trigger] r.spec_contains(u)),
    {
        ProgressStore { records: Vec::new() }
    }

    /// Finds the position of `user`'s record by scanning the store.
    fn find(&self, user: AccountId) -> (r: Option<usize>)
        ensures
            match r {
                Some(i) => i < self@.len() && self@[i as int].user == user,
                None => !self.spec_contains(user),
            },
    {
        let n = self.records.len();
        let mut i: usize = 0;
        while i < n
            invariant
                n == self@.len(),
                i <= n,
                forall|j: int| 0 <= j < i ==> (#[trigger] self@[j]).user != user,
            decreases n - i,
        {
            if self.records[i].user == user {
                return Some(i);
            }
            i = i + 1;
        }
        None
    }

    /// Creates `user`'s progress record on first contact: nothing completed,
    /// nothing claimed.  A record that already exists is never silently
    /// reinitialized; the duplicate attempt fails with `RecordAlreadyExists`
    /// and the store is left untouched.
    pub fn initialize_user(&mut self, user: AccountId) -> (r: Result<(), ErrorCode>)
        requires
            old(self).wf(),
        ensures
            final(self).wf(),
            old(self).spec_contains(user) ==> r == Err::<(), ErrorCode>(
                ErrorCode::RecordAlreadyExists,
            ) && *final(self) == *old(self),
            !old(self).spec_contains(user)
                ==> r == Ok::<(), ErrorCode>(())
                && final(self)@.len() == old(self)@.len() + 1
                && final(self)@.subrange(0, old(self)@.len() as int) == old(self)@
                && final(self).spec_contains(user)
                && final(self).spec_record(user).user == user
                && (forall|i: int|
                    0 <= i < CURRICULUM_SIZE
                        ==> !final(self).spec_record(user).spec_completed(i)
                        && !final(self).spec_record(user).spec_claimed(i))
                && (forall|u2: AccountId|
                    u2 != user
                        ==> #[trigger] final(self).spec_contains(u2)
                        == old(self).spec_contains(u2))
                && (forall|u2: AccountId|
                    u2 != user && old(self).spec_contains(u2)
                        ==> #[trigger] final(self).spec_record(u2) == old(self).spec_record(u2)),
            evolves_to(*old(self), *final(self)),
    {
        match self.find(user) {
            Some(i) => {
                proof {
                    assert(self.spec_contains(user));
                }
                Err(ErrorCode::RecordAlreadyExists)
            },
            None => {
                let rec = UserProgress::new(user);
                self.records.push(rec);
                proof {
                    let pre = *old(self);
                    let n = pre@.len() as int;
                    assert(self@ == pre@.push(rec));
                    assert(self@.subrange(0, n) =~= pre@);
                    assert(self@[n] == rec);
                    // Well-formedness: the new record's owner collides with
                    // nobody, since no record for `user` existed.
                    assert forall|j: int, k: int| 0 <= j < k < self@.len() implies self@[j].user
                        != self@[k].user by {
                        if k < n {
                            assert(pre@[j].user != pre@[k].user);
                        } else {
                            assert(self@[j] == pre@[j]);
                            assert(!pre.spec_contains(user));
                            assert(pre@[j].user != user);
                        }
                    }
                    assert(self.spec_contains(user));
                    self.lemma_idx(user);
                    assert(self.spec_idx(user) == n);
                    assert(self.spec_record(user) == rec);
                    // Records of other learners sit where they sat.
                    assert forall|u2: AccountId| u2 != user implies #[trigger] self
                        .spec_contains(u2) == pre.spec_contains(u2) by {
                        if pre.spec_contains(u2) {
                            let j = choose|j: int| 0 <= j < pre@.len() && pre@[j].user == u2;
                            assert(self@[j].user == u2);
                            assert(self.spec_contains(u2));
                        }
                        if self.spec_contains(u2) {
                            let j = choose|j: int| 0 <= j < self@.len() && self@[j].user == u2;
                            assert(j != n);
                            assert(pre@[j].user == u2);
                            assert(pre.spec_contains(u2));
                        }
                    }
                    assert forall|u2: AccountId|
                        u2 != user && pre.spec_contains(u2) implies #[trigger] self.spec_record(u2)
                        == pre.spec_record(u2) by {
                        pre.lemma_idx(u2);
                        self.lemma_idx(u2);
                        let j = self.spec_idx(u2);
                        assert(j != n);
                        assert(pre@[j].user == u2);
                        assert(pre.spec_idx(u2) == j);
                    }
                }
                Ok(())
            },
        }
    }

    /// The completion guard: records lesson `lesson_id` as completed for
    /// `user`, exactly once.
    ///
    /// All preconditions are checked before any mutation; on any failure the
    /// store is left untouched and no event is produced.  On success the one
    /// completion flag is set and the matching `LessonCompleted` fact is
    /// returned for publication.
    pub fn complete_lesson(&mut self, user: AccountId, lesson_id: u8) -> (r: Result<
        LessonCompleted,
        ErrorCode,
    >)
        requires
            old(self).wf(),
        ensures
            final(self).wf(),
            r == (match old(self).spec_completion_check(user, lesson_id) {
                Err(e) => Err::<LessonCompleted, ErrorCode>(e),
                Ok(()) => Ok((LessonCompleted { user, lesson_id })),
            }),
            old(self).spec_completion_check(user, lesson_id) is Err ==> *final(self) == *old(self),
            old(self).spec_completion_check(user, lesson_id) is Ok
                ==> final(self).spec_record(user).spec_completed(lesson_id as int)
                && final(self).spec_record(user).user == user
                && (forall|i: int|
                    0 <= i < CURRICULUM_SIZE && i != lesson_id as int
                        ==> #[trigger] final(self).spec_record(user).spec_completed(i)
                        == old(self).spec_record(user).spec_completed(i))
                && (forall|i: int|
                    0 <= i < CURRICULUM_SIZE
                        ==> #[trigger] final(self).spec_record(user).spec_claimed(i)
                        == old(self).spec_record(user).spec_claimed(i))
                && (forall|u2: AccountId|
                    #[trigger] final(self).spec_contains(u2) == old(self).spec_contains(u2))
                && (forall|u2: AccountId|
                    u2 != user && old(self).spec_contains(u2)
                        ==> #[trigger] final(self).spec_record(u2) == old(self).spec_record(u2)),
            evolves_to(*old(self), *final(self)),
    {
        if lesson_id as usize >= CURRICULUM_SIZE {
            return Err(ErrorCode::InvalidLessonId);
        }
        match self.find(user) {
            None => Err(ErrorCode::RecordNotFound),
            Some(i) => {
                proof {
                    assert(self.spec_contains(user));
                    self.lemma_idx(user);
                    assert(self.spec_idx(user) == i);
                }
                if self.records[i].completed_lessons[lesson_id as usize] {
                    Err(ErrorCode::LessonAlreadyCompleted)
                } else {
                    let mut rec = self.records[i];
                    rec.completed_lessons[lesson_id as usize] = true;
                    self.records.set(i, rec);
                    proof {
                        let prev = old(self)@[i as int];
                        assert(prev.wf());
                        assert(rec.completed_lessons@ == prev.completed_lessons@.update(
                            lesson_id as int,
                            true,
                        ));
                        assert forall|x: int|
                            0 <= x < CURRICULUM_SIZE && rec.spec_claimed(
                                x,
                            ) implies rec.spec_completed(x) by {
                            if x != lesson_id as int {
                                assert(rec.spec_completed(x) == prev.spec_completed(x));
                            }
                        }
                        self.lemma_mutation_frame(*old(self), i as int, user);
                    }
                    Ok(LessonCompleted { user, lesson_id })
                }
            },
        }
    }

    /// After replacing the record at position `t` (the position of `user`'s
    /// record) by one with the same owner and the record invariant intact,
    /// the store is still well formed, every learner keeps exactly the
    /// record it had — except `user`, whose record is the replacement.
    proof fn lemma_mutation_frame(&self, pre: ProgressStore, t: int, user: AccountId)
        requires
            pre.wf(),
            0 <= t < pre@.len(),
            pre@[t].user == user,
            self@ == pre@.update(t, self@[t]),
            self@[t].user == user,
            self@[t].wf(),
        ensures
            self.wf(),
            self.spec_contains(user),
            self.spec_idx(user) == t,
            self.spec_record(user) == self@[t],
            pre.spec_contains(user),
            pre.spec_idx(user) == t,
            pre.spec_record(user) == pre@[t],
            forall|u2: AccountId|
                #[trigger] self.spec_contains(u2) == pre.spec_contains(u2),
            forall|u2: AccountId|
                u2 != user && pre.spec_contains(u2) ==> #[trigger] self.spec_record(u2)
                    == pre.spec_record(u2),
    {
        assert forall|j: int, k: int| 0 <= j < k < self@.len() implies self@[j].user
            != self@[k].user by {
            assert(pre@[j].user != pre@[k].user);
        }
        assert forall|j: int| 0 <= j < self@.len() implies (#[trigger] self@[j]).wf() by {
            if j != t {
                assert(self@[j] == pre@[j]);
            }
        }
        assert(pre.spec_contains(user));
        pre.lemma_idx(user);
        assert(self.spec_contains(user));
        self.lemma_idx(user);
        assert(self.spec_idx(user) == t);
        assert(pre.spec_idx(user) == t);
        assert forall|u2: AccountId| #[trigger] self.spec_contains(u2)
            == pre.spec_contains(u2) by {
            if pre.spec_contains(u2) {
                let j = choose|j: int| 0 <= j < pre@.len() && pre@[j].user == u2;
                assert(self@[j].user == u2);
                assert(self.spec_contains(u2));
            }
            if self.spec_contains(u2) {
                let j = choose|j: int| 0 <= j < self@.len() && self@[j].user == u2;
                assert(pre@[j].user == u2);
                assert(pre.spec_contains(u2));
            }
        }
        assert forall|u2: AccountId|
            u2 != user && pre.spec_contains(u2) implies #[trigger] self.spec_record(u2)
            == pre.spec_record(u2) by {
            pre.lemma_idx(u2);
            self.lemma_idx(u2);
            let j = self.spec_idx(u2);
            assert(j != t);
            assert(pre@[j].user == u2);
            assert(pre.spec_idx(u2) == j);
        }
    }

    /// The issuance guard's pure precondition check, with no mutation: the
    /// read a caller performs before invoking the external token-issuance
    /// service.
    ///
    /// Only when this returns `Ok` is the service to be invoked; once a
    /// claim has committed, the check answers `NftAlreadyClaimed`, so no
    /// second issuance is ever warranted for the same lesson.
    pub fn reward_eligibility(&self, user: AccountId, lesson_id: u8) -> (r: Result<(), ErrorCode>)
        requires
            self.wf(),
        ensures
            r == self.spec_eligibility(user, lesson_id),
    {
        if lesson_id as usize >= CURRICULUM_SIZE {
            return Err(ErrorCode::InvalidLessonId);
        }
        match self.find(user) {
            None => Err(ErrorCode::RecordNotFound),
            Some(i) => {
                proof {
                    assert(self.spec_contains(user));
                    self.lemma_idx(user);
                    assert(self.spec_idx(user) == i);
                }
                if !self.records[i].completed_lessons[lesson_id as usize] {
                    Err(ErrorCode::LessonNotCompleted)
                } else if self.records[i].nfts_claimed[lesson_id as usize] {
                    Err(ErrorCode::NftAlreadyClaimed)
                } else {
                    Ok(())
                }
            },
        }
    }

    /// The reward issuance guard: commits the one-time claim of the reward
    /// for lesson `lesson_id`, given what the external token-issuance
    /// service reported for this attempt.
    ///
    /// Every precondition is re-evaluated against the current record, and
    /// any failure — including a failed issuance — leaves the store exactly
    /// as it was, so a retry is a fresh, independently judged transaction.
    /// The claim flag is set only when the learner was eligible and the
    /// service reported `Issued`; the returned `NftMinted` fact carries the
    /// identifier of the token the service minted.
    pub fn mint_nft_reward(
        &mut self,
        user: AccountId,
        lesson_id: u8,
        outcome: IssuanceOutcome,
    ) -> (r: Result<NftMinted, ErrorCode>)
        requires
            old(self).wf(),
        ensures
            final(self).wf(),
            r == (match old(self).spec_eligibility(user, lesson_id) {
                Err(e) => Err::<NftMinted, ErrorCode>(e),
                Ok(()) => match outcome {
                    IssuanceOutcome::Failed => Err(ErrorCode::IssuanceServiceFailure),
                    IssuanceOutcome::Issued { mint } => Ok((NftMinted { user, lesson_id, mint })),
                },
            }),
            !(old(self).spec_eligibility(user, lesson_id) is Ok && outcome is Issued) ==> *final(self) == *old(self),
            (old(self).spec_eligibility(user, lesson_id) is Ok && outcome is Issued)
                ==> final(self).spec_record(user).spec_claimed(lesson_id as int)
                && final(self).spec_record(user).user == user
                && (forall|i: int|
                    0 <= i < CURRICULUM_SIZE && i != lesson_id as int
                        ==> #[trigger] final(self).spec_record(user).spec_claimed(i)
                        == old(self).spec_record(user).spec_claimed(i))
                && (forall|i: int|
                    0 <= i < CURRICULUM_SIZE
                        ==> #[trigger] final(self).spec_record(user).spec_completed(i)
                        == old(self).spec_record(user).spec_completed(i))
                && (forall|u2: AccountId|
                    #[trigger] final(self).spec_contains(u2) == old(self).spec_contains(u2))
                && (forall|u2: AccountId|
                    u2 != user && old(self).spec_contains(u2)
                        ==> #[trigger] final(self).spec_record(u2) == old(self).spec_record(u2)),
            evolves_to(*old(self), *final(self)),
    {
        if lesson_id as usize >= CURRICULUM_SIZE {
            return Err(ErrorCode::InvalidLessonId);
        }
        match self.find(user) {
            None => Err(ErrorCode::RecordNotFound),
            Some(i) => {
                proof {
                    assert(self.spec_contains(user));
                    self.lemma_idx(user);
                    assert(self.spec_idx(user) == i);
                }
                if !self.records[i].completed_lessons[lesson_id as usize] {
                    Err(ErrorCode::LessonNotCompleted)
                } else if self.records[i].nfts_claimed[lesson_id as usize] {
                    Err(ErrorCode::NftAlreadyClaimed)
                } else {
                    match outcome {
                        IssuanceOutcome::Failed => Err(ErrorCode::IssuanceServiceFailure),
                        IssuanceOutcome::Issued { mint } => {
                            let mut rec = self.records[i];
                            rec.nfts_claimed[lesson_id as usize] = true;
                            self.records.set(i, rec);
                            proof {
                                let prev = old(self)@[i as int];
                                assert(prev.wf());
                                assert(rec.nfts_claimed@ == prev.nfts_claimed@.update(
                                    lesson_id as int,
                                    true,
                                ));
                                assert forall|x: int|
                                    0 <= x < CURRICULUM_SIZE && rec.spec_claimed(
                                        x,
                                    ) implies rec.spec_completed(x) by {
                                    if x != lesson_id as int {
                                        assert(rec.spec_claimed(x) == prev.spec_claimed(x));
                                    }
                                }
                                self.lemma_mutation_frame(*old(self), i as int, user);
                            }
                            Ok(NftMinted { user, lesson_id, mint })
                        },
                    }
                }
            },
        }
    }

    /// Looks `user`'s record up; `None` when the learner was never
    /// initialized.
    pub fn get(&self, user: AccountId) -> (r: Option<UserProgress>)
        requires
            self.wf(),
        ensures
            match r {
                Some(rec) => self.spec_contains(user) && rec == self.spec_record(user),
                None => !self.spec_contains(user),
            },
    {
        match self.find(user) {
            Some(i) => {
                proof {
                    assert(self.spec_contains(user));
                    self.lemma_idx(user);
                }
                Some(self.records[i])
            },
            None => None,
        }
    }
}

} // verus!
