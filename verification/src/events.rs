//! Facts emitted after a committed transition, and the reported outcome of
//! the external token-issuance service.
//!
//! An event value is produced by a guard only together with the successful
//! state mutation it describes: a failed operation yields an error and no
//! event, so an observer never sees a fact that was not durably recorded.

use vstd::prelude::*;
use crate::ids::AccountId;

verus! {

/// Fact: `user` completed lesson `lesson_id`.
#[derive(Clone, Copy, PartialEq, Eq, Structural, Debug)]
pub struct LessonCompleted {
    pub user: AccountId,
    pub lesson_id: u8,
}

/// Fact: the reward token `mint` was issued to `user` for lesson
/// `lesson_id`.
#[derive(Clone, Copy, PartialEq, Eq, Structural, Debug)]
pub struct NftMinted {
    pub user: AccountId,
    pub lesson_id: u8,
    pub mint: AccountId,
}

/// What the external token-issuance service reported for one invocation.
///
/// The service is the only suspension point of a reward issuance: the guard
/// commits its claim flag only on `Issued`, and leaves the record untouched
/// on `Failed`.
#[derive(Clone, Copy, PartialEq, Eq, Structural, Debug)]
pub enum IssuanceOutcome {
    /// The service minted exactly one unit of the new token `mint` to the
    /// learner and attached the reward descriptor as its metadata.
    Issued { mint: AccountId },
    /// The service failed; no token exists, or its metadata could not be
    /// attached, which is surfaced the same way.
    Failed,
}

} // verus!
