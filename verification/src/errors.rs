//! The error vocabulary shared by the completion and reward issuance guards.
//!
//! Every failed operation returns one of these, with zero mutations and zero
//! events produced: a caller always learns exactly why a transition was
//! refused, and "already in the desired state" is distinguished from
//! "succeeded just now".

use vstd::prelude::*;

verus! {

/// Why an operation on a progress record was refused.
#[derive(Clone, Copy, PartialEq, Eq, Structural, Debug)]
pub enum ErrorCode {
    /// The lesson index lies outside the curriculum.
    InvalidLessonId,
    /// The learner has no initialized progress record.
    RecordNotFound,
    /// A progress record for this learner already exists; records are never
    /// silently reinitialized.
    RecordAlreadyExists,
    /// The lesson was already recorded as completed.
    LessonAlreadyCompleted,
    /// A reward was requested for a lesson whose completion was never
    /// recorded.
    LessonNotCompleted,
    /// The reward for this lesson was already claimed.
    NftAlreadyClaimed,
    /// The external token-issuance service reported failure; no local state
    /// was changed.
    IssuanceServiceFailure,
}

} // verus!
