//! Lesson-progress tracking with gated one-time reward issuance.
//!
//! Each learner owns one progress record over a fixed curriculum of lessons.
//! The completion guard records a lesson as completed at most once; the reward
//! issuance guard lets exactly one reward be claimed per completed lesson, and
//! only after the completion fact has been recorded.  Every state transition
//! is checked against these rules, and the invariant that a claimed reward
//! implies a completed lesson holds in every reachable state.

pub mod errors;
pub mod events;
pub mod ids;
pub mod laws;
pub mod record;
pub mod store;
