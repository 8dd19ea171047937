//! Typed failure values shared by both components.
//!
//! Every check fails the whole operation immediately: an operation that
//! returns one of these has left its receiver (and any companion it was
//! handed) exactly as it found them.

use vstd::prelude::*;

verus! {

/// Why an operation was refused. Each variant names the single check that
/// failed; no operation persists anything once a check fails.
#[derive(Clone, Copy, Debug, PartialEq, Eq, Structural)]
pub enum Error {
    /// `initialize` was called on a component that already has an owner.
    AlreadyInitialized,
    /// The operation needs an owner and `initialize` has not run yet.
    NotInitialized,
    /// The acting principal is neither the owner nor the registered
    /// companion component.
    Unauthorized,
    /// The achievement id is outside the fixed catalog.
    InvalidAchievementId,
    /// The holder already earned this achievement.
    AlreadyEarned,
    /// No pet exists under the given token id.
    EntityNotFound,
    /// The acting principal does not hold the pet.
    NotOwner,
    /// The action needs a living pet and the pet is dead.
    EntityIsDead,
    /// Revival needs a dead pet and the pet is alive.
    EntityNotDead,
    /// A pet name must be between 1 and 20 characters.
    InvalidNameLength,
}

} // verus!
