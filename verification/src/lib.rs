//! A verified virtual-pet world: time-driven stat decay with death and
//! revival, a forward-only evolution state machine, and a companion
//! achievement ledger with idempotent, at-most-once awarding.
//!
//! State lives in explicit, typed stores owned by the two components
//! ([`world::PetWorld`] and [`ledger::PetWorldAchievement`]); every public
//! operation is a total function from the old state, the acting principal
//! and the current tick to a new state or a typed error, and mutates
//! nothing when it errs.

pub mod errors;
pub mod ledger;
pub mod pet;
pub mod world;
