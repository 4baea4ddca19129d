//! Experience and levels for activity events: a level curve, a per-user
//! cooldown that debounces events, the crediting of experience with its
//! level-up loop, and the session that drives one event through the
//! cooldown store and the progression store.
use vstd::prelude::*;

mod bignat;
pub mod cooldown;
pub mod curve;
pub mod engine;
pub mod progress;

verus! {

} // verus!
