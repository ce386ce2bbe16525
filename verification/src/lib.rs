//! A two-player dice duel engine. Each round, both sides split a fixed action
//! budget into attack, targeting and countermeasure dice pools, roll them,
//! allocate targeting dice behind their own attack dice and countermeasure
//! dice against the opponent's attacks, and take damage for every incoming
//! attack whose combined strength beats the countermeasure set against it.
//!
//! The validators, the damage computation and the round resolver are verified;
//! the decision providers (how a player picks a split or an allocation) are
//! supplied by the caller.

use vstd::prelude::*;

pub mod allocation;
pub mod dice;
pub mod game;
pub mod pool;

verus! {

/// Number of actions each combatant may spend on its dice pools in one round.
pub const DEFAULT_ACTIONS: usize = 6;

} // verus!
