use vstd::prelude::*;
use crate::DEFAULT_ACTIONS;

verus! {

/// One combatant's split of its action budget into the three dice pools.
///
/// The budget (`actions`) is fixed when the split is created; a split is
/// valid when the three pools together do not exceed it.
pub struct PoolAllocation {
    pub actions: usize,
    pub attack_pool: usize,
    pub targeting_pool: usize,
    pub countermeasure_pool: usize,
}

impl PoolAllocation {
    /// The validator's permissive check: the pools fit inside the budget.
    pub open spec fn valid(&self) -> bool {
        self.attack_pool + self.targeting_pool + self.countermeasure_pool
            <= self.actions
    }

    /// The stricter caller-level policy: the pools use the budget exactly.
    pub open spec fn full_budget(&self) -> bool {
        self.attack_pool + self.targeting_pool + self.countermeasure_pool
            == self.actions
    }

    pub fn new() -> (r: PoolAllocation)
        ensures
            r.actions == DEFAULT_ACTIONS,
            r.attack_pool == 0,
            r.targeting_pool == 0,
            r.countermeasure_pool == 0,
    {
        PoolAllocation {
            actions: DEFAULT_ACTIONS,
            attack_pool: 0,
            targeting_pool: 0,
            countermeasure_pool: 0,
        }
    }

    pub fn actions(&self) -> (r: usize)
        ensures
            r == self.actions,
    {
        self.actions
    }

    pub fn is_valid(&self) -> (r: bool)
        ensures
            r == self.valid(),
    {
        if self.attack_pool > self.actions {
            return false;
        }
        let rest: usize = self.actions - self.attack_pool;
        if self.targeting_pool > rest {
            return false;
        }
        self.countermeasure_pool <= rest - self.targeting_pool
    }

    /// Caller-level policy check, layered above `is_valid`: the provider is
    /// expected to spend the whole action budget, not merely stay within it.
    pub fn uses_full_budget(&self) -> (r: bool)
        ensures
            r == self.full_budget(),
    {
        if self.attack_pool > self.actions {
            return false;
        }
        let rest: usize = self.actions - self.attack_pool;
        if self.targeting_pool > rest {
            return false;
        }
        self.countermeasure_pool == rest - self.targeting_pool
    }
}

/// A split accepted by both the validator and the full-budget policy spends
/// exactly the action budget on the three pools; any split whose pools
/// together exceed the budget fails the validator.
pub proof fn lemma_pool_split_exact(pa: PoolAllocation)
    ensures
        pa.valid() && pa.full_budget() ==> pa.attack_pool + pa.targeting_pool
            + pa.countermeasure_pool == pa.actions,
        pa.attack_pool + pa.targeting_pool + pa.countermeasure_pool > pa.actions
            ==> !pa.valid(),
{
}

} // verus!
