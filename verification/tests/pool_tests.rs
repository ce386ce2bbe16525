use simple_ship_combat::pool::PoolAllocation;

#[test]
fn new_pool_defaults() {
    let pa = PoolAllocation::new();
    assert_eq!(pa.actions(), 6);
    assert_eq!(pa.attack_pool, 0);
    assert_eq!(pa.targeting_pool, 0);
    assert_eq!(pa.countermeasure_pool, 0);
    assert!(pa.is_valid());
    assert!(!pa.uses_full_budget());
}

#[test]
fn validator_accepts_split_within_budget() {
    let mut pa = PoolAllocation::new();
    pa.attack_pool = 3;
    pa.targeting_pool = 2;
    pa.countermeasure_pool = 1;
    assert!(pa.is_valid());
    assert!(pa.uses_full_budget());
}

#[test]
fn validator_rejects_split_over_budget() {
    let mut pa = PoolAllocation::new();
    pa.attack_pool = 4;
    pa.targeting_pool = 2;
    pa.countermeasure_pool = 1;
    assert!(!pa.is_valid());
    assert!(!pa.uses_full_budget());
}

#[test]
fn policy_rejects_partial_budget_that_validator_accepts() {
    // The bare validator is permissive (sum <= budget); the caller-level
    // full-budget policy is strict (sum == budget).
    let mut pa = PoolAllocation::new();
    pa.attack_pool = 1;
    pa.targeting_pool = 1;
    pa.countermeasure_pool = 1;
    assert!(pa.is_valid());
    assert!(!pa.uses_full_budget());
}

#[test]
fn validator_handles_huge_pools_without_overflow() {
    let mut pa = PoolAllocation::new();
    pa.attack_pool = usize::MAX;
    pa.targeting_pool = usize::MAX;
    pa.countermeasure_pool = usize::MAX;
    assert!(!pa.is_valid());
    assert!(!pa.uses_full_budget());
}
