use simple_ship_combat::allocation::CountermeasureAllocation;
use simple_ship_combat::allocation::TargetingAllocation;

#[test]
fn targeting_accepts_matching_allocation() {
    let mut ta = TargetingAllocation::new(vec![4, 5, 6], vec![3, 2]);
    assert_eq!(ta.targeting_allocation().len(), 3);
    let buf = ta.targeting_allocation_mut();
    buf[0] = 3;
    buf[1] = 2;
    assert!(ta.is_valid());
    assert!(ta.uses_available_dice());
}

#[test]
fn targeting_rejects_unrolled_value() {
    // Rolled [2, 4]; the buffer claims a 5 that was never rolled.
    let mut ta = TargetingAllocation::new(vec![1, 1], vec![2, 4]);
    ta.targeting_allocation_mut()[0] = 5;
    assert!(!ta.is_valid());
}

#[test]
fn targeting_rejects_reusing_a_rolled_die() {
    // One 3 was rolled, but the buffer claims it twice.
    let mut ta = TargetingAllocation::new(vec![1, 1], vec![3]);
    let buf = ta.targeting_allocation_mut();
    buf[0] = 3;
    buf[1] = 3;
    assert!(!ta.is_valid());
}

#[test]
fn targeting_accepts_duplicates_rolled_twice() {
    let mut ta = TargetingAllocation::new(vec![1, 1], vec![3, 3]);
    let buf = ta.targeting_allocation_mut();
    buf[0] = 3;
    buf[1] = 3;
    assert!(ta.is_valid());
}

#[test]
fn targeting_zero_entries_claim_nothing() {
    // An all-zero buffer is valid even with no targeting dice rolled.
    let ta = TargetingAllocation::new(vec![2, 3, 4], vec![]);
    assert!(ta.is_valid());
    assert!(ta.uses_available_dice());
}

#[test]
fn targeting_policy_requires_using_available_dice() {
    let mut ta = TargetingAllocation::new(vec![4, 5, 6], vec![3, 2]);
    ta.targeting_allocation_mut()[0] = 3;
    // Valid as a multiset, but only one of two usable dice was allocated.
    assert!(ta.is_valid());
    assert!(!ta.uses_available_dice());
}

#[test]
fn countermeasure_buffer_sized_to_opponent_attack_count() {
    // Five incoming attack dice but only two own countermeasure dice: the
    // buffer must still have one slot per incoming die.
    let ca = CountermeasureAllocation::new(vec![6, 6, 6, 6, 6], vec![0, 0, 0, 0, 0], vec![1, 2]);
    assert_eq!(ca.countermeasure_allocation().len(), 5);
    assert_eq!(ca.opponent_attack_dice().len(), 5);
    assert_eq!(ca.countermeasure_dice().len(), 2);

    // And the other way round: fewer incoming dice than own dice.
    let ca = CountermeasureAllocation::new(vec![6], vec![0], vec![1, 2, 3]);
    assert_eq!(ca.countermeasure_allocation().len(), 1);
}

#[test]
fn countermeasure_rejects_unrolled_value() {
    let mut ca = CountermeasureAllocation::new(vec![6, 6], vec![0, 0], vec![2, 4]);
    ca.countermeasure_allocation_mut()[0] = 5;
    assert!(!ca.is_valid());
}

#[test]
fn countermeasure_accepts_matching_allocation() {
    let mut ca = CountermeasureAllocation::new(vec![6, 6], vec![0, 0], vec![5]);
    ca.countermeasure_allocation_mut()[0] = 5;
    assert!(ca.is_valid());
    assert!(ca.uses_available_dice());
}

#[test]
fn countermeasure_policy_requires_using_available_dice() {
    let ca = CountermeasureAllocation::new(vec![6, 6], vec![0, 0], vec![5]);
    // One countermeasure die is usable against two incoming dice, but none
    // was allocated.
    assert!(ca.is_valid());
    assert!(!ca.uses_available_dice());
}
