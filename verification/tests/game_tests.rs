use simple_ship_combat::allocation::CountermeasureAllocation;
use simple_ship_combat::allocation::TargetingAllocation;
use simple_ship_combat::game::Game;
use simple_ship_combat::game::Player;
use simple_ship_combat::game::RoundError;
use simple_ship_combat::game::Winner;
use simple_ship_combat::pool::PoolAllocation;

fn all_attack_pools(_p: &Player, mut pa: PoolAllocation) -> PoolAllocation {
    pa.attack_pool = 6;
    pa.targeting_pool = 0;
    pa.countermeasure_pool = 0;
    pa
}

fn keep_targeting(_p: &Player, ta: TargetingAllocation) -> TargetingAllocation {
    // The fresh buffer allocates nothing, which is always valid.
    ta
}

fn keep_countermeasures(_p: &Player, ca: CountermeasureAllocation) -> CountermeasureAllocation {
    ca
}

#[test]
fn new_game_starts_undecided() {
    let g = Game::new("Alice", "Bob");
    assert_eq!(g.player1().name(), "Alice");
    assert_eq!(g.player2().name(), "Bob");
    assert_eq!(g.player1().hp(), 10);
    assert_eq!(g.player2().hp(), 10);
    assert!(matches!(g.winner(), Winner::Undecided));
}

#[test]
fn winner_evaluation_is_idempotent() {
    let g = Game::new("Alice", "Bob");
    let first = matches!(g.winner(), Winner::Undecided);
    let second = matches!(g.winner(), Winner::Undecided);
    assert_eq!(first, second);
    assert!(first);
}

#[test]
fn mutual_destruction_is_a_draw() {
    // All-attack pools with no countermeasures: every attack die scores, so
    // both sides lose exactly 6 health per round whatever was rolled.
    let mut g = Game::new("Alice", "Bob");
    g.play_round(all_attack_pools, keep_targeting, keep_countermeasures)
        .unwrap();
    assert_eq!(g.player1().hp(), 4);
    assert_eq!(g.player2().hp(), 4);
    assert!(matches!(g.winner(), Winner::Undecided));

    g.play_round(all_attack_pools, keep_targeting, keep_countermeasures)
        .unwrap();
    assert_eq!(g.player1().hp(), 0);
    assert_eq!(g.player2().hp(), 0);
    assert!(matches!(g.winner(), Winner::Draw));

    // Re-evaluating the finished match gives the same outcome.
    assert!(matches!(g.winner(), Winner::Draw));
}

#[test]
fn higher_health_side_wins() {
    // Alice attacks with everything; Bob hides behind countermeasures that he
    // never allocates, so only Bob takes damage.
    let pools = |p: &Player, mut pa: PoolAllocation| -> PoolAllocation {
        if p.name() == "Alice" {
            pa.attack_pool = 6;
            pa.targeting_pool = 0;
            pa.countermeasure_pool = 0;
        } else {
            pa.attack_pool = 0;
            pa.targeting_pool = 0;
            pa.countermeasure_pool = 6;
        }
        pa
    };
    let mut g = Game::new("Alice", "Bob");
    g.play_round(pools, keep_targeting, keep_countermeasures).unwrap();
    assert_eq!(g.player1().hp(), 10);
    assert_eq!(g.player2().hp(), 4);
    assert!(matches!(g.winner(), Winner::Undecided));

    g.play_round(pools, keep_targeting, keep_countermeasures).unwrap();
    assert_eq!(g.player1().hp(), 10);
    assert_eq!(g.player2().hp(), 0);
    match g.winner() {
        Winner::Player(p) => {
            assert_eq!(p.name(), "Alice");
            assert_eq!(p.hp(), 10);
        }
        _ => panic!("expected a winner"),
    }
}

#[test]
fn invalid_pool_split_aborts_the_round() {
    let over_budget = |_p: &Player, mut pa: PoolAllocation| -> PoolAllocation {
        pa.attack_pool = 7;
        pa
    };
    let mut g = Game::new("Alice", "Bob");
    let r = g.play_round(over_budget, keep_targeting, keep_countermeasures);
    assert_eq!(r, Err(RoundError::InvalidPools));
    assert_eq!(g.player1().hp(), 10);
    assert_eq!(g.player2().hp(), 10);
}

#[test]
fn unrolled_targeting_claim_aborts_the_round() {
    let targeting = |_p: &Player, mut ta: TargetingAllocation| -> TargetingAllocation {
        // 7 is not a die face, so it can never have been rolled.
        ta.targeting_allocation_mut()[0] = 7;
        ta
    };
    let mut g = Game::new("Alice", "Bob");
    let r = g.play_round(all_attack_pools, targeting, keep_countermeasures);
    assert_eq!(r, Err(RoundError::InvalidTargeting));
    assert_eq!(g.player1().hp(), 10);
    assert_eq!(g.player2().hp(), 10);
}

#[test]
fn resized_targeting_buffer_aborts_the_round() {
    let targeting = |_p: &Player, mut ta: TargetingAllocation| -> TargetingAllocation {
        ta.targeting_allocation_mut().push(0);
        ta
    };
    let mut g = Game::new("Alice", "Bob");
    let r = g.play_round(all_attack_pools, targeting, keep_countermeasures);
    assert_eq!(r, Err(RoundError::InvalidTargeting));
    assert_eq!(g.player1().hp(), 10);
}

#[test]
fn unrolled_countermeasure_claim_aborts_the_round() {
    let pools = |_p: &Player, mut pa: PoolAllocation| -> PoolAllocation {
        pa.attack_pool = 3;
        pa.targeting_pool = 2;
        pa.countermeasure_pool = 1;
        pa
    };
    let countermeasures =
        |_p: &Player, mut ca: CountermeasureAllocation| -> CountermeasureAllocation {
            ca.countermeasure_allocation_mut()[0] = 7;
            ca
        };
    let mut g = Game::new("Alice", "Bob");
    let r = g.play_round(pools, keep_targeting, countermeasures);
    assert_eq!(r, Err(RoundError::InvalidCountermeasures));
    assert_eq!(g.player1().hp(), 10);
    assert_eq!(g.player2().hp(), 10);
}

#[test]
fn countermeasure_context_is_sized_to_opponent_attack() {
    // Asymmetric attack pools: each side's countermeasure buffer must match
    // the *opponent's* attack-dice count, not its own.
    let pools = |p: &Player, mut pa: PoolAllocation| -> PoolAllocation {
        if p.name() == "Alice" {
            pa.attack_pool = 2;
            pa.targeting_pool = 2;
            pa.countermeasure_pool = 2;
        } else {
            pa.attack_pool = 5;
            pa.targeting_pool = 1;
            pa.countermeasure_pool = 0;
        }
        pa
    };
    let countermeasures =
        |p: &Player, ca: CountermeasureAllocation| -> CountermeasureAllocation {
            if p.name() == "Alice" {
                assert_eq!(ca.countermeasure_allocation().len(), 5);
                assert_eq!(ca.opponent_attack_dice().len(), 5);
            } else {
                assert_eq!(ca.countermeasure_allocation().len(), 2);
                assert_eq!(ca.opponent_attack_dice().len(), 2);
            }
            ca
        };
    let mut g = Game::new("Alice", "Bob");
    g.play_round(pools, keep_targeting, countermeasures).unwrap();
}

#[test]
fn rolled_dice_are_die_faces() {
    // Providers observe the rolled dice; every value must be 1 through 6.
    let targeting = |_p: &Player, ta: TargetingAllocation| -> TargetingAllocation {
        for &d in ta.attack_dice().iter() {
            assert!((1..=6).contains(&d));
        }
        for &d in ta.targeting_dice().iter() {
            assert!((1..=6).contains(&d));
        }
        assert_eq!(ta.attack_dice().len(), 3);
        assert_eq!(ta.targeting_dice().len(), 2);
        ta
    };
    let pools = |_p: &Player, mut pa: PoolAllocation| -> PoolAllocation {
        pa.attack_pool = 3;
        pa.targeting_pool = 2;
        pa.countermeasure_pool = 1;
        pa
    };
    let mut g = Game::new("Alice", "Bob");
    g.play_round(pools, targeting, keep_countermeasures).unwrap();
}
