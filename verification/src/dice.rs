use vstd::prelude::*;
use rand::Rng;
use crate::DEFAULT_ACTIONS;
use crate::pool::PoolAllocation;

verus! {

/// Every entry of `s` is a die face, 1 through 6.
pub open spec fn dice_values_ok(s: Seq<u8>) -> bool {
    forall|i: int| 0 <= i < s.len() ==> 1 <= #[trigger] s[i] <= 6
}

/// Relies on rand::thread_rng and rand::Rng::gen_range: a sample drawn from
/// the inclusive range 1..=6 lies within that range.
#[verifier::external_body]
fn roll_die() -> (r: u8)
    ensures
        1 <= r <= 6,
{
    rand::thread_rng().gen_range(1..=6)
}

/// Rolls `c` independent dice.
pub fn roll_dice(c: usize) -> (v: Vec<u8>)
    ensures
        v@.len() == c,
        dice_values_ok(v@),
{
    let mut v: Vec<u8> = Vec::with_capacity(c);
    let mut i: usize = 0;
    while i < c
        invariant
            0 <= i <= c,
            v@.len() == i,
            dice_values_ok(v@),
        decreases c - i,
    {
        v.push(roll_die());
        i = i + 1;
    }
    v
}

/// One side's dice for a single round: the three rolled pools and the two
/// allocation buffers filled in as the round proceeds.
pub struct PlayerDice {
    pub attack_dice: Vec<u8>,
    pub targeting_dice: Vec<u8>,
    pub targeting_allocation: Vec<u8>,
    pub countermeasure_dice: Vec<u8>,
    pub countermeasure_allocation: Vec<u8>,
}

impl PlayerDice {
    /// All rolled values are die faces.
    pub open spec fn dice_ok(&self) -> bool {
        &&& dice_values_ok(self.attack_dice@)
        &&& dice_values_ok(self.targeting_dice@)
        &&& dice_values_ok(self.countermeasure_dice@)
    }

    /// The rolled pools together fit the fixed action budget.
    pub open spec fn within_budget(&self) -> bool {
        self.attack_dice@.len() + self.targeting_dice@.len() + self.countermeasure_dice@.len()
            <= DEFAULT_ACTIONS
    }

    /// Rolls one side's dice as a validated pool split directs, with a
    /// targeting buffer pre-sized to the attack dice and a countermeasure
    /// buffer left for the resolver to size to the opponent's attack dice.
    pub fn new(a: &PoolAllocation) -> (pd: PlayerDice)
        ensures
            pd.attack_dice@.len() == a.attack_pool,
            pd.targeting_dice@.len() == a.targeting_pool,
            pd.countermeasure_dice@.len() == a.countermeasure_pool,
            pd.dice_ok(),
            pd.targeting_allocation@.len() == a.attack_pool,
            forall|i: int|
                0 <= i < pd.targeting_allocation@.len() ==> pd.targeting_allocation@[i] == 0,
            pd.countermeasure_allocation@.len() == 0,
    {
        PlayerDice {
            attack_dice: roll_dice(a.attack_pool),
            targeting_dice: roll_dice(a.targeting_pool),
            targeting_allocation: crate::allocation::zero_buffer(a.attack_pool),
            countermeasure_dice: roll_dice(a.countermeasure_pool),
            countermeasure_allocation: Vec::new(),
        }
    }
}

/// A copy of a die-value sequence, for handing read-only round context to a
/// decision provider.
pub(crate) fn copy_values(s: &Vec<u8>) -> (r: Vec<u8>)
    ensures
        r@ == s@,
{
    let mut r: Vec<u8> = Vec::with_capacity(s.len());
    let mut i: usize = 0;
    while i < s.len()
        invariant
            0 <= i <= s@.len(),
            r@ == s@.take(i as int),
        decreases s@.len() - i,
    {
        proof {
            assert(s@.take(i + 1) =~= s@.take(i as int).push(s@[i as int]));
        }
        r.push(s[i]);
        i = i + 1;
    }
    proof {
        assert(s@.take(s@.len() as int) =~= s@);
    }
    r
}

} // verus!
