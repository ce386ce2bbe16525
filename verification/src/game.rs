use vstd::prelude::*;
use crate::DEFAULT_ACTIONS;
use crate::allocation::allocation_matches_dice;
use crate::allocation::allocation_valid;
use crate::allocation::CountermeasureAllocation;
use crate::allocation::TargetingAllocation;
use crate::dice::copy_values;
use crate::dice::PlayerDice;
use crate::pool::PoolAllocation;

verus! {

/// Health every combatant starts the match with.
pub const START_HP: u32 = 10;

pub struct Player {
    pub name: String,
    pub hp: u32,
}

impl Player {
    fn new(name: &str) -> (p: Player)
        ensures
            p.name@ == name@,
            p.hp == START_HP,
    {
        Player { name: name.to_owned(), hp: START_HP }
    }

    pub fn name(&self) -> (r: &str)
        ensures
            r@ == self.name@,
    {
        self.name.as_str()
    }

    pub fn hp(&self) -> (r: u32)
        ensures
            r == self.hp,
    {
        self.hp
    }
}

/// The round outcome: no winner while both sides still have health; once at
/// least one side is at zero, the side with strictly higher health wins, and
/// equal health (both at zero) is a draw.
pub enum Winner<'a> {
    Undecided,
    Player(&'a Player),
    Draw,
}

/// What the winner predicate admits for a given game state.
pub open spec fn winner_correct<'a>(g: Game, w: Winner<'a>) -> bool {
    match w {
        Winner::Undecided => g.p1.hp > 0 && g.p2.hp > 0,
        Winner::Player(p) => {
            &&& !(g.p1.hp > 0 && g.p2.hp > 0)
            &&& g.p1.hp != g.p2.hp
            &&& *p == if g.p1.hp > g.p2.hp {
                g.p1
            } else {
                g.p2
            }
        },
        Winner::Draw => !(g.p1.hp > 0 && g.p2.hp > 0) && g.p1.hp == g.p2.hp,
    }
}

/// Winner evaluation is a pure function of the game's health values: the
/// winner contract admits exactly one outcome per state, so evaluating it
/// twice on unchanged health yields the same result.
pub proof fn lemma_winner_deterministic<'a>(g: Game, w1: Winner<'a>, w2: Winner<'a>)
    requires
        winner_correct(g, w1),
        winner_correct(g, w2),
    ensures
        w1 == w2,
{
}

/// Why a round could not be resolved: the decision provider broke its
/// contract, and the invalid allocation was stopped before damage.
#[derive(Clone, Copy, Debug, PartialEq, Eq, Structural)]
pub enum RoundError {
    InvalidPools,
    InvalidTargeting,
    InvalidCountermeasures,
}

/// Damage scored by the first `n` of the opponent's attack dice: one point
/// for each die whose face value plus targeting support strictly exceeds the
/// countermeasure set against it (ties favour the attacker).
pub open spec fn damage_prefix(attack: Seq<u8>, targeting: Seq<u8>, counter: Seq<u8>, n: int) -> int
    decreases n,
{
    if n <= 0 {
        0
    } else {
        damage_prefix(attack, targeting, counter, n - 1) + if attack[n - 1] + targeting[n - 1]
            > counter[n - 1] {
            1int
        } else {
            0int
        }
    }
}

/// Damage scored by a full set of incoming attack dice.
pub open spec fn round_damage(attack: Seq<u8>, targeting: Seq<u8>, counter: Seq<u8>) -> int {
    damage_prefix(attack, targeting, counter, attack.len() as int)
}

/// Health after taking `damage`, clamped at zero.
pub open spec fn hp_after_damage(hp: u32, damage: int) -> u32 {
    if damage <= hp {
        (hp - damage) as u32
    } else {
        0u32
    }
}

proof fn lemma_damage_prefix_bounded(attack: Seq<u8>, targeting: Seq<u8>, counter: Seq<u8>, n: int)
    requires
        0 <= n,
    ensures
        0 <= damage_prefix(attack, targeting, counter, n) <= n,
    decreases n,
{
    if n > 0 {
        lemma_damage_prefix_bounded(attack, targeting, counter, n - 1);
    }
}

/// Damage is bounded by the number of incoming attack dice, and the health
/// that results from it is never negative: it is clamped at zero and never
/// rises.
pub proof fn lemma_damage_bounded(hp: u32, attack: Seq<u8>, targeting: Seq<u8>, counter: Seq<u8>)
    ensures
        0 <= round_damage(attack, targeting, counter) <= attack.len(),
        hp_after_damage(hp, round_damage(attack, targeting, counter)) <= hp,
{
    lemma_damage_prefix_bounded(attack, targeting, counter, attack.len() as int);
}

/// Computes a defender's health after one round. `p_pool` is the defender's
/// round data (its countermeasures), `o_pool` the opponent's (the incoming
/// attack dice and their targeting support).
pub fn apply_damage(hp: u32, p_pool: &PlayerDice, o_pool: &PlayerDice) -> (r: u32)
    requires
        o_pool.targeting_allocation@.len() == o_pool.attack_dice@.len(),
        p_pool.countermeasure_allocation@.len() == o_pool.attack_dice@.len(),
    ensures
        r == hp_after_damage(
            hp,
            round_damage(
                o_pool.attack_dice@,
                o_pool.targeting_allocation@,
                p_pool.countermeasure_allocation@,
            ),
        ),
        r <= hp,
{
    let n = o_pool.attack_dice.len();
    let mut dmg: usize = 0;
    let mut i: usize = 0;
    while i < n
        invariant
            0 <= i <= n,
            n == o_pool.attack_dice@.len(),
            o_pool.targeting_allocation@.len() == n,
            p_pool.countermeasure_allocation@.len() == n,
            dmg == damage_prefix(
                o_pool.attack_dice@,
                o_pool.targeting_allocation@,
                p_pool.countermeasure_allocation@,
                i as int,
            ),
            dmg <= i,
        decreases n - i,
    {
        let a = o_pool.attack_dice[i];
        let t = o_pool.targeting_allocation[i];
        let c = p_pool.countermeasure_allocation[i];
        if (a as u32) + (t as u32) > (c as u32) {
            dmg = dmg + 1;
        }
        i = i + 1;
    }
    if dmg <= hp as usize {
        hp - (dmg as u32)
    } else {
        0
    }
}

/// Checks a pool split against the validator and rolls this side's three dice
/// sets as the split directs.
fn allocate_pools(pa: &PoolAllocation) -> (r: Result<PlayerDice, RoundError>)
    ensures
        r is Ok <==> pa.valid(),
        r is Err ==> r == Result::<PlayerDice, RoundError>::Err(RoundError::InvalidPools),
        r is Ok ==> {
            let pd = r->Ok_0;
            &&& pd.attack_dice@.len() == pa.attack_pool
            &&& pd.targeting_dice@.len() == pa.targeting_pool
            &&& pd.countermeasure_dice@.len() == pa.countermeasure_pool
            &&& pd.dice_ok()
            &&& pd.targeting_allocation@.len() == pa.attack_pool
            &&& pd.countermeasure_allocation@.len() == 0
        },
{
    if !pa.is_valid() {
        return Err(RoundError::InvalidPools);
    }
    Ok(PlayerDice::new(pa))
}

/// Installs a provider's proposed targeting buffer after validating it
/// against this side's rolled targeting dice; a buffer of the wrong length or
/// one that claims unrolled values is rejected and nothing changes.
fn allocate_targeting(pd: &mut PlayerDice, proposal: TargetingAllocation) -> (r: Result<
    (),
    RoundError,
>)
    ensures
        r is Ok <==> (proposal.targeting_allocation@.len() == old(pd).attack_dice@.len()
            && allocation_valid(proposal.targeting_allocation@, old(pd).targeting_dice@)),
        r is Err ==> *final(pd) == *old(pd) && r == Result::<(), RoundError>::Err(
            RoundError::InvalidTargeting,
        ),
        r is Ok ==> {
            &&& final(pd).attack_dice == old(pd).attack_dice
            &&& final(pd).targeting_dice == old(pd).targeting_dice
            &&& final(pd).countermeasure_dice == old(pd).countermeasure_dice
            &&& final(pd).countermeasure_allocation == old(pd).countermeasure_allocation
            &&& final(pd).targeting_allocation == proposal.targeting_allocation
        },
{
    let buf = proposal.targeting_allocation;
    if buf.len() != pd.attack_dice.len() {
        return Err(RoundError::InvalidTargeting);
    }
    if !allocation_matches_dice(&buf, &pd.targeting_dice) {
        return Err(RoundError::InvalidTargeting);
    }
    pd.targeting_allocation = buf;
    Ok(())
}

/// Installs a provider's proposed countermeasure buffer after validating it
/// against this side's rolled countermeasure dice; the buffer must keep the
/// pre-set size of the opponent's attack-dice count.
fn allocate_countermeasures(
    pd: &mut PlayerDice,
    opponent_attack_count: usize,
    proposal: CountermeasureAllocation,
) -> (r: Result<(), RoundError>)
    ensures
        r is Ok <==> (proposal.countermeasure_allocation@.len() == opponent_attack_count
            && allocation_valid(
            proposal.countermeasure_allocation@,
            old(pd).countermeasure_dice@,
        )),
        r is Err ==> *final(pd) == *old(pd) && r == Result::<(), RoundError>::Err(
            RoundError::InvalidCountermeasures,
        ),
        r is Ok ==> {
            &&& final(pd).attack_dice == old(pd).attack_dice
            &&& final(pd).targeting_dice == old(pd).targeting_dice
            &&& final(pd).countermeasure_dice == old(pd).countermeasure_dice
            &&& final(pd).targeting_allocation == old(pd).targeting_allocation
            &&& final(pd).countermeasure_allocation == proposal.countermeasure_allocation
        },
{
    let buf = proposal.countermeasure_allocation;
    if buf.len() != opponent_attack_count {
        return Err(RoundError::InvalidCountermeasures);
    }
    if !allocation_matches_dice(&buf, &pd.countermeasure_dice) {
        return Err(RoundError::InvalidCountermeasures);
    }
    pd.countermeasure_allocation = buf;
    Ok(())
}

/// One side's round data is fully valid: rolled faces only, pools within the
/// budget, the targeting buffer sized to its own attack dice, the
/// countermeasure buffer sized to the *opponent's* attack dice, and both
/// buffers claiming only rolled values.
pub open spec fn round_side_valid(mine: PlayerDice, opp: PlayerDice) -> bool {
    &&& mine.dice_ok()
    &&& mine.within_budget()
    &&& mine.targeting_allocation@.len() == mine.attack_dice@.len()
    &&& mine.countermeasure_allocation@.len() == opp.attack_dice@.len()
    &&& allocation_valid(mine.targeting_allocation@, mine.targeting_dice@)
    &&& allocation_valid(mine.countermeasure_allocation@, mine.countermeasure_dice@)
}

/// One resolved round seen from both sides: every allocation was validated
/// before damage was computed, and each side's health dropped by exactly the
/// damage the opponent's attack scored against it, clamped at zero.
pub open spec fn round_resolved(
    pre1: u32,
    pre2: u32,
    post1: u32,
    post2: u32,
    d1: PlayerDice,
    d2: PlayerDice,
) -> bool {
    &&& round_side_valid(d1, d2)
    &&& round_side_valid(d2, d1)
    &&& post1 == hp_after_damage(
        pre1,
        round_damage(d2.attack_dice@, d2.targeting_allocation@, d1.countermeasure_allocation@),
    )
    &&& post2 == hp_after_damage(
        pre2,
        round_damage(d1.attack_dice@, d1.targeting_allocation@, d2.countermeasure_allocation@),
    )
}

/// After a resolved round, a side loses at most one health point per attack
/// die in the opponent's round data, and health never rises.
pub proof fn lemma_round_damage_bound(
    pre1: u32,
    pre2: u32,
    post1: u32,
    post2: u32,
    d1: PlayerDice,
    d2: PlayerDice,
)
    requires
        round_resolved(pre1, pre2, post1, post2, d1, d2),
    ensures
        post1 <= pre1 && pre1 - post1 <= d2.attack_dice@.len(),
        post2 <= pre2 && pre2 - post2 <= d1.attack_dice@.len(),
{
    lemma_damage_bounded(pre1, d2.attack_dice@, d2.targeting_allocation@, d1.countermeasure_allocation@);
    lemma_damage_bounded(pre2, d1.attack_dice@, d1.targeting_allocation@, d2.countermeasure_allocation@);
}

/// The all-zero buffer of `n` unallocated slots, as every provider context
/// starts out.
pub open spec fn zeroed(n: nat) -> Seq<u8> {
    Seq::new(n, |i: int| 0u8)
}

/// The empty pool split the resolver hands each pool decision provider.
pub open spec fn fresh_pool_split() -> PoolAllocation {
    PoolAllocation {
        actions: DEFAULT_ACTIONS,
        attack_pool: 0,
        targeting_pool: 0,
        countermeasure_pool: 0,
    }
}

/// `ctx` is the targeting context the resolver hands a provider for the round
/// data `d`: that side's rolled attack and targeting dice, and an unallocated
/// buffer with one slot per attack die.
pub open spec fn targeting_context(ctx: TargetingAllocation, d: PlayerDice) -> bool {
    &&& ctx.attack_dice@ == d.attack_dice@
    &&& ctx.targeting_dice@ == d.targeting_dice@
    &&& ctx.targeting_allocation@ == zeroed(d.attack_dice@.len())
}

/// `ctx` is the countermeasure context handed to the owner of `mine` facing
/// `opp`: the opponent's attack dice and targeting buffer as read-only
/// context, the owner's rolled countermeasure dice, and an unallocated buffer
/// with one slot per *opponent* attack die.
pub open spec fn countermeasure_context(
    ctx: CountermeasureAllocation,
    mine: PlayerDice,
    opp: PlayerDice,
) -> bool {
    &&& ctx.opponent_attack_dice@ == opp.attack_dice@
    &&& ctx.opponent_targeting_allocation@ == opp.targeting_allocation@
    &&& ctx.countermeasure_dice@ == mine.countermeasure_dice@
    &&& ctx.countermeasure_allocation@ == zeroed(opp.attack_dice@.len())
}

/// A targeting context in the shape the resolver builds: nothing allocated
/// yet, one slot per attack die.
pub open spec fn fresh_targeting_context(ctx: TargetingAllocation) -> bool {
    ctx.targeting_allocation@ == zeroed(ctx.attack_dice@.len())
}

/// A countermeasure context in the shape the resolver builds: nothing
/// allocated yet, one slot per opponent attack die.
pub open spec fn fresh_countermeasure_context(ctx: CountermeasureAllocation) -> bool {
    ctx.countermeasure_allocation@ == zeroed(ctx.opponent_attack_dice@.len())
}

/// Every pool split the provider may return for the fresh split it is handed
/// spends at most the action budget.
pub open spec fn provider_pools_valid<FA: Fn(&Player, PoolAllocation) -> PoolAllocation>(
    f: FA,
) -> bool {
    forall|p: &Player, s: PoolAllocation|
        #[trigger] call_ensures(f, (p, fresh_pool_split()), s) ==> s.attack_pool
            + s.targeting_pool + s.countermeasure_pool <= DEFAULT_ACTIONS
}

/// Every targeting buffer the provider may return for a fresh context keeps
/// the handed size and claims only rolled targeting-die values.
pub open spec fn provider_targeting_valid<
    FT: Fn(&Player, TargetingAllocation) -> TargetingAllocation,
>(f: FT) -> bool {
    forall|p: &Player, ctx: TargetingAllocation, t: TargetingAllocation|
        fresh_targeting_context(ctx) && #[trigger] call_ensures(f, (p, ctx), t) ==> {
            &&& t.targeting_allocation@.len() == ctx.attack_dice@.len()
            &&& allocation_valid(t.targeting_allocation@, ctx.targeting_dice@)
        }
}

/// Every countermeasure buffer the provider may return for a fresh context
/// keeps the handed size and claims only rolled countermeasure-die values.
pub open spec fn provider_countermeasures_valid<
    FC: Fn(&Player, CountermeasureAllocation) -> CountermeasureAllocation,
>(f: FC) -> bool {
    forall|p: &Player, ctx: CountermeasureAllocation, c: CountermeasureAllocation|
        fresh_countermeasure_context(ctx) && #[trigger] call_ensures(f, (p, ctx), c) ==> {
            &&& c.countermeasure_allocation@.len() == ctx.countermeasure_allocation@.len()
            &&& allocation_valid(c.countermeasure_allocation@, ctx.countermeasure_dice@)
        }
}

/// The round data of a successful round really came from the providers: each
/// side's dice pools have the sizes of a pool split the provider admits for
/// the fresh split it was handed, and each installed buffer is one the
/// provider admits for the context built from this very round data.
pub open spec fn round_from_providers<FA, FT, FC>(
    alloc_actions: FA,
    alloc_targeting: FT,
    alloc_countermeasures: FC,
    p1: Player,
    p2: Player,
    d1: PlayerDice,
    d2: PlayerDice,
) -> bool where
    FA: Fn(&Player, PoolAllocation) -> PoolAllocation,
    FT: Fn(&Player, TargetingAllocation) -> TargetingAllocation,
    FC: Fn(&Player, CountermeasureAllocation) -> CountermeasureAllocation,
 {
    &&& (exists|s: PoolAllocation|
        {
            &&& #[trigger] call_ensures(alloc_actions, (&p1, fresh_pool_split()), s)
            &&& d1.attack_dice@.len() == s.attack_pool
            &&& d1.targeting_dice@.len() == s.targeting_pool
            &&& d1.countermeasure_dice@.len() == s.countermeasure_pool
        })
    &&& (exists|s: PoolAllocation|
        {
            &&& #[trigger] call_ensures(alloc_actions, (&p2, fresh_pool_split()), s)
            &&& d2.attack_dice@.len() == s.attack_pool
            &&& d2.targeting_dice@.len() == s.targeting_pool
            &&& d2.countermeasure_dice@.len() == s.countermeasure_pool
        })
    &&& (exists|ctx: TargetingAllocation, t: TargetingAllocation|
        {
            &&& targeting_context(ctx, d1)
            &&& #[trigger] call_ensures(alloc_targeting, (&p1, ctx), t)
            &&& d1.targeting_allocation == t.targeting_allocation
        })
    &&& (exists|ctx: TargetingAllocation, t: TargetingAllocation|
        {
            &&& targeting_context(ctx, d2)
            &&& #[trigger] call_ensures(alloc_targeting, (&p2, ctx), t)
            &&& d2.targeting_allocation == t.targeting_allocation
        })
    &&& (exists|ctx: CountermeasureAllocation, c: CountermeasureAllocation|
        {
            &&& countermeasure_context(ctx, d1, d2)
            &&& #[trigger] call_ensures(alloc_countermeasures, (&p1, ctx), c)
            &&& d1.countermeasure_allocation == c.countermeasure_allocation
        })
    &&& (exists|ctx: CountermeasureAllocation, c: CountermeasureAllocation|
        {
            &&& countermeasure_context(ctx, d2, d1)
            &&& #[trigger] call_ensures(alloc_countermeasures, (&p2, ctx), c)
            &&& d2.countermeasure_allocation == c.countermeasure_allocation
        })
}

/// A two-combatant match: both players' names and remaining health.
pub struct Game {
    pub p1: Player,
    pub p2: Player,
}

impl Game {
    pub fn new(player1: &str, player2: &str) -> (g: Game)
        ensures
            g.p1.name@ == player1@,
            g.p2.name@ == player2@,
            g.p1.hp == START_HP,
            g.p2.hp == START_HP,
    {
        Game { p1: Player::new(player1), p2: Player::new(player2) }
    }

    pub fn player1(&self) -> (r: &Player)
        ensures
            *r == self.p1,
    {
        &self.p1
    }

    pub fn player2(&self) -> (r: &Player)
        ensures
            *r == self.p2,
    {
        &self.p2
    }

    /// Reports the match outcome for the current health values; pure, so
    /// re-evaluating it on an unchanged game gives the same answer.
    pub fn winner(&self) -> (w: Winner)
        ensures
            winner_correct(*self, w),
    {
        if self.p1.hp > 0 && self.p2.hp > 0 {
            Winner::Undecided
        } else if self.p1.hp > self.p2.hp {
            Winner::Player(&self.p1)
        } else if self.p1.hp < self.p2.hp {
            Winner::Player(&self.p2)
        } else {
            Winner::Draw
        }
    }

    /// Resolves one round. Each decision provider is called once per side; a
    /// provider that returns an invalid allocation aborts the round with an
    /// error before any damage is computed, leaving both combatants
    /// unchanged. When every return the providers admit is valid, the round
    /// succeeds; on success both healths drop by the damage scored against
    /// them in a fully validated set of round data that the providers' own
    /// returns produced.
    pub fn play_round<FA, FT, FC>(
        &mut self,
        alloc_actions: FA,
        alloc_targeting: FT,
        alloc_countermeasures: FC,
    ) -> (r: Result<(), RoundError>) where
        FA: Fn(&Player, PoolAllocation) -> PoolAllocation,
        FT: Fn(&Player, TargetingAllocation) -> TargetingAllocation,
        FC: Fn(&Player, CountermeasureAllocation) -> CountermeasureAllocation,

        requires
            forall|p: &Player, pa: PoolAllocation| #[trigger] call_requires(
                alloc_actions,
                (p, pa),
            ),
            forall|p: &Player, ta: TargetingAllocation| #[trigger] call_requires(
                alloc_targeting,
                (p, ta),
            ),
            forall|p: &Player, ca: CountermeasureAllocation| #[trigger] call_requires(
                alloc_countermeasures,
                (p, ca),
            ),
        ensures
            final(self).p1.name@ == old(self).p1.name@,
            final(self).p2.name@ == old(self).p2.name@,
            final(self).p1.hp <= old(self).p1.hp,
            final(self).p2.hp <= old(self).p2.hp,
            r is Err ==> *final(self) == *old(self),
            provider_pools_valid(alloc_actions) && provider_targeting_valid(alloc_targeting)
                && provider_countermeasures_valid(alloc_countermeasures) ==> r is Ok,
            r is Ok ==> exists|d1: PlayerDice, d2: PlayerDice|
                {
                    &&& #[trigger] round_resolved(
                        old(self).p1.hp,
                        old(self).p2.hp,
                        final(self).p1.hp,
                        final(self).p2.hp,
                        d1,
                        d2,
                    )
                    &&& round_from_providers(
                        alloc_actions,
                        alloc_targeting,
                        alloc_countermeasures,
                        old(self).p1,
                        old(self).p2,
                        d1,
                        d2,
                    )
                },
    {
        // Pool decisions; the action budget is the resolver's, not the
        // provider's, so only the chosen split is taken over.
        let fresh1 = PoolAllocation::new();
        proof {
            assert(fresh1 == fresh_pool_split());
        }
        let chosen1 = alloc_actions(&self.p1, fresh1);
        let pa1 = PoolAllocation {
            actions: DEFAULT_ACTIONS,
            attack_pool: chosen1.attack_pool,
            targeting_pool: chosen1.targeting_pool,
            countermeasure_pool: chosen1.countermeasure_pool,
        };
        let mut pd1 = match allocate_pools(&pa1) {
            Ok(pd) => pd,
            Err(e) => {
                proof {
                    if provider_pools_valid(alloc_actions) {
                        assert(call_ensures(
                            alloc_actions,
                            (&self.p1, fresh_pool_split()),
                            chosen1,
                        ));
                        assert(false);
                    }
                }
                return Err(e);
            },
        };
        let fresh2 = PoolAllocation::new();
        proof {
            assert(fresh2 == fresh_pool_split());
        }
        let chosen2 = alloc_actions(&self.p2, fresh2);
        let pa2 = PoolAllocation {
            actions: DEFAULT_ACTIONS,
            attack_pool: chosen2.attack_pool,
            targeting_pool: chosen2.targeting_pool,
            countermeasure_pool: chosen2.countermeasure_pool,
        };
        let mut pd2 = match allocate_pools(&pa2) {
            Ok(pd) => pd,
            Err(e) => {
                proof {
                    if provider_pools_valid(alloc_actions) {
                        assert(call_ensures(
                            alloc_actions,
                            (&self.p2, fresh_pool_split()),
                            chosen2,
                        ));
                        assert(false);
                    }
                }
                return Err(e);
            },
        };

        // Targeting decisions, each side against its own rolled dice.
        let ctx_t1 = TargetingAllocation::new(
            copy_values(&pd1.attack_dice),
            copy_values(&pd1.targeting_dice),
        );
        let ghost gctx_t1 = ctx_t1;
        proof {
            assert(gctx_t1.targeting_allocation@ =~= zeroed(gctx_t1.attack_dice@.len()));
        }
        let ta1 = alloc_targeting(&self.p1, ctx_t1);
        let ghost gta1 = ta1;
        match allocate_targeting(&mut pd1, ta1) {
            Ok(u) => u,
            Err(e) => {
                proof {
                    if provider_targeting_valid(alloc_targeting) {
                        assert(call_ensures(alloc_targeting, (&self.p1, gctx_t1), gta1));
                        assert(false);
                    }
                }
                return Err(e);
            },
        }
        let ctx_t2 = TargetingAllocation::new(
            copy_values(&pd2.attack_dice),
            copy_values(&pd2.targeting_dice),
        );
        let ghost gctx_t2 = ctx_t2;
        proof {
            assert(gctx_t2.targeting_allocation@ =~= zeroed(gctx_t2.attack_dice@.len()));
        }
        let ta2 = alloc_targeting(&self.p2, ctx_t2);
        let ghost gta2 = ta2;
        match allocate_targeting(&mut pd2, ta2) {
            Ok(u) => u,
            Err(e) => {
                proof {
                    if provider_targeting_valid(alloc_targeting) {
                        assert(call_ensures(alloc_targeting, (&self.p2, gctx_t2), gta2));
                        assert(false);
                    }
                }
                return Err(e);
            },
        }

        // Countermeasure decisions. Both sides have rolled by now, so each
        // context's buffer is pre-sized to the opponent's attack-dice count,
        // and the opponent's dice are handed over as read-only context.
        let ctx_c1 = CountermeasureAllocation::new(
            copy_values(&pd2.attack_dice),
            copy_values(&pd2.targeting_allocation),
            copy_values(&pd1.countermeasure_dice),
        );
        let ghost gctx_c1 = ctx_c1;
        proof {
            assert(gctx_c1.countermeasure_allocation@ =~= zeroed(
                gctx_c1.opponent_attack_dice@.len(),
            ));
        }
        let ca1 = alloc_countermeasures(&self.p1, ctx_c1);
        let ghost gca1 = ca1;
        match allocate_countermeasures(&mut pd1, pd2.attack_dice.len(), ca1) {
            Ok(u) => u,
            Err(e) => {
                proof {
                    if provider_countermeasures_valid(alloc_countermeasures) {
                        assert(call_ensures(alloc_countermeasures, (&self.p1, gctx_c1), gca1));
                        assert(false);
                    }
                }
                return Err(e);
            },
        }
        let ctx_c2 = CountermeasureAllocation::new(
            copy_values(&pd1.attack_dice),
            copy_values(&pd1.targeting_allocation),
            copy_values(&pd2.countermeasure_dice),
        );
        let ghost gctx_c2 = ctx_c2;
        proof {
            assert(gctx_c2.countermeasure_allocation@ =~= zeroed(
                gctx_c2.opponent_attack_dice@.len(),
            ));
        }
        let ca2 = alloc_countermeasures(&self.p2, ctx_c2);
        let ghost gca2 = ca2;
        match allocate_countermeasures(&mut pd2, pd1.attack_dice.len(), ca2) {
            Ok(u) => u,
            Err(e) => {
                proof {
                    if provider_countermeasures_valid(alloc_countermeasures) {
                        assert(call_ensures(alloc_countermeasures, (&self.p2, gctx_c2), gca2));
                        assert(false);
                    }
                }
                return Err(e);
            },
        }

        // All allocations are valid: compute damage and update health.
        self.p1.hp = apply_damage(self.p1.hp, &pd1, &pd2);
        self.p2.hp = apply_damage(self.p2.hp, &pd2, &pd1);
        proof {
            assert(call_ensures(alloc_actions, (&old(self).p1, fresh_pool_split()), chosen1));
            assert(call_ensures(alloc_actions, (&old(self).p2, fresh_pool_split()), chosen2));
            assert(targeting_context(gctx_t1, pd1));
            assert(targeting_context(gctx_t2, pd2));
            assert(call_ensures(alloc_targeting, (&old(self).p1, gctx_t1), gta1));
            assert(call_ensures(alloc_targeting, (&old(self).p2, gctx_t2), gta2));
            assert(countermeasure_context(gctx_c1, pd1, pd2));
            assert(countermeasure_context(gctx_c2, pd2, pd1));
            assert(call_ensures(alloc_countermeasures, (&old(self).p1, gctx_c1), gca1));
            assert(call_ensures(alloc_countermeasures, (&old(self).p2, gctx_c2), gca2));
            assert(round_from_providers(
                alloc_actions,
                alloc_targeting,
                alloc_countermeasures,
                old(self).p1,
                old(self).p2,
                pd1,
                pd2,
            ));
            assert(round_resolved(
                old(self).p1.hp,
                old(self).p2.hp,
                self.p1.hp,
                self.p2.hp,
                pd1,
                pd2,
            ));
        }
        Ok(())
    }
}

} // verus!
