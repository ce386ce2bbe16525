use vstd::prelude::*;
use vstd::multiset::Multiset;

verus! {

/// How often the value `v` occurs in `s`.
pub open spec fn value_count(s: Seq<u8>, v: u8) -> nat
    decreases s.len(),
{
    if s.len() == 0 {
        0
    } else {
        value_count(s.drop_last(), v) + if s.last() == v {
            1nat
        } else {
            0nat
        }
    }
}

/// The non-zero entries of an allocation buffer, in order.
pub open spec fn nonzero_values(s: Seq<u8>) -> Seq<u8>
    decreases s.len(),
{
    if s.len() == 0 {
        Seq::empty()
    } else if s.last() != 0 {
        nonzero_values(s.drop_last()).push(s.last())
    } else {
        nonzero_values(s.drop_last())
    }
}

/// An allocation buffer is valid for a set of rolled dice when every die value
/// it claims (a non-zero entry) is claimed no more often than that value was
/// rolled. Entries of 0 claim nothing.
pub open spec fn allocation_valid(alloc: Seq<u8>, dice: Seq<u8>) -> bool {
    forall|v: u8| v != 0 ==> #[trigger] value_count(alloc, v) <= value_count(dice, v)
}

/// The caller-level policy on an allocation buffer: as many dice as can be
/// used must be used, so the number of non-zero entries is at least the
/// smaller of the number of slots and the number of rolled dice.
pub open spec fn uses_available_dice(alloc: Seq<u8>, slots: nat, dice: nat) -> bool {
    nonzero_values(alloc).len() >= if slots <= dice {
        slots
    } else {
        dice
    }
}

pub proof fn lemma_value_count_contains(s: Seq<u8>, v: u8)
    ensures
        value_count(s, v) > 0 <==> s.contains(v),
    decreases s.len(),
{
    if s.len() == 0 {
        assert(!s.contains(v));
    } else {
        lemma_value_count_contains(s.drop_last(), v);
        if s.last() == v {
            assert(s[s.len() - 1] == v);
            assert(s.contains(v));
        } else {
            if s.contains(v) {
                let j = choose|j: int| 0 <= j < s.len() && s[j] == v;
                assert(s.drop_last()[j] == v);
                assert(s.drop_last().contains(v));
            }
            if s.drop_last().contains(v) {
                let j = choose|j: int| 0 <= j < s.drop_last().len() && s.drop_last()[j] == v;
                assert(s[j] == v);
                assert(s.contains(v));
            }
        }
    }
}

pub proof fn lemma_value_count_is_multiset_count(s: Seq<u8>, v: u8)
    ensures
        s.to_multiset().count(v) == value_count(s, v),
    decreases s.len(),
{
    broadcast use vstd::seq_lib::group_to_multiset_ensures;
    broadcast use vstd::multiset::group_multiset_axioms;

    if s.len() == 0 {
        assert(!s.contains(v));
    } else {
        lemma_value_count_is_multiset_count(s.drop_last(), v);
        assert(s.drop_last().push(s.last()) =~= s);
        assert(s.drop_last().push(s.last()).to_multiset() =~= s.drop_last().to_multiset().insert(
            s.last(),
        ));
    }
}

pub proof fn lemma_nonzero_values_count(s: Seq<u8>, v: u8)
    ensures
        v != 0 ==> value_count(nonzero_values(s), v) == value_count(s, v),
        value_count(nonzero_values(s), 0) == 0,
    decreases s.len(),
{
    if s.len() == 0 {
    } else {
        lemma_nonzero_values_count(s.drop_last(), v);
        lemma_nonzero_values_count(s.drop_last(), 0);
        if s.last() != 0 {
            assert(nonzero_values(s) == nonzero_values(s.drop_last()).push(s.last()));
            assert(nonzero_values(s).drop_last() =~= nonzero_values(s.drop_last()));
            assert(nonzero_values(s).last() == s.last());
        }
    }
}

/// The validator's meaning as a law: an allocation buffer is valid for a set
/// of rolled dice exactly when the multiset of its non-zero entries is a
/// sub-multiset of the rolled die values, so a rolled value can never be
/// claimed more often than it was rolled.
pub proof fn lemma_allocation_valid_is_submultiset(alloc: Seq<u8>, dice: Seq<u8>)
    ensures
        allocation_valid(alloc, dice) <==> nonzero_values(alloc).to_multiset().subset_of(
            dice.to_multiset(),
        ),
{
    if allocation_valid(alloc, dice) {
        assert forall|v: u8|
            nonzero_values(alloc).to_multiset().count(v) <= dice.to_multiset().count(v) by {
            lemma_value_count_is_multiset_count(nonzero_values(alloc), v);
            lemma_value_count_is_multiset_count(dice, v);
            lemma_nonzero_values_count(alloc, v);
            if v != 0 {
                assert(value_count(alloc, v) <= value_count(dice, v));
            }
        };
    }
    if nonzero_values(alloc).to_multiset().subset_of(dice.to_multiset()) {
        assert forall|v: u8| v != 0 implies #[trigger] value_count(alloc, v) <= value_count(
            dice,
            v,
        ) by {
            lemma_value_count_is_multiset_count(nonzero_values(alloc), v);
            lemma_value_count_is_multiset_count(dice, v);
            lemma_nonzero_values_count(alloc, v);
            assert(nonzero_values(alloc).to_multiset().count(v) <= dice.to_multiset().count(v));
        };
    }
}

/// Counts how often `v` occurs in `s`.
fn count_value(s: &Vec<u8>, v: u8) -> (n: usize)
    ensures
        n == value_count(s@, v),
{
    let mut n: usize = 0;
    let mut i: usize = 0;
    while i < s.len()
        invariant
            0 <= i <= s@.len(),
            n == value_count(s@.take(i as int), v),
            n <= i,
        decreases s@.len() - i,
    {
        proof {
            assert(s@.take(i + 1).drop_last() =~= s@.take(i as int));
            assert(s@.take(i + 1).last() == s@[i as int]);
        }
        if s[i] == v {
            n = n + 1;
        }
        i = i + 1;
    }
    proof {
        assert(s@.take(s@.len() as int) =~= s@);
    }
    n
}

/// Counts the non-zero entries of `s`.
fn count_nonzero(s: &Vec<u8>) -> (n: usize)
    ensures
        n == nonzero_values(s@).len(),
{
    let mut n: usize = 0;
    let mut i: usize = 0;
    while i < s.len()
        invariant
            0 <= i <= s@.len(),
            n == nonzero_values(s@.take(i as int)).len(),
            n <= i,
        decreases s@.len() - i,
    {
        proof {
            assert(s@.take(i + 1).drop_last() =~= s@.take(i as int));
            assert(s@.take(i + 1).last() == s@[i as int]);
        }
        if s[i] != 0 {
            n = n + 1;
        }
        i = i + 1;
    }
    proof {
        assert(s@.take(s@.len() as int) =~= s@);
    }
    n
}

/// Decides `allocation_valid`: every rolled die may back at most one claim,
/// claims are matched to rolled dice by face value, and entries of 0 are
/// skipped.
pub(crate) fn allocation_matches_dice(alloc: &Vec<u8>, dice: &Vec<u8>) -> (r: bool)
    ensures
        r == allocation_valid(alloc@, dice@),
{
    let mut i: usize = 0;
    while i < alloc.len()
        invariant
            0 <= i <= alloc@.len(),
            forall|j: int|
                0 <= j < i && alloc@[j] != 0 ==> #[trigger] value_count(alloc@, alloc@[j])
                    <= value_count(dice@, alloc@[j]),
        decreases alloc@.len() - i,
    {
        let v = alloc[i];
        if v != 0 {
            if count_value(alloc, v) > count_value(dice, v) {
                return false;
            }
        }
        i = i + 1;
    }
    proof {
        assert forall|v: u8| v != 0 implies #[trigger] value_count(alloc@, v) <= value_count(
            dice@,
            v,
        ) by {
            if value_count(alloc@, v) > 0 {
                lemma_value_count_contains(alloc@, v);
                let j = choose|j: int| 0 <= j < alloc@.len() && alloc@[j] == v;
                assert(value_count(alloc@, alloc@[j]) <= value_count(dice@, alloc@[j]));
            }
        };
    }
    true
}

/// One side's view of the targeting step: its own rolled attack and targeting
/// dice, and a buffer that assigns a claimed targeting-die value (or 0) to
/// each attack die by position.
pub struct TargetingAllocation {
    pub attack_dice: Vec<u8>,
    pub targeting_dice: Vec<u8>,
    pub targeting_allocation: Vec<u8>,
}

impl TargetingAllocation {
    /// A fresh targeting buffer has one (unallocated) slot per attack die.
    pub fn new(attack_dice: Vec<u8>, targeting_dice: Vec<u8>) -> (r: TargetingAllocation)
        ensures
            r.attack_dice@ == attack_dice@,
            r.targeting_dice@ == targeting_dice@,
            r.targeting_allocation@.len() == attack_dice@.len(),
            forall|i: int|
                0 <= i < r.targeting_allocation@.len() ==> r.targeting_allocation@[i] == 0,
    {
        let slots = attack_dice.len();
        TargetingAllocation {
            attack_dice,
            targeting_dice,
            targeting_allocation: zero_buffer(slots),
        }
    }

    pub fn attack_dice(&self) -> (r: &Vec<u8>)
        ensures
            r@ == self.attack_dice@,
    {
        &self.attack_dice
    }

    pub fn targeting_dice(&self) -> (r: &Vec<u8>)
        ensures
            r@ == self.targeting_dice@,
    {
        &self.targeting_dice
    }

    pub fn targeting_allocation(&self) -> (r: &Vec<u8>)
        ensures
            r@ == self.targeting_allocation@,
    {
        &self.targeting_allocation
    }

    pub fn targeting_allocation_mut(&mut self) -> (r: &mut Vec<u8>)
        ensures
            *r == old(self).targeting_allocation,
            final(self).attack_dice == old(self).attack_dice,
            final(self).targeting_dice == old(self).targeting_dice,
            final(self).targeting_allocation == *final(r),
    {
        &mut self.targeting_allocation
    }

    /// True when the buffer claims only rolled targeting-die values, each
    /// rolled die at most once.
    pub fn is_valid(&self) -> (r: bool)
        ensures
            r == allocation_valid(self.targeting_allocation@, self.targeting_dice@),
    {
        allocation_matches_dice(&self.targeting_allocation, &self.targeting_dice)
    }

    /// Caller-level policy, layered above `is_valid`: the provider must
    /// support as many attack dice as its targeting dice allow.
    pub fn uses_available_dice(&self) -> (r: bool)
        ensures
            r == uses_available_dice(
                self.targeting_allocation@,
                self.attack_dice@.len(),
                self.targeting_dice@.len(),
            ),
    {
        let used = count_nonzero(&self.targeting_allocation);
        used >= self.attack_dice.len() || used >= self.targeting_dice.len()
    }
}

/// One side's view of the countermeasure step: the opponent's rolled attack
/// dice and targeting buffer (read-only context), this side's own rolled
/// countermeasure dice, and a buffer that assigns a claimed countermeasure-die
/// value (or 0) to each *incoming* attack die by position.
pub struct CountermeasureAllocation {
    pub opponent_attack_dice: Vec<u8>,
    pub opponent_targeting_allocation: Vec<u8>,
    pub countermeasure_dice: Vec<u8>,
    pub countermeasure_allocation: Vec<u8>,
}

impl CountermeasureAllocation {
    /// A fresh countermeasure buffer has one (unallocated) slot per *opponent*
    /// attack die: a defender answers incoming threats, not its own dice.
    pub fn new(
        opponent_attack_dice: Vec<u8>,
        opponent_targeting_allocation: Vec<u8>,
        countermeasure_dice: Vec<u8>,
    ) -> (r: CountermeasureAllocation)
        ensures
            r.opponent_attack_dice@ == opponent_attack_dice@,
            r.opponent_targeting_allocation@ == opponent_targeting_allocation@,
            r.countermeasure_dice@ == countermeasure_dice@,
            r.countermeasure_allocation@.len() == opponent_attack_dice@.len(),
            forall|i: int|
                0 <= i < r.countermeasure_allocation@.len() ==> r.countermeasure_allocation@[i]
                    == 0,
    {
        let slots = opponent_attack_dice.len();
        CountermeasureAllocation {
            opponent_attack_dice,
            opponent_targeting_allocation,
            countermeasure_dice,
            countermeasure_allocation: zero_buffer(slots),
        }
    }

    pub fn opponent_attack_dice(&self) -> (r: &Vec<u8>)
        ensures
            r@ == self.opponent_attack_dice@,
    {
        &self.opponent_attack_dice
    }

    pub fn opponent_targeting_allocation(&self) -> (r: &Vec<u8>)
        ensures
            r@ == self.opponent_targeting_allocation@,
    {
        &self.opponent_targeting_allocation
    }

    pub fn countermeasure_dice(&self) -> (r: &Vec<u8>)
        ensures
            r@ == self.countermeasure_dice@,
    {
        &self.countermeasure_dice
    }

    pub fn countermeasure_allocation(&self) -> (r: &Vec<u8>)
        ensures
            r@ == self.countermeasure_allocation@,
    {
        &self.countermeasure_allocation
    }

    pub fn countermeasure_allocation_mut(&mut self) -> (r: &mut Vec<u8>)
        ensures
            *r == old(self).countermeasure_allocation,
            final(self).opponent_attack_dice == old(self).opponent_attack_dice,
            final(self).opponent_targeting_allocation == old(self).opponent_targeting_allocation,
            final(self).countermeasure_dice == old(self).countermeasure_dice,
            final(self).countermeasure_allocation == *final(r),
    {
        &mut self.countermeasure_allocation
    }

    /// True when the buffer claims only rolled countermeasure-die values, each
    /// rolled die at most once.
    pub fn is_valid(&self) -> (r: bool)
        ensures
            r == allocation_valid(self.countermeasure_allocation@, self.countermeasure_dice@),
    {
        allocation_matches_dice(&self.countermeasure_allocation, &self.countermeasure_dice)
    }

    /// Caller-level policy, layered above `is_valid`: the provider must
    /// answer as many incoming attack dice as its countermeasure dice allow.
    pub fn uses_available_dice(&self) -> (r: bool)
        ensures
            r == uses_available_dice(
                self.countermeasure_allocation@,
                self.opponent_attack_dice@.len(),
                self.countermeasure_dice@.len(),
            ),
    {
        let used = count_nonzero(&self.countermeasure_allocation);
        used >= self.opponent_attack_dice.len() || used >= self.countermeasure_dice.len()
    }
}

/// A buffer of `n` unallocated (zero) entries.
pub(crate) fn zero_buffer(n: usize) -> (v: Vec<u8>)
    ensures
        v@.len() == n,
        forall|i: int| 0 <= i < n ==> v@[i] == 0,
{
    let mut v: Vec<u8> = Vec::new();
    let mut i: usize = 0;
    while i < n
        invariant
            0 <= i <= n,
            v@.len() == i,
            forall|j: int| 0 <= j < i ==> v@[j] == 0,
        decreases n - i,
    {
        v.push(0);
        i = i + 1;
    }
    v
}

} // verus!
