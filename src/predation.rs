//! Predation: eaters and prey that share a cell.
//!
//! Both phases read a snapshot of the creatures taken before either
//! runs, so what one entity ate cannot change whether another may eat it
//! in the same tick.

use vstd::prelude::*;
use crate::components::{Creature, HP, Satiety, Species, eats, healing_hp, healing_satiety, is_weak, is_healthy};
use crate::consts::{HEALING_HP_BEAR, HEALING_SATIETY_HUMAN};

verus! {

/// `eater` may eat `prey` now: the predation graph allows it, they share
/// a cell, a weak bear is eaten only while weak, and a human only by a
/// healthy eater.
pub open spec fn can_eat(eater: Creature, prey: Creature) -> bool {
    &&& eats(eater.species, prey.species)
    &&& eater.pos == prey.pos
    &&& (prey.species == Species::WeakBear ==> is_weak(prey.hp))
    &&& (prey.species == Species::Human ==> is_healthy(eater.hp))
}

/// Health `eater` gains from the prey among the first `n` creatures of
/// `cs`: the healing of each prey it may eat, once per prey.
pub open spec fn hp_gain(cs: Seq<Creature>, eater: Creature, n: nat) -> nat
    decreases n,
{
    if n == 0 {
        0
    } else {
        let prey = cs[n - 1];
        hp_gain(cs, eater, (n - 1) as nat) + if can_eat(eater, prey) {
            healing_hp(prey.species) as nat
        } else {
            0
        }
    }
}

/// Satiety `eater` gains from the prey among the first `n` creatures.
pub open spec fn satiety_gain(cs: Seq<Creature>, eater: Creature, n: nat) -> nat
    decreases n,
{
    if n == 0 {
        0
    } else {
        let prey = cs[n - 1];
        satiety_gain(cs, eater, (n - 1) as nat) + if can_eat(eater, prey) {
            healing_satiety(prey.species) as nat
        } else {
            0
        }
    }
}

/// Some creature of `cs` may eat `prey`.
pub open spec fn is_eaten(cs: Seq<Creature>, prey: Creature) -> bool {
    exists|j: int| 0 <= j < cs.len() && can_eat(#[trigger] cs[j], prey)
}

/// `a + g`, stopping at the largest `u64`.
pub open spec fn capped_add(a: u64, g: nat) -> u64 {
    if a + g > u64::MAX { u64::MAX } else { (a + g) as u64 }
}

/// Creature `c`, standing at index `i`, after the eat phase over
/// `snapshot`: its health and satiety are those of the snapshot plus what
/// it ate.
pub open spec fn fed(c: Creature, snapshot: Seq<Creature>, i: int) -> Creature {
    let s = snapshot[i];
    Creature {
        hp: HP { val: capped_add(s.hp.val, hp_gain(snapshot, s, snapshot.len())), ..c.hp },
        satiety: Satiety {
            val: capped_add(s.satiety.val, satiety_gain(snapshot, s, snapshot.len())),
            ..c.satiety
        },
        ..c
    }
}

/// The creatures after the eat phase over `snapshot`.
pub open spec fn after_eat(cs: Seq<Creature>, snapshot: Seq<Creature>) -> Seq<Creature> {
    Seq::new(cs.len(), |i: int| fed(cs[i], snapshot, i))
}

/// The creatures after the eaten phase over `snapshot`: every prey that
/// some eater may eat has its health set to zero.
pub open spec fn after_eaten(cs: Seq<Creature>, snapshot: Seq<Creature>) -> Seq<Creature> {
    Seq::new(
        cs.len(),
        |i: int|
            if is_eaten(snapshot, snapshot[i]) {
                Creature { hp: HP { val: 0, ..cs[i].hp }, ..cs[i] }
            } else {
                cs[i]
            },
    )
}

proof fn lemma_gain_bounds(cs: Seq<Creature>, eater: Creature, n: nat)
    requires
        n <= cs.len(),
    ensures
        hp_gain(cs, eater, n) <= n * HEALING_HP_BEAR,
        satiety_gain(cs, eater, n) <= n * HEALING_SATIETY_HUMAN,
    decreases n,
{
    if n > 0 {
        lemma_gain_bounds(cs, eater, (n - 1) as nat);
    }
}

/// Whether `eater` may eat `prey` now.
pub fn can_eat_now(eater: &Creature, prey: &Creature) -> (r: bool)
    ensures
        r == can_eat(*eater, *prey),
{
    if !eater.species.eats(prey.species) || eater.pos != prey.pos {
        return false;
    }
    match prey.species {
        Species::WeakBear => prey.hp.is_weak(),
        Species::Human => eater.hp.is_healthy(),
        _ => true,
    }
}

/// `a + g`, stopping at the largest `u64`.
fn add_capped(a: u64, g: u128) -> (r: u64)
    ensures
        r == capped_add(a, g as nat),
{
    if g > (u64::MAX - a) as u128 {
        u64::MAX
    } else {
        a + g as u64
    }
}

/// The eat phase: each eater gains, once for each prey it may eat, that
/// prey's healing in health and its gain in satiety. Gains are counted
/// over `snapshot`, the creatures as they stood before predation.
pub fn eat_phase(creatures: &mut Vec<Creature>, snapshot: &Vec<Creature>)
    requires
        old(creatures)@.len() == snapshot@.len(),
    ensures
        final(creatures)@ == after_eat(old(creatures)@, snapshot@),
{
    let n = snapshot.len();
    let mut i: usize = 0;
    while i < n
        invariant
            n == snapshot@.len(),
            creatures@.len() == n,
            old(creatures)@.len() == n,
            i <= n,
            forall|k: int| 0 <= k < i ==> creatures@[k] == fed(old(creatures)@[k], snapshot@, k),
            forall|k: int| i <= k < n ==> creatures@[k] == old(creatures)@[k],
        decreases n - i,
    {
        let eater = snapshot[i];
        let mut hp_total: u128 = 0;
        let mut sat_total: u128 = 0;
        let mut j: usize = 0;
        while j < n
            invariant
                n == snapshot@.len(),
                j <= n,
                eater == snapshot@[i as int],
                hp_total == hp_gain(snapshot@, eater, j as nat),
                sat_total == satiety_gain(snapshot@, eater, j as nat),
            decreases n - j,
        {
            proof {
                lemma_gain_bounds(snapshot@, eater, j as nat);
            }
            let prey = snapshot[j];
            if can_eat_now(&eater, &prey) {
                hp_total = hp_total + prey.species.healing_hp() as u128;
                sat_total = sat_total + prey.species.healing_satiety() as u128;
            }
            j = j + 1;
        }
        let mut c = creatures[i];
        c.hp.val = add_capped(eater.hp.val, hp_total);
        c.satiety.val = add_capped(eater.satiety.val, sat_total);
        creatures.set(i, c);
        i = i + 1;
    }
    assert(creatures@ == after_eat(old(creatures)@, snapshot@));
}

/// Whether some creature of `snapshot` may eat `prey`.
pub fn eaten_now(snapshot: &Vec<Creature>, prey: &Creature) -> (r: bool)
    ensures
        r == is_eaten(snapshot@, *prey),
{
    let mut j: usize = 0;
    while j < snapshot.len()
        invariant
            j <= snapshot@.len(),
            forall|k: int| 0 <= k < j ==> !can_eat(#[trigger] snapshot@[k], *prey),
        decreases snapshot@.len() - j,
    {
        if can_eat_now(&snapshot[j], prey) {
            return true;
        }
        j = j + 1;
    }
    false
}

/// The eaten phase: every prey that some eater of `snapshot` may eat has
/// its health set to exactly zero, to be purged at the end of the tick.
pub fn eaten_phase(creatures: &mut Vec<Creature>, snapshot: &Vec<Creature>)
    requires
        old(creatures)@.len() == snapshot@.len(),
    ensures
        final(creatures)@ == after_eaten(old(creatures)@, snapshot@),
{
    let n = snapshot.len();
    let mut i: usize = 0;
    while i < n
        invariant
            n == snapshot@.len(),
            creatures@.len() == n,
            old(creatures)@.len() == n,
            i <= n,
            forall|k: int| 0 <= k < i ==> creatures@[k] == after_eaten(old(creatures)@, snapshot@)[k],
            forall|k: int| i <= k < n ==> creatures@[k] == old(creatures)@[k],
        decreases n - i,
    {
        if eaten_now(snapshot, &snapshot[i]) {
            let mut c = creatures[i];
            c.hp.val = 0;
            creatures.set(i, c);
        }
        i = i + 1;
    }
    assert(creatures@ == after_eaten(old(creatures)@, snapshot@));
}

/// A copy of the creatures, taken before predation.
pub fn snapshot(creatures: &Vec<Creature>) -> (r: Vec<Creature>)
    ensures
        r@ == creatures@,
{
    let mut r: Vec<Creature> = Vec::new();
    let mut i: usize = 0;
    while i < creatures.len()
        invariant
            i <= creatures@.len(),
            r@ == creatures@.subrange(0, i as int),
        decreases creatures@.len() - i,
    {
        r.push(creatures[i]);
        i = i + 1;
    }
    assert(r@ == creatures@);
    r
}

/// Predation for one tick: the eat phase, then the eaten phase, both over
/// the creatures as they stood before either.
pub fn predation(creatures: &mut Vec<Creature>)
    ensures
        final(creatures)@ == after_eaten(after_eat(old(creatures)@, old(creatures)@), old(creatures)@),
{
    let snap = snapshot(creatures);
    eat_phase(creatures, &snap);
    eaten_phase(creatures, &snap);
}

/// Eat resolution is idempotent within a tick: running it a second time
/// over the same snapshot changes nothing more.
pub proof fn lemma_eat_idempotent(cs: Seq<Creature>, snapshot: Seq<Creature>)
    requires
        cs.len() == snapshot.len(),
    ensures
        after_eat(after_eat(cs, snapshot), snapshot) == after_eat(cs, snapshot),
{
    assert(after_eat(after_eat(cs, snapshot), snapshot) =~= after_eat(cs, snapshot));
}

/// Healing is applied once per prey: an eater that may eat exactly one
/// creature gains exactly that prey's healing and satiety.
pub proof fn lemma_single_prey_gain(cs: Seq<Creature>, eater: Creature, j: int)
    requires
        0 <= j < cs.len(),
        can_eat(eater, cs[j]),
        forall|k: int| 0 <= k < cs.len() && k != j ==> !can_eat(eater, #[trigger] cs[k]),
    ensures
        hp_gain(cs, eater, cs.len()) == healing_hp(cs[j].species),
        satiety_gain(cs, eater, cs.len()) == healing_satiety(cs[j].species),
{
    lemma_single_prey_prefix(cs, eater, j, cs.len());
}

proof fn lemma_single_prey_prefix(cs: Seq<Creature>, eater: Creature, j: int, n: nat)
    requires
        0 <= j < cs.len(),
        n <= cs.len(),
        forall|k: int| 0 <= k < cs.len() && k != j ==> !can_eat(eater, #[trigger] cs[k]),
        can_eat(eater, cs[j]),
    ensures
        hp_gain(cs, eater, n) == if j < n { healing_hp(cs[j].species) as nat } else { 0 },
        satiety_gain(cs, eater, n) == if j < n { healing_satiety(cs[j].species) as nat } else { 0 },
    decreases n,
{
    if n > 0 {
        lemma_single_prey_prefix(cs, eater, j, (n - 1) as nat);
    }
}

/// Gains are counted per prey instance: an eater that may eat each of the
/// first `n` creatures, all of species `s`, gains `n` times the healing
/// and the satiety of `s`.
pub proof fn lemma_gain_per_prey(cs: Seq<Creature>, eater: Creature, s: Species, n: nat)
    requires
        n <= cs.len(),
        forall|k: int| 0 <= k < n ==> (can_eat(eater, #[trigger] cs[k]) && cs[k].species == s),
    ensures
        hp_gain(cs, eater, n) == n * healing_hp(s),
        satiety_gain(cs, eater, n) == n * healing_satiety(s),
    decreases n,
{
    if n > 0 {
        lemma_gain_per_prey(cs, eater, s, (n - 1) as nat);
        assert(can_eat(eater, cs[n - 1]));
        let h = healing_hp(s) as int;
        let g = healing_satiety(s) as int;
        let m = n as int;
        assert(cs[n - 1].species == s);
        assert(hp_gain(cs, eater, n) == hp_gain(cs, eater, (n - 1) as nat) + h);
        assert(satiety_gain(cs, eater, n) == satiety_gain(cs, eater, (n - 1) as nat) + g);
        assert((m - 1) * h + h == m * h && (m - 1) * g + g == m * g) by (nonlinear_arith);
    }
}

/// How many of the first `n` creatures of `cs` `eater` may eat.
pub open spec fn prey_count(cs: Seq<Creature>, eater: Creature, n: nat) -> nat
    decreases n,
{
    if n == 0 {
        0
    } else {
        prey_count(cs, eater, (n - 1) as nat) + if can_eat(eater, cs[n - 1]) { 1nat } else { 0 }
    }
}

/// Healing is counted once per distinct prey: when every creature that
/// `eater` may eat is of species `s`, it gains the number of those prey
/// times the healing and the satiety of `s`, and nothing when there are
/// none.
pub proof fn lemma_gain_counts_prey(cs: Seq<Creature>, eater: Creature, s: Species, n: nat)
    requires
        n <= cs.len(),
        forall|k: int| 0 <= k < n && can_eat(eater, #[trigger] cs[k]) ==> cs[k].species == s,
    ensures
        hp_gain(cs, eater, n) == prey_count(cs, eater, n) * healing_hp(s),
        satiety_gain(cs, eater, n) == prey_count(cs, eater, n) * healing_satiety(s),
    decreases n,
{
    if n > 0 {
        lemma_gain_counts_prey(cs, eater, s, (n - 1) as nat);
        let m = prey_count(cs, eater, (n - 1) as nat) as int;
        let h = healing_hp(s) as int;
        let g = healing_satiety(s) as int;
        if can_eat(eater, cs[n - 1]) {
            assert(cs[n - 1].species == s);
            assert((m + 1) * h == m * h + h && (m + 1) * g == m * g + g) by (nonlinear_arith);
        }
    }
}

} // verus!
