//! Hunger, aging, reproduction, lifecycle transitions and removal of the
//! dead.

use vstd::prelude::*;
use crate::components::{Creature, Position, Species, HP, Age, Satiety, in_bounds, shifted, rested, newborn, walnut_at, weak_bear_at};
use crate::consts::{SPAWN_RANGE, HEALTHSPAN_STRONG_BEAR, LIFESPAN_WEAK_BEAR, WALNUT_ROLL_MAX, WALNUT_THRESHOLD};
use crate::field::Field;
use crate::random::random_in;

verus! {

/// Creature `c` after one tick of metabolism: hunger takes its health
/// down by its decay (not below zero), its stamina rests, and it ages by
/// one tick.
pub open spec fn metabolized(c: Creature) -> Creature {
    Creature {
        hp: HP { val: c.hp.val.saturating_sub(c.hp.decay), ..c.hp },
        stamina: rested(c.stamina),
        age: Age { val: c.age.val.saturating_add(1) },
        ..c
    }
}

/// One tick of metabolism for every creature.
pub fn metabolism(creatures: &mut Vec<Creature>)
    ensures
        final(creatures)@ == old(creatures)@.map_values(|c: Creature| metabolized(c)),
{
    let n = creatures.len();
    let mut i: usize = 0;
    while i < n
        invariant
            n == creatures@.len(),
            old(creatures)@.len() == n,
            i <= n,
            forall|k: int| 0 <= k < i ==> creatures@[k] == metabolized(old(creatures)@[k]),
            forall|k: int| i <= k < n ==> creatures@[k] == old(creatures)@[k],
        decreases n - i,
    {
        let mut c = creatures[i];
        c.hp.hunger();
        c.stamina.cool_down();
        c.age.get_old();
        creatures.set(i, c);
        i = i + 1;
    }
    assert(creatures@ == old(creatures)@.map_values(|c: Creature| metabolized(c)));
}

/// Hunger alone never raises health, and never takes it below zero.
pub proof fn lemma_hunger_non_increasing(c: Creature)
    ensures
        metabolized(c).hp.val <= c.hp.val,
        c.hp.val <= c.hp.decay ==> metabolized(c).hp.val == 0,
        c.hp.val > c.hp.decay ==> metabolized(c).hp.val == c.hp.val - c.hp.decay,
{
}

/// `q` is a cell where a newborn of a parent at `pos` may land: a
/// terrain cell other than `pos`, at an offset in `-SPAWN_RANGE ..
/// SPAWN_RANGE` on each axis.
pub open spec fn is_spawn_site(field: Field, pos: Position, q: Position) -> bool {
    &&& -SPAWN_RANGE <= q.x - pos.x < SPAWN_RANGE
    &&& -SPAWN_RANGE <= q.y - pos.y < SPAWN_RANGE
    &&& q != pos
    &&& field.contains(q)
}

/// Some cell near `pos` can take a newborn.
pub open spec fn has_spawn_site(field: Field, pos: Position) -> bool {
    exists|q: Position| is_spawn_site(field, pos, q)
}

/// The cells that can take a newborn in the column at offset `dx` from
/// `pos`, among its first `n` cells from the bottom of the spawn range.
pub open spec fn column_sites(field: Field, pos: Position, dx: int, n: nat) -> Seq<Position>
    decreases n,
{
    if n == 0 {
        Seq::empty()
    } else {
        let prev = column_sites(field, pos, dx, (n - 1) as nat);
        let q = shifted(pos, dx, -SPAWN_RANGE + n - 1);
        if q != pos && field.contains(q) {
            prev.push(q)
        } else {
            prev
        }
    }
}

/// The cells that can take a newborn in the first `m` columns of the
/// spawn range, column by column from the left.
pub open spec fn block_sites(field: Field, pos: Position, m: nat) -> Seq<Position>
    decreases m,
{
    if m == 0 {
        Seq::empty()
    } else {
        block_sites(field, pos, (m - 1) as nat) + column_sites(
            field,
            pos,
            -SPAWN_RANGE + m - 1,
            (2 * SPAWN_RANGE) as nat,
        )
    }
}

/// Every cell near `pos` that can take a newborn, in scan order: by
/// column from the left, each from the bottom.
pub open spec fn spawn_sites(field: Field, pos: Position) -> Seq<Position> {
    block_sites(field, pos, (2 * SPAWN_RANGE) as nat)
}

/// Every cell near `pos` that can take a newborn, in scan order.
pub fn nearby_sites(field: &Field, pos: &Position) -> (r: Vec<Position>)
    requires
        in_bounds(*pos),
    ensures
        r@ == spawn_sites(*field, *pos),
        r@.len() <= 16,
        forall|k: int| 0 <= k < r@.len() ==> is_spawn_site(*field, *pos, #[trigger] r@[k]),
        forall|q: Position| is_spawn_site(*field, *pos, q) ==> r@.contains(q),
{
    let mut r: Vec<Position> = Vec::new();
    let mut dx: i32 = -SPAWN_RANGE;
    while dx < SPAWN_RANGE
        invariant
            -SPAWN_RANGE <= dx <= SPAWN_RANGE,
            in_bounds(*pos),
            r@ == block_sites(*field, *pos, (dx + SPAWN_RANGE) as nat),
            r@.len() <= 4 * (dx + SPAWN_RANGE),
            forall|k: int| 0 <= k < r@.len() ==> is_spawn_site(*field, *pos, #[trigger] r@[k]),
            forall|q: Position|
                is_spawn_site(*field, *pos, q) && q.x - pos.x < dx ==> r@.contains(q),
        decreases SPAWN_RANGE - dx,
    {
        let ghost start = r@;
        let mut dy: i32 = -SPAWN_RANGE;
        while dy < SPAWN_RANGE
            invariant
                -SPAWN_RANGE <= dx < SPAWN_RANGE,
                -SPAWN_RANGE <= dy <= SPAWN_RANGE,
                in_bounds(*pos),
                start == block_sites(*field, *pos, (dx + SPAWN_RANGE) as nat),
                r@ == start + column_sites(*field, *pos, dx as int, (dy + SPAWN_RANGE) as nat),
                r@.len() <= 4 * (dx + SPAWN_RANGE) + (dy + SPAWN_RANGE),
                forall|k: int| 0 <= k < r@.len() ==> is_spawn_site(*field, *pos, #[trigger] r@[k]),
                forall|q: Position|
                    is_spawn_site(*field, *pos, q) && (q.x - pos.x < dx || (q.x - pos.x == dx
                        && q.y - pos.y < dy)) ==> r@.contains(q),
            decreases SPAWN_RANGE - dy,
        {
            let q = Position { x: pos.x + dx, y: pos.y + dy };
            assert(q == shifted(*pos, dx as int, -SPAWN_RANGE + ((dy + SPAWN_RANGE + 1) as nat) - 1));
            if (dx != 0 || dy != 0) && field.reachable(q.x, q.y) {
                let ghost before = r@;
                r.push(q);
                assert(r@ =~= start + column_sites(*field, *pos, dx as int, (dy + SPAWN_RANGE + 1) as nat));
                assert(r@[before.len() as int] == q);
                assert forall|p: Position|
                    is_spawn_site(*field, *pos, p) && (p.x - pos.x < dx || (p.x - pos.x == dx
                        && p.y - pos.y < dy + 1)) implies r@.contains(p) by {
                    if p != q {
                        assert(before.contains(p));
                        let k = choose|k: int| 0 <= k < before.len() && before[k] == p;
                        assert(r@[k] == p);
                    }
                }
            } else {
                assert(r@ =~= start + column_sites(*field, *pos, dx as int, (dy + SPAWN_RANGE + 1) as nat));
            }
            dy = dy + 1;
        }
        assert(r@ == block_sites(*field, *pos, (dx + 1 + SPAWN_RANGE) as nat));
        dx = dx + 1;
    }
    r
}

/// The cell that the draw `pick` selects among the cells near `pos`
/// that can take a newborn; `None` when there is no such cell.
pub open spec fn chosen_site(field: Field, pos: Position, pick: u32) -> Option<Position> {
    let s = spawn_sites(field, pos);
    if s.len() == 0 {
        None
    } else {
        Some(s[pick as int % s.len() as int])
    }
}

/// The cell the draw `pick` selects near `pos`, with the facts about it.
fn choose_site(field: &Field, pos: &Position, pick: u32) -> (r: Option<Position>)
    requires
        in_bounds(*pos),
    ensures
        r == chosen_site(*field, *pos, pick),
        r is Some <==> has_spawn_site(*field, *pos),
        r matches Some(q) ==> is_spawn_site(*field, *pos, q),
{
    let sites = nearby_sites(field, pos);
    if sites.len() == 0 {
        proof {
            assert forall|q: Position| !is_spawn_site(*field, *pos, q) by {
                if is_spawn_site(*field, *pos, q) {
                    assert(sites@.contains(q));
                }
            }
        }
        None
    } else {
        let q = sites[pick as usize % sites.len()];
        assert(is_spawn_site(*field, *pos, sites@[(pick as usize % sites.len()) as int]));
        Some(q)
    }
}

/// How many cells near `pos` can take a newborn.
fn count_sites(field: &Field, pos: &Position) -> (r: u32)
    requires
        in_bounds(*pos),
    ensures
        r == spawn_sites(*field, *pos).len(),
        r <= 16,
{
    let sites = nearby_sites(field, pos);
    sites.len() as u32
}

/// Satiety after reproducing: the level that triggered it is subtracted,
/// and what went beyond it is kept.
pub open spec fn spent(s: Satiety) -> Satiety {
    match s.max {
        Some(m) => Satiety { val: (s.val - m) as u64, ..s },
        None => s,
    }
}

/// A parent after its reproduction step: one whose satiety has reached
/// its level gives that much up; others are unchanged.
pub open spec fn after_birth(c: Creature) -> Creature {
    if c.satiety.full() {
        Creature { satiety: spent(c.satiety), ..c }
    } else {
        c
    }
}

/// The newborn of `c` for the draw `pick`: one of its species on the
/// cell the draw selects, when `c` is due to reproduce and a cell near it
/// has room.
pub open spec fn birth(c: Creature, field: Field, pick: u32) -> Option<Creature> {
    if c.satiety.full() {
        match chosen_site(field, c.pos, pick) {
            Some(q) => Some(newborn(c.species, q)),
            None => None,
        }
    } else {
        None
    }
}

/// The reproduction step of `parent` for the draw `pick`: exactly one
/// newborn when its satiety has reached its level and a cell near it has
/// room, whatever the overshoot, and the parent keeps what went beyond
/// the level.
pub fn give_birth(parent: &mut Creature, field: &Field, pick: u32) -> (r: Option<Creature>)
    requires
        in_bounds(old(parent).pos),
    ensures
        *final(parent) == after_birth(*old(parent)),
        r == birth(*old(parent), *field, pick),
        old(parent).satiety.full() ==> (r is Some <==> has_spawn_site(*field, old(parent).pos)),
        r matches Some(c) ==> is_spawn_site(*field, old(parent).pos, c.pos),
{
    if !parent.satiety.is_full() {
        return None;
    }
    match parent.satiety.max {
        Some(m) => {
            parent.satiety.val = parent.satiety.val - m;
        },
        None => {},
    }
    match choose_site(field, &parent.pos, pick) {
        Some(q) => Some(parent.offspring(q)),
        None => None,
    }
}

/// One tick of reproduction for `parent`. A parent whose satiety has
/// reached its level gives up that much satiety and has one newborn of its
/// species on a cell near it, drawn at random among those that can take
/// one; there is none only when no cell can. Others are left as they are.
pub fn reproduce_one(parent: &mut Creature, field: &Field) -> (r: Option<Creature>)
    requires
        in_bounds(old(parent).pos),
    ensures
        *final(parent) == after_birth(*old(parent)),
        !old(parent).satiety.full() ==> r is None,
        old(parent).satiety.full() ==> (r is Some <==> has_spawn_site(*field, old(parent).pos)),
        r matches Some(c) ==> c == newborn(old(parent).species, c.pos) && is_spawn_site(
            *field,
            old(parent).pos,
            c.pos,
        ),
{
    let mut pick: u32 = 0;
    if parent.satiety.is_full() {
        let n = count_sites(field, &parent.pos);
        if n > 0 {
            pick = random_in(0, n - 1);
        }
    }
    give_birth(parent, field, pick)
}

/// Creatures that may stand in the world: well formed and on terrain.
pub open spec fn all_placed(cs: Seq<Creature>, field: Field) -> bool {
    forall|k: int| 0 <= k < cs.len() ==> (#[trigger] cs[k]).wf() && field.contains(cs[k].pos)
}

/// The newborns of the first `n` creatures of `cs` for the draws
/// `picks`, in the order of their parents.
pub open spec fn litter(cs: Seq<Creature>, field: Field, picks: Seq<u32>, n: nat) -> Seq<Creature>
    decreases n,
{
    if n == 0 {
        Seq::empty()
    } else {
        let prev = litter(cs, field, picks, (n - 1) as nat);
        match birth(cs[n - 1], field, picks[n - 1]) {
            Some(c) => prev.push(c),
            None => prev,
        }
    }
}

/// The creatures after one tick of reproduction with the draws `picks`:
/// each parent after its step, then the newborns in their parents' order.
pub open spec fn bred(cs: Seq<Creature>, field: Field, picks: Seq<u32>) -> Seq<Creature> {
    cs.map_values(|c: Creature| after_birth(c)) + litter(cs, field, picks, cs.len())
}

proof fn lemma_newborn_wf(s: Species, q: Position)
    ensures
        newborn(s, q).wf(),
        newborn(s, q).pos == q,
{
}

/// One tick of reproduction with the draws `picks`, one per creature:
/// every creature due to reproduce has its own newborn, appended in the
/// order of the parents.
pub fn reproduce_with(creatures: &mut Vec<Creature>, field: &Field, picks: &Vec<u32>)
    requires
        field.wf(),
        all_placed(old(creatures)@, *field),
        picks@.len() == old(creatures)@.len(),
    ensures
        final(creatures)@ == bred(old(creatures)@, *field, picks@),
        all_placed(final(creatures)@, *field),
{
    let n = creatures.len();
    let mut i: usize = 0;
    while i < n
        invariant
            n == old(creatures)@.len(),
            picks@.len() == n,
            i <= n,
            field.wf(),
            all_placed(creatures@, *field),
            all_placed(old(creatures)@, *field),
            creatures@.len() >= n,
            forall|k: int| 0 <= k < i ==> #[trigger] creatures@[k] == after_birth(old(creatures)@[k]),
            forall|k: int| i <= k < n ==> #[trigger] creatures@[k] == old(creatures)@[k],
            creatures@.subrange(n as int, creatures@.len() as int) == litter(old(creatures)@, *field, picks@, i as nat),
        decreases n - i,
    {
        let mut parent = creatures[i];
        assert(in_bounds(parent.pos)) by {
            assert(field.contains(parent.pos));
            let j = choose|j: int| 0 <= j < field.cells@.len() && field.cells@[j] == parent.pos;
        }
        let born = give_birth(&mut parent, field, picks[i]);
        let ghost mid = creatures@;
        creatures.set(i, parent);
        assert(creatures@.subrange(n as int, creatures@.len() as int) == mid.subrange(n as int, mid.len() as int));
        match born {
            Some(c) => {
                proof {
                    lemma_newborn_wf(old(creatures)@[i as int].species, c.pos);
                }
                let ghost before = creatures@;
                creatures.push(c);
                assert(creatures@.subrange(n as int, creatures@.len() as int)
                    =~= before.subrange(n as int, before.len() as int).push(c));
                assert forall|k: int| 0 <= k < creatures@.len() implies (#[trigger] creatures@[k]).wf()
                    && field.contains(creatures@[k].pos) by {
                    if k < before.len() {
                        assert(creatures@[k] == before[k]);
                    }
                }
            },
            None => {},
        }
        i = i + 1;
    }
    assert(creatures@ =~= bred(old(creatures)@, *field, picks@));
}

/// Draws, for each creature due to reproduce, which nearby cell with room
/// takes its newborn.
fn draw_birth_picks(creatures: &Vec<Creature>, field: &Field) -> (r: Vec<u32>)
    requires
        field.wf(),
        all_placed(creatures@, *field),
    ensures
        r@.len() == creatures@.len(),
{
    let mut picks: Vec<u32> = Vec::new();
    let mut i: usize = 0;
    while i < creatures.len()
        invariant
            i <= creatures@.len(),
            picks@.len() == i,
            field.wf(),
            all_placed(creatures@, *field),
        decreases creatures@.len() - i,
    {
        let c = creatures[i];
        let mut pick: u32 = 0;
        if c.satiety.is_full() {
            assert(in_bounds(c.pos)) by {
                assert(field.contains(c.pos));
                let j = choose|j: int| 0 <= j < field.cells@.len() && field.cells@[j] == c.pos;
            }
            let n = count_sites(field, &c.pos);
            if n > 0 {
                pick = random_in(0, n - 1);
            }
        }
        picks.push(pick);
        i = i + 1;
    }
    picks
}

/// One tick of reproduction: every creature due to reproduce gives up its
/// satiety level and has its own newborn, on a nearby cell with room drawn
/// at random, appended after the existing creatures in the order of the
/// parents.
pub fn reproduce(creatures: &mut Vec<Creature>, field: &Field)
    requires
        field.wf(),
        all_placed(old(creatures)@, *field),
    ensures
        all_placed(final(creatures)@, *field),
        exists|picks: Seq<u32>|
            #![trigger bred(old(creatures)@, *field, picks)]
            picks.len() == old(creatures)@.len() && final(creatures)@ == bred(old(creatures)@, *field, picks),
{
    let picks = draw_birth_picks(creatures, field);
    reproduce_with(creatures, field, &picks);
}

/// Some walnut stands on `q`.
pub open spec fn walnut_on(cs: Seq<Creature>, q: Position) -> bool {
    exists|k: int| 0 <= k < cs.len() && (#[trigger] cs[k]).species == Species::Walnut && cs[k].pos == q
}

/// Whether a walnut stands on `q`.
fn has_walnut_on(creatures: &Vec<Creature>, q: &Position) -> (r: bool)
    ensures
        r == walnut_on(creatures@, *q),
{
    let mut k: usize = 0;
    while k < creatures.len()
        invariant
            k <= creatures@.len(),
            forall|j: int| 0 <= j < k ==> !((#[trigger] creatures@[j]).species == Species::Walnut && creatures@[j].pos == *q),
        decreases creatures@.len() - k,
    {
        if creatures[k].species == Species::Walnut && creatures[k].pos == *q {
            return true;
        }
        k = k + 1;
    }
    false
}

/// Where `parent` drops a new walnut among the creatures `cs`, for the
/// draws `roll` and `pick`: only a walnut rolling above
/// `WALNUT_THRESHOLD` does, on the nearby cell with room that `pick`
/// selects, and not where a walnut already stands.
pub open spec fn sprout(cs: Seq<Creature>, field: Field, parent: Creature, roll: u32, pick: u32) -> Option<Position> {
    if parent.species == Species::Walnut && roll > WALNUT_THRESHOLD {
        match chosen_site(field, parent.pos, pick) {
            Some(q) => if walnut_on(cs, q) { None } else { Some(q) },
            None => None,
        }
    } else {
        None
    }
}

/// The creatures after walnut growth over the first `n` creatures of
/// `cs`, in order, with the draws `rolls` and `picks`: new walnuts are
/// appended after the existing creatures.
pub open spec fn grown(cs: Seq<Creature>, field: Field, rolls: Seq<u32>, picks: Seq<u32>, n: nat) -> Seq<Creature>
    decreases n,
{
    if n == 0 {
        cs
    } else {
        let prev = grown(cs, field, rolls, picks, (n - 1) as nat);
        match sprout(prev, field, cs[n - 1], rolls[n - 1], picks[n - 1]) {
            Some(q) => prev.push(walnut_at(q)),
            None => prev,
        }
    }
}

/// How many of the first `n` creatures are walnuts.
pub open spec fn walnut_count(cs: Seq<Creature>, n: nat) -> nat
    decreases n,
{
    if n == 0 {
        0
    } else {
        walnut_count(cs, (n - 1) as nat) + if cs[n - 1].species == Species::Walnut { 1nat } else { 0 }
    }
}

/// Walnut growth keeps the existing creatures, and adds at most one new
/// walnut for each existing walnut.
pub proof fn lemma_grown_bounded(cs: Seq<Creature>, field: Field, rolls: Seq<u32>, picks: Seq<u32>, n: nat)
    requires
        n <= cs.len(),
    ensures
        grown(cs, field, rolls, picks, n).len() <= cs.len() + walnut_count(cs, n),
        grown(cs, field, rolls, picks, n).len() >= cs.len(),
        grown(cs, field, rolls, picks, n).subrange(0, cs.len() as int) == cs,
    decreases n,
{
    if n > 0 {
        lemma_grown_bounded(cs, field, rolls, picks, (n - 1) as nat);
        let prev = grown(cs, field, rolls, picks, (n - 1) as nat);
        match sprout(prev, field, cs[n - 1], rolls[n - 1], picks[n - 1]) {
            Some(q) => {
                assert(prev.push(walnut_at(q)).subrange(0, cs.len() as int) =~= prev.subrange(0, cs.len() as int));
            },
            None => {},
        }
    }
}

/// One tick of walnut growth with the draws `rolls` and `picks`, one of
/// each per creature: each walnut, in order, whose roll is above
/// `WALNUT_THRESHOLD` drops a new walnut on the nearby cell with room that
/// its pick selects, unless a walnut already stands there.
pub fn grow_walnuts(creatures: &mut Vec<Creature>, field: &Field, rolls: &Vec<u32>, picks: &Vec<u32>)
    requires
        field.wf(),
        all_placed(old(creatures)@, *field),
        rolls@.len() == old(creatures)@.len(),
        picks@.len() == old(creatures)@.len(),
    ensures
        final(creatures)@ == grown(old(creatures)@, *field, rolls@, picks@, old(creatures)@.len()),
        all_placed(final(creatures)@, *field),
{
    let n = creatures.len();
    let mut i: usize = 0;
    while i < n
        invariant
            n == old(creatures)@.len(),
            rolls@.len() == n,
            picks@.len() == n,
            i <= n,
            field.wf(),
            all_placed(creatures@, *field),
            creatures@ == grown(old(creatures)@, *field, rolls@, picks@, i as nat),
        decreases n - i,
    {
        proof {
            lemma_grown_bounded(old(creatures)@, *field, rolls@, picks@, i as nat);
            assert(creatures@[i as int] == creatures@.subrange(0, n as int)[i as int]);
        }
        let parent = creatures[i];
        assert(parent == old(creatures)@[i as int]);
        if parent.species == Species::Walnut && rolls[i] > WALNUT_THRESHOLD {
            assert(in_bounds(parent.pos)) by {
                assert(field.contains(parent.pos));
                let j = choose|j: int| 0 <= j < field.cells@.len() && field.cells@[j] == parent.pos;
            }
            match choose_site(field, &parent.pos, picks[i]) {
                Some(site) => {
                    if !has_walnut_on(creatures, &site) {
                        let ghost before = creatures@;
                        creatures.push(Creature::walnut(site));
                        assert forall|k: int| 0 <= k < creatures@.len() implies (#[trigger] creatures@[k]).wf()
                            && field.contains(creatures@[k].pos) by {
                            if k < before.len() {
                                assert(creatures@[k] == before[k]);
                            }
                        }
                    }
                },
                None => {},
            }
        }
        i = i + 1;
    }
}

/// One tick of walnut growth: each walnut rolls `1 ..= WALNUT_ROLL_MAX`
/// and, above `WALNUT_THRESHOLD`, drops a new walnut on a random nearby
/// cell with room, unless a walnut already stands there. Existing
/// creatures are untouched and each walnut adds at most one.
pub fn increase_walnut(creatures: &mut Vec<Creature>, field: &Field)
    requires
        field.wf(),
        all_placed(old(creatures)@, *field),
    ensures
        all_placed(final(creatures)@, *field),
        exists|rolls: Seq<u32>, picks: Seq<u32>|
            #![trigger grown(old(creatures)@, *field, rolls, picks, old(creatures)@.len())]
            rolls.len() == old(creatures)@.len() && picks.len() == old(creatures)@.len()
                && final(creatures)@ == grown(old(creatures)@, *field, rolls, picks, old(creatures)@.len()),
        final(creatures)@.subrange(0, old(creatures)@.len() as int) == old(creatures)@,
        old(creatures)@.len() <= final(creatures)@.len() <= old(creatures)@.len() + walnut_count(old(creatures)@, old(creatures)@.len()),
{
    let mut rolls: Vec<u32> = Vec::new();
    let mut picks: Vec<u32> = Vec::new();
    let mut i: usize = 0;
    while i < creatures.len()
        invariant
            i <= creatures@.len(),
            creatures@ == old(creatures)@,
            rolls@.len() == i,
            picks@.len() == i,
            field.wf(),
            all_placed(creatures@, *field),
        decreases creatures@.len() - i,
    {
        let c = creatures[i];
        let mut roll: u32 = 0;
        let mut pick: u32 = 0;
        if c.species == Species::Walnut {
            roll = random_in(1, WALNUT_ROLL_MAX);
            if roll > WALNUT_THRESHOLD {
                assert(in_bounds(c.pos)) by {
                    assert(field.contains(c.pos));
                    let j = choose|j: int| 0 <= j < field.cells@.len() && field.cells@[j] == c.pos;
                }
                let n = count_sites(field, &c.pos);
                if n > 0 {
                    pick = random_in(0, n - 1);
                }
            }
        }
        rolls.push(roll);
        picks.push(pick);
        i = i + 1;
    }
    grow_walnuts(creatures, field, &rolls, &picks);
    proof {
        lemma_grown_bounded(old(creatures)@, *field, rolls@, picks@, old(creatures)@.len());
    }
}

/// A strong bear past its healthy span becomes a weak bear.
pub open spec fn weakened(c: Creature) -> Creature {
    if c.species == Species::StrongBear && c.age.val > HEALTHSPAN_STRONG_BEAR {
        weak_bear_at(c.pos, c.hp.val)
    } else {
        c
    }
}

/// Every strong bear whose age exceeds its healthy span is replaced,
/// at the same cell and with the same health, by a weak bear.
pub fn weaken_bear(creatures: &mut Vec<Creature>)
    ensures
        final(creatures)@ == old(creatures)@.map_values(|c: Creature| weakened(c)),
{
    let n = creatures.len();
    let mut i: usize = 0;
    while i < n
        invariant
            n == creatures@.len(),
            old(creatures)@.len() == n,
            i <= n,
            forall|k: int| 0 <= k < i ==> creatures@[k] == weakened(old(creatures)@[k]),
            forall|k: int| i <= k < n ==> creatures@[k] == old(creatures)@[k],
        decreases n - i,
    {
        let c = creatures[i];
        if c.species == Species::StrongBear && c.age.val > HEALTHSPAN_STRONG_BEAR {
            creatures.set(i, Creature::weak_bear(c.pos, c.hp.val));
        }
        i = i + 1;
    }
    assert(creatures@ == old(creatures)@.map_values(|c: Creature| weakened(c)));
}

/// The age transition keeps a bear where it was and as healthy as it
/// was: a strong bear past its healthy span becomes a weak bear on the
/// same cell with the same health.
pub proof fn lemma_weakening_keeps_place_and_health(c: Creature)
    requires
        c.species == Species::StrongBear,
        c.age.val > HEALTHSPAN_STRONG_BEAR,
    ensures
        weakened(c).species == Species::WeakBear,
        weakened(c).pos == c.pos,
        weakened(c).hp.val == c.hp.val,
{
}

/// A weak bear older than its lifespan.
pub open spec fn dies_of_age(c: Creature) -> bool {
    c.species == Species::WeakBear && c.age.val > LIFESPAN_WEAK_BEAR
}

/// Still alive: health above zero.
pub open spec fn alive(c: Creature) -> bool {
    c.hp.val > 0
}

pub(crate) proof fn lemma_filter_take(s: Seq<Creature>, pred: spec_fn(Creature) -> bool, i: int)
    requires
        0 <= i < s.len(),
    ensures
        s.take(i + 1).filter(pred) == if pred(s[i]) {
            s.take(i).filter(pred).push(s[i])
        } else {
            s.take(i).filter(pred)
        },
{
    reveal(Seq::filter);
    assert(s.take(i + 1).drop_last() =~= s.take(i));
}

/// Weak bears older than their lifespan are removed.
pub fn die_of_old_age(creatures: &mut Vec<Creature>)
    ensures
        final(creatures)@ == old(creatures)@.filter(|c: Creature| !dies_of_age(c)),
{
    let mut kept: Vec<Creature> = Vec::new();
    let mut i: usize = 0;
    while i < creatures.len()
        invariant
            i <= creatures@.len(),
            creatures@ == old(creatures)@,
            kept@ == creatures@.take(i as int).filter(|c: Creature| !dies_of_age(c)),
        decreases creatures@.len() - i,
    {
        let c = creatures[i];
        proof {
            lemma_filter_take(creatures@, |c: Creature| !dies_of_age(c), i as int);
        }
        if !(c.species == Species::WeakBear && c.age.val > LIFESPAN_WEAK_BEAR) {
            kept.push(c);
        }
        i = i + 1;
    }
    assert(creatures@.take(creatures@.len() as int) == creatures@);
    *creatures = kept;
}

/// The purge: every creature whose health has reached zero is removed;
/// the others keep their order. Afterwards every creature has health.
pub fn despawn(creatures: &mut Vec<Creature>)
    ensures
        final(creatures)@ == old(creatures)@.filter(|c: Creature| alive(c)),
        forall|k: int| 0 <= k < final(creatures)@.len() ==> (#[trigger] final(creatures)@[k]).hp.val > 0,
{
    let mut kept: Vec<Creature> = Vec::new();
    let mut i: usize = 0;
    while i < creatures.len()
        invariant
            i <= creatures@.len(),
            creatures@ == old(creatures)@,
            kept@ == creatures@.take(i as int).filter(|c: Creature| alive(c)),
        decreases creatures@.len() - i,
    {
        let c = creatures[i];
        proof {
            lemma_filter_take(creatures@, |c: Creature| alive(c), i as int);
        }
        if c.hp.val > 0 {
            kept.push(c);
        }
        i = i + 1;
    }
    assert(creatures@.take(creatures@.len() as int) == creatures@);
    *creatures = kept;
    assert forall|k: int| 0 <= k < creatures@.len() implies (#[trigger] creatures@[k]).hp.val > 0 by {
        old(creatures)@.lemma_filter_pred(|c: Creature| alive(c), k);
    }
}

} // verus!
