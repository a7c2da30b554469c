//! The world: terrain, creatures, the ship, the game state and the clock,
//! advanced one tick at a time.

use vstd::prelude::*;
use crate::components::{Creature, Position, Species, Stamina, eats, in_bounds, rested, newborn, strong_bear_at, weak_bear_at, walnut_at};
use crate::consts::APPROACH_ROLL_MAX;
use crate::field::Field;
use crate::lifecycle::{all_placed, metabolism, reproduce, increase_walnut, weaken_bear, die_of_old_age, despawn, metabolized, weakened, dies_of_age, alive, bred, grown, litter, birth, after_birth, sprout};
use crate::movement::{Input, move_player, move_fauna, player_moved, is_approach};
use crate::predation::{predation, snapshot, after_eat, after_eaten, fed};
use crate::random::random_in;
use crate::ship::{Ship, advanced, docked};
use crate::timer::GameTimer;

verus! {

/// The state of the game as a whole.
#[derive(Clone, Copy, Debug, PartialEq, Eq, Structural)]
pub enum StateKind {
    Playing,
    GameClear,
    GameOver,
}

/// The state after the player reached the ship: a game in play is
/// cleared; a finished game stays as it is.
pub open spec fn cleared(s: StateKind) -> StateKind {
    if s == StateKind::Playing { StateKind::GameClear } else { s }
}

/// The state after the game was declared lost.
pub open spec fn lost(s: StateKind) -> StateKind {
    if s == StateKind::Playing { StateKind::GameOver } else { s }
}

impl StateKind {
    /// The status line shown for the state.
    pub fn text(&self) -> (r: &'static str)
        ensures
            *self == StateKind::Playing ==> r@ == "Playing!"@,
            *self == StateKind::GameClear ==> r@ == "GameClear!"@,
            *self == StateKind::GameOver ==> r@ == "GameOver!!!!"@,
    {
        match self {
            StateKind::GameOver => "GameOver!!!!",
            StateKind::GameClear => "GameClear!",
            StateKind::Playing => "Playing!",
        }
    }
}

/// A human standing on the ship's cell.
pub open spec fn on_ship(c: Creature, ship_pos: Position) -> bool {
    c.species == Species::Human && c.pos == ship_pos
}

/// The positions, in store order, of the creatures among the first `n`
/// of `cs` that species `s` eats.
pub open spec fn prey_of(cs: Seq<Creature>, s: Species, n: nat) -> Seq<Position>
    decreases n,
{
    if n == 0 {
        Seq::empty()
    } else {
        let rest = prey_of(cs, s, (n - 1) as nat);
        if eats(s, cs[n - 1].species) {
            rest.push(cs[n - 1].pos)
        } else {
            rest
        }
    }
}

/// The positions of the creatures that species `s` eats.
pub fn prey_positions(creatures: &Vec<Creature>, s: Species) -> (r: Vec<Position>)
    ensures
        r@ == prey_of(creatures@, s, creatures@.len()),
{
    let mut r: Vec<Position> = Vec::new();
    let mut i: usize = 0;
    while i < creatures.len()
        invariant
            i <= creatures@.len(),
            r@ == prey_of(creatures@, s, i as nat),
        decreases creatures@.len() - i,
    {
        if s.eats(creatures[i].species) {
            r.push(creatures[i].pos);
        }
        i = i + 1;
    }
    r
}

/// How one creature `c` of `all` may have become `d` in the movement
/// phase: the player steps as `input` asks; a fox or bear with full
/// stamina spends it and goes where `approach` sends it for some draws;
/// everything else stays.
pub open spec fn moved_one(field: Field, input: Input, all: Seq<Creature>, c: Creature, d: Creature) -> bool {
    &&& c.species == Species::Human ==> d == player_moved(field, c, input)
    &&& c.species == Species::Walnut ==> d == c
    &&& (c.species == Species::Fox || c.species == Species::StrongBear || c.species == Species::WeakBear) ==> {
        &&& !c.stamina.ready() ==> d == c
        &&& c.stamina.ready() ==> {
            &&& d == (Creature { pos: d.pos, stamina: Stamina { val: 0, ..c.stamina }, ..c })
            &&& exists|roll: int, choice: int| 1 <= roll <= APPROACH_ROLL_MAX && 0 <= choice < 5
                && #[trigger] is_approach(field, prey_of(all, c.species, all.len()), c.pos, roll, choice, d.pos)
        }
    }
}

/// `after` is what the movement phase may make of `before`.
pub open spec fn moved_from(field: Field, input: Input, before: Seq<Creature>, after: Seq<Creature>) -> bool {
    &&& after.len() == before.len()
    &&& forall|k: int| 0 <= k < before.len() ==> moved_one(field, input, before, #[trigger] before[k], after[k])
}

/// The ship after one tick: its stamina rests, then it takes the next
/// step of its patrol when that stamina is full.
pub open spec fn ship_after_tick(s: Ship) -> Ship {
    let r = Ship { stamina: rested(s.stamina), ..s };
    if r.stamina.ready() { advanced(r) } else { r }
}

/// The creatures after the phases that follow movement, given the
/// creatures as moved and the draws for births (`bpicks`) and walnut
/// growth (`wrolls`, `wpicks`): predation, reproduction, walnut growth,
/// the strong-to-weak transition and deaths of old age.
pub open spec fn after_lifecycle(
    moved: Seq<Creature>,
    field: Field,
    bpicks: Seq<u32>,
    wrolls: Seq<u32>,
    wpicks: Seq<u32>,
) -> Seq<Creature> {
    let eaten = after_eaten(after_eat(moved, moved), moved);
    let born = bred(eaten, field, bpicks);
    let grew = grown(born, field, wrolls, wpicks, born.len());
    grew.map_values(|c: Creature| weakened(c)).filter(|c: Creature| !dies_of_age(c))
}

/// `v` is `w` after one tick in which movement gave `moved` and the other
/// draws were `bpicks`, `wrolls` and `wpicks`: after the phases above, a
/// human on the ship's cell leaves and clears a game in play, then the
/// dead are purged.
pub open spec fn tick_outcome(
    w: World,
    input: Input,
    v: World,
    moved: Seq<Creature>,
    bpicks: Seq<u32>,
    wrolls: Seq<u32>,
    wpicks: Seq<u32>,
) -> bool {
    let rest = after_lifecycle(moved, w.field, bpicks, wrolls, wpicks);
    &&& moved_from(w.field, input, w.creatures@.map_values(|c: Creature| metabolized(c)), moved)
    &&& v.creatures@ == rest.filter(|c: Creature| !on_ship(c, v.ship.pos)).filter(|c: Creature| alive(c))
    &&& v.state == if exists|k: int| 0 <= k < rest.len() && on_ship(#[trigger] rest[k], v.ship.pos) {
        cleared(w.state)
    } else {
        w.state
    }
}

/// `v` is `w` after one tick, the clock aside: the terrain is kept, the
/// ship rests and steps, and the creatures and game state are what the
/// phases make of them for some outcome of the random draws.
pub open spec fn ticked(w: World, input: Input, v: World) -> bool {
    &&& v.field == w.field
    &&& v.ship == ship_after_tick(w.ship)
    &&& exists|moved: Seq<Creature>, bpicks: Seq<u32>, wrolls: Seq<u32>, wpicks: Seq<u32>|
        #[trigger] tick_outcome(w, input, v, moved, bpicks, wrolls, wpicks)
}

/// A creature of a placed sequence is on terrain, so within bounds.
proof fn lemma_placed_in_bounds(cs: Seq<Creature>, field: Field, k: int)
    requires
        field.wf(),
        all_placed(cs, field),
        0 <= k < cs.len(),
    ensures
        in_bounds(cs[k].pos),
{
    assert(field.contains(cs[k].pos));
    let j = choose|j: int| 0 <= j < field.cells@.len() && field.cells@[j] == cs[k].pos;
}

/// What is kept of placed creatures is still placed, and satisfies the
/// filter.
proof fn lemma_filter_placed(cs: Seq<Creature>, p: spec_fn(Creature) -> bool, field: Field)
    requires
        all_placed(cs, field),
    ensures
        all_placed(cs.filter(p), field),
        forall|k: int| 0 <= k < cs.filter(p).len() ==> p(#[trigger] cs.filter(p)[k]),
{
    assert forall|k: int| 0 <= k < cs.filter(p).len() implies (#[trigger] cs.filter(p)[k]).wf()
        && field.contains(cs.filter(p)[k].pos) && p(cs.filter(p)[k]) by {
        cs.lemma_filter_pred(p, k);
        assert(cs.filter(p).contains(cs.filter(p)[k]));
        cs.lemma_filter_contains_rev(p, cs.filter(p)[k]);
        let j = choose|j: int| 0 <= j < cs.len() && cs[j] == cs.filter(p)[k];
    }
}

/// The simulated world.
pub struct World {
    pub field: Field,
    pub creatures: Vec<Creature>,
    pub ship: Ship,
    pub state: StateKind,
    pub timer: GameTimer,
}

impl World {
    /// Every creature is well formed and on terrain, the ship is on its
    /// loop, and the clock is running.
    pub open spec fn wf(&self) -> bool {
        &&& self.field.wf()
        &&& all_placed(self.creatures@, self.field)
        &&& self.ship.wf()
        &&& self.timer.wf()
    }

    /// A world with no creatures yet, a ship at `ship_home` and a clock
    /// that fires every `period_ms` milliseconds.
    pub fn new(field: Field, ship_home: Position, period_ms: u64) -> (r: World)
        requires
            field.wf(),
            in_bounds(ship_home),
            period_ms > 0,
        ensures
            r.wf(),
            r.field == field,
            r.creatures@.len() == 0,
            r.ship == docked(ship_home),
            r.state == StateKind::Playing,
            r.timer == (GameTimer { period_ms, elapsed_ms: 0 }),
    {
        World {
            field,
            creatures: Vec::new(),
            ship: Ship::new(ship_home),
            state: StateKind::Playing,
            timer: GameTimer::new(period_ms),
        }
    }

    /// Adds `c` to the world when it stands on terrain; the result says
    /// whether it was added.
    pub fn spawn(&mut self, c: Creature) -> (added: bool)
        requires
            old(self).wf(),
            c.wf(),
        ensures
            final(self).wf(),
            added == old(self).field.contains(c.pos),
            final(self).creatures@ == if added {
                old(self).creatures@.push(c)
            } else {
                old(self).creatures@
            },
            final(self).field == old(self).field,
            final(self).ship == old(self).ship,
            final(self).state == old(self).state,
            final(self).timer == old(self).timer,
    {
        if self.field.reachable(c.pos.x, c.pos.y) {
            self.creatures.push(c);
            assert forall|k: int| 0 <= k < self.creatures@.len() implies (#[trigger] self.creatures@[k]).wf()
                && self.field.contains(self.creatures@[k].pos) by {
                if k < old(self).creatures@.len() {
                    assert(self.creatures@[k] == old(self).creatures@[k]);
                }
            }
            true
        } else {
            false
        }
    }

    /// Adds the player's human at `pos`.
    pub fn spawn_player(&mut self, pos: Position) -> (added: bool)
        requires
            old(self).wf(),
        ensures
            final(self).wf(),
            added == old(self).field.contains(pos),
            final(self).creatures@ == if added {
                old(self).creatures@.push(newborn(Species::Human, pos))
            } else {
                old(self).creatures@
            },
            final(self).field == old(self).field,
            final(self).ship == old(self).ship,
            final(self).state == old(self).state,
            final(self).timer == old(self).timer,
    {
        self.spawn(Creature::player(pos))
    }

    /// Adds a strong bear with health `hp` at `pos`.
    pub fn spawn_strong_bear(&mut self, pos: Position, hp: u64) -> (added: bool)
        requires
            old(self).wf(),
        ensures
            final(self).wf(),
            added == old(self).field.contains(pos),
            final(self).creatures@ == if added {
                old(self).creatures@.push(strong_bear_at(pos, hp))
            } else {
                old(self).creatures@
            },
            final(self).field == old(self).field,
            final(self).ship == old(self).ship,
            final(self).state == old(self).state,
            final(self).timer == old(self).timer,
    {
        self.spawn(Creature::strong_bear(pos, hp))
    }

    /// Adds a weak bear with health `hp` at `pos`.
    pub fn spawn_weak_bear(&mut self, pos: Position, hp: u64) -> (added: bool)
        requires
            old(self).wf(),
        ensures
            final(self).wf(),
            added == old(self).field.contains(pos),
            final(self).creatures@ == if added {
                old(self).creatures@.push(weak_bear_at(pos, hp))
            } else {
                old(self).creatures@
            },
            final(self).field == old(self).field,
            final(self).ship == old(self).ship,
            final(self).state == old(self).state,
            final(self).timer == old(self).timer,
    {
        self.spawn(Creature::weak_bear(pos, hp))
    }

    /// Adds a fox at `pos`.
    pub fn spawn_fox(&mut self, pos: Position) -> (added: bool)
        requires
            old(self).wf(),
        ensures
            final(self).wf(),
            added == old(self).field.contains(pos),
            final(self).creatures@ == if added {
                old(self).creatures@.push(newborn(Species::Fox, pos))
            } else {
                old(self).creatures@
            },
            final(self).field == old(self).field,
            final(self).ship == old(self).ship,
            final(self).state == old(self).state,
            final(self).timer == old(self).timer,
    {
        self.spawn(Creature::fox(pos))
    }

    /// Adds a walnut at `pos`.
    pub fn spawn_walnut(&mut self, pos: Position) -> (added: bool)
        requires
            old(self).wf(),
        ensures
            final(self).wf(),
            added == old(self).field.contains(pos),
            final(self).creatures@ == if added {
                old(self).creatures@.push(newborn(Species::Walnut, pos))
            } else {
                old(self).creatures@
            },
            final(self).field == old(self).field,
            final(self).ship == old(self).ship,
            final(self).state == old(self).state,
            final(self).timer == old(self).timer,
    {
        self.spawn(Creature::walnut(pos))
    }

    /// The movement phase. Movers decide from the positions held at the
    /// start of the phase: the player steps as `input` asks; each fox and
    /// bear chases or wanders by its own draws; walnuts stay; the ship
    /// takes its next patrol step when its stamina allows. Nothing else
    /// about a creature changes, and nobody leaves the terrain.
    pub fn move_creatures(&mut self, input: &Input)
        requires
            old(self).wf(),
        ensures
            final(self).wf(),
            final(self).field == old(self).field,
            final(self).state == old(self).state,
            final(self).timer == old(self).timer,
            final(self).creatures@.len() == old(self).creatures@.len(),
            moved_from(old(self).field, *input, old(self).creatures@, final(self).creatures@),
            old(self).ship.stamina.ready() ==> final(self).ship == advanced(old(self).ship),
            !old(self).ship.stamina.ready() ==> final(self).ship == old(self).ship,
    {
        let snap = snapshot(&self.creatures);
        let n = self.creatures.len();
        let mut i: usize = 0;
        while i < n
            invariant
                n == old(self).creatures@.len(),
                n == self.creatures@.len(),
                snap@ == old(self).creatures@,
                i <= n,
                self.field == old(self).field,
                self.ship == old(self).ship,
                self.state == old(self).state,
                self.timer == old(self).timer,
                self.wf(),
                forall|k: int| i <= k < n ==> self.creatures@[k] == old(self).creatures@[k],
                forall|k: int| 0 <= k < i ==> moved_one(old(self).field, *input, old(self).creatures@, #[trigger] old(self).creatures@[k], self.creatures@[k]),
            decreases n - i,
        {
            let mut c = self.creatures[i];
            proof {
                lemma_placed_in_bounds(self.creatures@, self.field, i as int);
            }
            if c.species == Species::Human {
                move_player(&mut c, &self.field, input);
            } else if c.species.is_fauna() {
                let prey = prey_positions(&snap, c.species);
                let roll = random_in(1, APPROACH_ROLL_MAX);
                let choice = random_in(0, 4);
                move_fauna(&mut c, &prey, &self.field, roll, choice);
                assert(is_approach(old(self).field, prey_of(old(self).creatures@, c.species, old(self).creatures@.len()), old(self).creatures@[i as int].pos, roll as int, choice as int, c.pos) || !old(self).creatures@[i as int].stamina.ready());
            }
            let ghost before = self.creatures@;
            self.creatures.set(i, c);
            assert forall|k: int| 0 <= k < self.creatures@.len() implies (#[trigger] self.creatures@[k]).wf()
                && self.field.contains(self.creatures@[k].pos) by {
                if k != i {
                    assert(self.creatures@[k] == before[k]);
                }
            }
            i = i + 1;
        }
        self.ship.move_ship();
    }

    /// The goal check: a human standing on the ship's cell leaves the
    /// world, and a game in play is then cleared.
    pub fn goal(&mut self)
        requires
            old(self).wf(),
        ensures
            final(self).wf(),
            final(self).creatures@ == old(self).creatures@.filter(|c: Creature| !on_ship(c, old(self).ship.pos)),
            forall|k: int| 0 <= k < final(self).creatures@.len() ==> !on_ship(#[trigger] final(self).creatures@[k], final(self).ship.pos),
            final(self).state == if exists|k: int| 0 <= k < old(self).creatures@.len() && on_ship(#[trigger] old(self).creatures@[k], old(self).ship.pos) {
                cleared(old(self).state)
            } else {
                old(self).state
            },
            final(self).field == old(self).field,
            final(self).ship == old(self).ship,
            final(self).timer == old(self).timer,
    {
        let ghost pred = |c: Creature| !on_ship(c, old(self).ship.pos);
        let ship_pos = self.ship.pos;
        let mut kept: Vec<Creature> = Vec::new();
        let mut reached = false;
        let mut i: usize = 0;
        while i < self.creatures.len()
            invariant
                i <= self.creatures@.len(),
                self.creatures@ == old(self).creatures@,
                ship_pos == old(self).ship.pos,
                pred == (|c: Creature| !on_ship(c, old(self).ship.pos)),
                kept@ == self.creatures@.take(i as int).filter(pred),
                reached == exists|k: int| 0 <= k < i && on_ship(#[trigger] self.creatures@[k], ship_pos),
            decreases self.creatures@.len() - i,
        {
            let c = self.creatures[i];
            proof {
                crate::lifecycle::lemma_filter_take(self.creatures@, pred, i as int);
            }
            if c.species == Species::Human && c.pos == ship_pos {
                reached = true;
            } else {
                kept.push(c);
            }
            i = i + 1;
        }
        assert(self.creatures@.take(self.creatures@.len() as int) == self.creatures@);
        proof {
            lemma_filter_placed(self.creatures@, pred, self.field);
        }
        self.creatures = kept;
        if reached && self.state == StateKind::Playing {
            self.state = StateKind::GameClear;
        }
    }

    /// Declares the game lost; a finished game stays as it is.
    pub fn game_over(&mut self)
        ensures
            final(self).state == lost(old(self).state),
            final(self).field == old(self).field,
            final(self).creatures@ == old(self).creatures@,
            final(self).ship == old(self).ship,
            final(self).timer == old(self).timer,
    {
        if self.state == StateKind::Playing {
            self.state = StateKind::GameOver;
        }
    }

    /// One logical tick: metabolism, movement, predation, reproduction
    /// and walnut growth, age transitions, the goal check, then the purge
    /// of the dead. Whatever the random draws, every creature left is on
    /// terrain and has health, no human stands on the ship, and the game
    /// state only moves from play to cleared.
    pub fn run_tick(&mut self, input: &Input)
        requires
            old(self).wf(),
        ensures
            final(self).wf(),
            ticked(*old(self), *input, *final(self)),
            final(self).field == old(self).field,
            final(self).timer == old(self).timer,
            forall|k: int| 0 <= k < final(self).creatures@.len() ==> (#[trigger] final(self).creatures@[k]).hp.val > 0,
            forall|k: int| 0 <= k < final(self).creatures@.len() ==> !on_ship(#[trigger] final(self).creatures@[k], final(self).ship.pos),
            old(self).state == StateKind::Playing ==> final(self).state == StateKind::Playing || final(self).state == StateKind::GameClear,
            old(self).state != StateKind::Playing ==> final(self).state == old(self).state,
    {
        let ghost c0 = self.creatures@;
        metabolism(&mut self.creatures);
        assert(all_placed(self.creatures@, self.field)) by {
            assert forall|k: int| 0 <= k < self.creatures@.len() implies (#[trigger] self.creatures@[k]).wf()
                && self.field.contains(self.creatures@[k].pos) by {
                assert(self.creatures@[k] == metabolized(c0[k]));
            }
        }
        self.ship.stamina.cool_down();
        self.move_creatures(input);
        let ghost c1 = self.creatures@;
        predation(&mut self.creatures);
        assert(all_placed(self.creatures@, self.field)) by {
            assert forall|k: int| 0 <= k < self.creatures@.len() implies (#[trigger] self.creatures@[k]).wf()
                && self.field.contains(self.creatures@[k].pos) by {
                assert(after_eat(c1, c1)[k] == fed(c1[k], c1, k));
                assert(self.creatures@[k].pos == c1[k].pos);
                assert(self.creatures@[k].satiety.max == c1[k].satiety.max);
            }
        }
        let ghost c1b = self.creatures@;
        reproduce(&mut self.creatures, &self.field);
        let ghost bp = choose|picks: Seq<u32>| #![trigger bred(c1b, self.field, picks)]
            picks.len() == c1b.len() && self.creatures@ == bred(c1b, self.field, picks);
        let ghost c1c = self.creatures@;
        increase_walnut(&mut self.creatures, &self.field);
        let ghost (wr, wp) = choose|rolls: Seq<u32>, picks: Seq<u32>|
            #![trigger grown(c1c, self.field, rolls, picks, c1c.len())]
            rolls.len() == c1c.len() && picks.len() == c1c.len() && self.creatures@ == grown(c1c, self.field, rolls, picks, c1c.len());
        let ghost c2 = self.creatures@;
        weaken_bear(&mut self.creatures);
        assert(all_placed(self.creatures@, self.field)) by {
            assert forall|k: int| 0 <= k < self.creatures@.len() implies (#[trigger] self.creatures@[k]).wf()
                && self.field.contains(self.creatures@[k].pos) by {
                assert(self.creatures@[k] == weakened(c2[k]));
            }
        }
        let ghost c3 = self.creatures@;
        die_of_old_age(&mut self.creatures);
        proof {
            lemma_filter_placed(c3, |c: Creature| !dies_of_age(c), self.field);
        }
        self.goal();
        let ghost c4 = self.creatures@;
        despawn(&mut self.creatures);
        proof {
            lemma_filter_placed(c4, |c: Creature| alive(c), self.field);
            assert forall|k: int| 0 <= k < self.creatures@.len() implies !on_ship(#[trigger] self.creatures@[k], self.ship.pos) by {
                let p = |c: Creature| alive(c);
                assert(c4.filter(p).contains(c4.filter(p)[k]));
                c4.lemma_filter_contains_rev(p, c4.filter(p)[k]);
                let j = choose|j: int| 0 <= j < c4.len() && c4[j] == c4.filter(p)[k];
                assert(!on_ship(c4[j], self.ship.pos));
            }
            assert(c3.filter(|c: Creature| !dies_of_age(c)) == after_lifecycle(c1, self.field, bp, wr, wp));
            assert(tick_outcome(*old(self), *input, *self, c1, bp, wr, wp));
        }
    }

    /// Lets `delta_ms` milliseconds pass. When the clock fires, one tick
    /// runs and the result is `true`; otherwise nothing but the clock
    /// changes.
    pub fn tick(&mut self, delta_ms: u64, input: &Input) -> (ran: bool)
        requires
            old(self).wf(),
        ensures
            final(self).wf(),
            final(self).field == old(self).field,
            ran == (old(self).timer.elapsed_ms + delta_ms >= old(self).timer.period_ms),
            final(self).timer.period_ms == old(self).timer.period_ms,
            final(self).timer.elapsed_ms == (old(self).timer.elapsed_ms + delta_ms) % (old(self).timer.period_ms as int),
            !ran ==> final(self).creatures@ == old(self).creatures@ && final(self).ship == old(self).ship
                && final(self).state == old(self).state,
            ran ==> ticked(*old(self), *input, *final(self)),
            ran ==> forall|k: int| 0 <= k < final(self).creatures@.len() ==> (#[trigger] final(self).creatures@[k]).hp.val > 0,
            ran ==> forall|k: int| 0 <= k < final(self).creatures@.len() ==> !on_ship(#[trigger] final(self).creatures@[k], final(self).ship.pos),
            old(self).state == StateKind::Playing ==> final(self).state == StateKind::Playing || final(self).state == StateKind::GameClear,
            old(self).state != StateKind::Playing ==> final(self).state == old(self).state,
    {
        if self.timer.tick(delta_ms) {
            let ghost mid = *self;
            self.run_tick(input);
            proof {
                let (m, bp, wr, wp) = choose|m: Seq<Creature>, bp: Seq<u32>, wr: Seq<u32>, wp: Seq<u32>|
                    #[trigger] tick_outcome(mid, *input, *self, m, bp, wr, wp);
                assert(tick_outcome(*old(self), *input, *self, m, bp, wr, wp));
            }
            true
        } else {
            false
        }
    }
}

/// No creature of `cs` is a human.
pub open spec fn no_humans(cs: Seq<Creature>) -> bool {
    forall|k: int| 0 <= k < cs.len() ==> (#[trigger] cs[k]).species != Species::Human
}

proof fn lemma_litter_no_humans(cs: Seq<Creature>, field: Field, picks: Seq<u32>, n: nat)
    requires
        n <= cs.len(),
        no_humans(cs),
    ensures
        no_humans(litter(cs, field, picks, n)),
    decreases n,
{
    if n > 0 {
        lemma_litter_no_humans(cs, field, picks, (n - 1) as nat);
        let prev = litter(cs, field, picks, (n - 1) as nat);
        match birth(cs[n - 1], field, picks[n - 1]) {
            Some(c) => {
                assert(c.species == cs[n - 1].species);
                assert forall|k: int| 0 <= k < prev.push(c).len() implies (#[trigger] prev.push(c)[k]).species != Species::Human by {
                    if k < prev.len() {
                        assert(prev.push(c)[k] == prev[k]);
                    }
                }
            },
            None => {},
        }
    }
}

proof fn lemma_grown_no_humans(cs: Seq<Creature>, field: Field, rolls: Seq<u32>, picks: Seq<u32>, n: nat)
    requires
        n <= cs.len(),
        no_humans(cs),
    ensures
        no_humans(grown(cs, field, rolls, picks, n)),
    decreases n,
{
    if n > 0 {
        lemma_grown_no_humans(cs, field, rolls, picks, (n - 1) as nat);
        let prev = grown(cs, field, rolls, picks, (n - 1) as nat);
        match sprout(prev, field, cs[n - 1], rolls[n - 1], picks[n - 1]) {
            Some(q) => {
                assert forall|k: int| 0 <= k < prev.push(walnut_at(q)).len() implies (#[trigger] prev.push(walnut_at(q))[k]).species != Species::Human by {
                    if k < prev.len() {
                        assert(prev.push(walnut_at(q))[k] == prev[k]);
                    }
                }
            },
            None => {},
        }
    }
}

proof fn lemma_filter_no_humans(cs: Seq<Creature>, p: spec_fn(Creature) -> bool)
    requires
        no_humans(cs),
    ensures
        no_humans(cs.filter(p)),
{
    assert forall|k: int| 0 <= k < cs.filter(p).len() implies (#[trigger] cs.filter(p)[k]).species != Species::Human by {
        assert(cs.filter(p).contains(cs.filter(p)[k]));
        cs.lemma_filter_contains_rev(p, cs.filter(p)[k]);
        let j = choose|j: int| 0 <= j < cs.len() && cs[j] == cs.filter(p)[k];
    }
}

/// Once the player is gone it stays gone: a tick of a world without a
/// human gives a world without a human, so no step of the player's is
/// taken for anyone.
pub proof fn lemma_player_stays_gone(w: World, input: Input, v: World)
    requires
        ticked(w, input, v),
        no_humans(w.creatures@),
    ensures
        no_humans(v.creatures@),
{
    let (moved, bp, wr, wp) = choose|m: Seq<Creature>, bp: Seq<u32>, wr: Seq<u32>, wp: Seq<u32>|
        #[trigger] tick_outcome(w, input, v, m, bp, wr, wp);
    let m0 = w.creatures@.map_values(|c: Creature| metabolized(c));
    assert(no_humans(m0));
    assert forall|k: int| 0 <= k < moved.len() implies (#[trigger] moved[k]).species != Species::Human by {
        assert(moved_one(w.field, input, m0, m0[k], moved[k]));
    }
    let eaten = after_eaten(after_eat(moved, moved), moved);
    assert forall|k: int| 0 <= k < eaten.len() implies (#[trigger] eaten[k]).species != Species::Human by {
        assert(after_eat(moved, moved)[k] == fed(moved[k], moved, k));
    }
    lemma_litter_no_humans(eaten, w.field, bp, eaten.len());
    let born = bred(eaten, w.field, bp);
    let parents = eaten.map_values(|c: Creature| after_birth(c));
    let young = litter(eaten, w.field, bp, eaten.len());
    assert forall|k: int| 0 <= k < born.len() implies (#[trigger] born[k]).species != Species::Human by {
        if k < parents.len() {
            assert(born[k] == parents[k]);
        } else {
            assert(born[k] == young[k - parents.len()]);
        }
    }
    lemma_grown_no_humans(born, w.field, wr, wp, born.len());
    let grew = grown(born, w.field, wr, wp, born.len());
    let weak = grew.map_values(|c: Creature| weakened(c));
    assert(no_humans(weak));
    lemma_filter_no_humans(weak, |c: Creature| !dies_of_age(c));
    let rest = after_lifecycle(moved, w.field, bp, wr, wp);
    lemma_filter_no_humans(rest, |c: Creature| !on_ship(c, v.ship.pos));
    lemma_filter_no_humans(rest.filter(|c: Creature| !on_ship(c, v.ship.pos)), |c: Creature| alive(c));
}

} // verus!
