//! The ship: it patrols a closed loop of unit steps and is the player's
//! goal.

use vstd::prelude::*;
use crate::components::{Position, Stamina, in_bounds, shifted};
use crate::consts::{SHIP_PATH_LEN, HEALING_STAMINA_SHIP};

verus! {

/// Horizontal offset of step `i` of the patrol: 12 steps right, 32 down,
/// 32 up, then 12 left.
pub open spec fn path_dx(i: int) -> int {
    if 0 <= i < 12 { 1 } else if 76 <= i < 88 { -1 } else { 0 }
}

/// Vertical offset of step `i` of the patrol.
pub open spec fn path_dy(i: int) -> int {
    if 12 <= i < 44 { -1 } else if 44 <= i < 76 { 1 } else { 0 }
}

/// Horizontal displacement from the loop's start after its first `k` steps.
pub open spec fn patrol_x(k: int) -> int {
    if k <= 12 { k } else if k <= 76 { 12 } else { 12 - (k - 76) }
}

/// Vertical displacement from the loop's start after its first `k` steps.
pub open spec fn patrol_y(k: int) -> int {
    if k <= 12 { 0 } else if k <= 44 { -(k - 12) } else if k <= 76 { -32 + (k - 44) } else { 0 }
}

/// Taking step `k` moves from displacement `k` to displacement `k + 1`,
/// and the loop closes: after all its steps the displacement is zero again.
pub proof fn lemma_patrol_step(k: int)
    requires
        0 <= k < SHIP_PATH_LEN,
    ensures
        patrol_x(k) + path_dx(k) == patrol_x(k + 1),
        patrol_y(k) + path_dy(k) == patrol_y(k + 1),
        patrol_x(SHIP_PATH_LEN as int) == patrol_x(0),
        patrol_y(SHIP_PATH_LEN as int) == patrol_y(0),
        -32 <= patrol_y(k) <= 0 && 0 <= patrol_x(k) <= 12,
{
}

/// The offset of step `index` of the patrol.
pub fn ship_moving(index: usize) -> (r: Position)
    requires
        index < SHIP_PATH_LEN,
    ensures
        r.x == path_dx(index as int),
        r.y == path_dy(index as int),
{
    if index < 12 {
        Position::right()
    } else if index < 44 {
        Position::down()
    } else if index < 76 {
        Position::up()
    } else {
        Position::left()
    }
}

/// The patrolling ship.
#[derive(Clone, Copy, Debug, PartialEq, Eq, Structural)]
pub struct Ship {
    /// The next step of the patrol to take.
    pub index: usize,
    /// Where the patrol loop starts and ends.
    pub home: Position,
    pub pos: Position,
    pub stamina: Stamina,
}

/// The ship after taking the next step of its patrol.
pub open spec fn advanced(s: Ship) -> Ship {
    Ship {
        pos: shifted(s.pos, path_dx(s.index as int), path_dy(s.index as int)),
        index: ((s.index + 1) % (SHIP_PATH_LEN as int)) as usize,
        stamina: Stamina { val: 0, ..s.stamina },
        ..s
    }
}

/// The ship after `n` steps of its patrol.
pub open spec fn advanced_n(s: Ship, n: nat) -> Ship
    decreases n,
{
    if n == 0 { s } else { advanced(advanced_n(s, (n - 1) as nat)) }
}

/// A ship at `home`, about to start its loop.
pub open spec fn docked(home: Position) -> Ship {
    Ship { index: 0, home, pos: home, stamina: Stamina { healing_val: HEALING_STAMINA_SHIP, val: 0 } }
}

impl Ship {
    /// The ship stands on its loop, `index` steps from home.
    pub open spec fn wf(&self) -> bool {
        &&& self.index < SHIP_PATH_LEN
        &&& in_bounds(self.home)
        &&& self.pos == shifted(self.home, patrol_x(self.index as int), patrol_y(self.index as int))
    }

    /// A ship at `home`, about to start its loop.
    pub fn new(home: Position) -> (r: Ship)
        requires
            in_bounds(home),
        ensures
            r.wf(),
            r == docked(home),
    {
        Ship { index: 0, home, pos: home, stamina: Stamina::ship() }
    }

    /// Takes the next step of the patrol when stamina allows, spending it.
    pub fn move_ship(&mut self)
        requires
            old(self).wf(),
        ensures
            final(self).wf(),
            old(self).stamina.ready() ==> *final(self) == advanced(*old(self)),
            !old(self).stamina.ready() ==> *final(self) == *old(self),
    {
        if self.stamina.can_move() {
            proof {
                lemma_patrol_step(self.index as int);
            }
            let offset = ship_moving(self.index);
            self.pos = self.pos.add(&offset);
            self.stamina.val = 0;
            self.index = (self.index + 1) % SHIP_PATH_LEN;
        }
    }
}

/// A step of the patrol keeps the ship on its loop.
pub proof fn lemma_advanced_wf(s: Ship)
    requires
        s.wf(),
    ensures
        advanced(s).wf(),
        advanced(s).home == s.home,
{
    lemma_patrol_step(s.index as int);
}

/// Stepping along the patrol `n` times from any point of the loop leads
/// to the point `n` steps further on, counted round the loop.
pub proof fn lemma_advanced_n(s: Ship, n: nat)
    requires
        s.wf(),
    ensures
        advanced_n(s, n).wf(),
        advanced_n(s, n).home == s.home,
        advanced_n(s, n).index == (s.index + n) % (SHIP_PATH_LEN as int),
    decreases n,
{
    if n > 0 {
        lemma_advanced_n(s, (n - 1) as nat);
        lemma_advanced_wf(advanced_n(s, (n - 1) as nat));
    }
}

/// The patrol is a closed loop: a ship that takes every step of its path,
/// starting from any point of it, is back where it started.
pub proof fn lemma_patrol_closes(s: Ship)
    requires
        s.wf(),
    ensures
        advanced_n(s, SHIP_PATH_LEN as nat).pos == s.pos,
        advanced_n(s, SHIP_PATH_LEN as nat).index == s.index,
{
    lemma_advanced_n(s, SHIP_PATH_LEN as nat);
}

} // verus!
