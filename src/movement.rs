//! Where each mover goes: the player by input, fauna by chasing their
//! nearest prey or wandering.

use vstd::prelude::*;
use crate::components::{Position, Creature, Stamina, in_bounds, shifted, manhattan, distance};
use crate::consts::{APPROACH_THRESHOLD, APPROACH_ROLL_MAX};
use crate::field::Field;

verus! {

/// The keys held for the player this tick.
#[derive(Clone, Copy, Debug, PartialEq, Eq, Structural)]
pub struct Input {
    pub left: bool,
    pub right: bool,
    pub up: bool,
    pub down: bool,
}

/// Horizontal part of what the held keys ask for; opposite keys cancel.
pub open spec fn keys_dx(i: Input) -> int {
    (if i.right { 1int } else { 0int }) - (if i.left { 1int } else { 0int })
}

/// Vertical part of what the held keys ask for; opposite keys cancel.
pub open spec fn keys_dy(i: Input) -> int {
    (if i.up { 1int } else { 0int }) - (if i.down { 1int } else { 0int })
}

/// The keys name an axis direction or none, not a diagonal.
pub open spec fn keys_on_axis(i: Input) -> bool {
    keys_dx(i) == 0 || keys_dy(i) == 0
}

/// Horizontal part of the player's step: one of the four axis directions,
/// or none when the keys ask for a diagonal.
pub open spec fn input_dx(i: Input) -> int {
    if keys_on_axis(i) { keys_dx(i) } else { 0 }
}

/// Vertical part of the player's step.
pub open spec fn input_dy(i: Input) -> int {
    if keys_on_axis(i) { keys_dy(i) } else { 0 }
}

impl Input {
    /// No key held.
    pub fn none() -> (r: Input)
        ensures
            !r.left && !r.right && !r.up && !r.down,
    {
        Input { left: false, right: false, up: false, down: false }
    }

    /// The step the held keys ask for: one of the four axis directions,
    /// or none. Opposite keys cancel out, and keys that ask for a diagonal
    /// give no step.
    pub fn direction(&self) -> (r: Position)
        ensures
            r.x == input_dx(*self),
            r.y == input_dy(*self),
    {
        let mut x: i32 = 0;
        let mut y: i32 = 0;
        if self.left {
            x = x - 1;
        }
        if self.right {
            x = x + 1;
        }
        if self.up {
            y = y + 1;
        }
        if self.down {
            y = y - 1;
        }
        if x != 0 && y != 0 {
            x = 0;
            y = 0;
        }
        Position { x, y }
    }
}

/// `prey[i]` is the prey closest to `pos`, and the first of those that are
/// equally close.
pub open spec fn is_nearest(prey: Seq<Position>, pos: Position, i: int) -> bool {
    &&& 0 <= i < prey.len()
    &&& forall|j: int| 0 <= j < prey.len() ==> manhattan(prey[i], pos) <= manhattan(#[trigger] prey[j], pos)
    &&& forall|j: int| 0 <= j < i ==> manhattan(#[trigger] prey[j], pos) > manhattan(prey[i], pos)
}

/// The index of the prey nearest to `pos`, or `None` when there is no prey.
pub fn get_neighbor(prey: &Vec<Position>, pos: &Position) -> (r: Option<usize>)
    ensures
        r is None <==> prey@.len() == 0,
        r matches Some(i) ==> is_nearest(prey@, *pos, i as int),
{
    if prey.len() == 0 {
        return None;
    }
    let mut best: usize = 0;
    let mut best_d: i64 = distance(&prey[0], pos);
    let mut i: usize = 1;
    while i < prey.len()
        invariant
            1 <= i <= prey@.len(),
            best < i,
            best_d == manhattan(prey@[best as int], *pos),
            forall|j: int| 0 <= j < i ==> best_d <= manhattan(#[trigger] prey@[j], *pos),
            forall|j: int| 0 <= j < best ==> manhattan(#[trigger] prey@[j], *pos) > best_d,
        decreases prey@.len() - i,
    {
        let d = distance(&prey[i], pos);
        if d < best_d {
            best = i;
            best_d = d;
        }
        i = i + 1;
    }
    Some(best)
}

/// Offset of the `k`-th neighbour tried when chasing: right, left, up, down.
pub open spec fn chase_dx(k: int) -> int {
    if k == 0 { 1 } else if k == 1 { -1 } else { 0 }
}

pub open spec fn chase_dy(k: int) -> int {
    if k == 2 { 1 } else if k == 3 { -1 } else { 0 }
}

/// The `k`-th neighbour of `pos` tried when chasing.
pub open spec fn chase_cell(pos: Position, k: int) -> Position {
    shifted(pos, chase_dx(k), chase_dy(k))
}

/// Some neighbour of `pos` is terrain.
pub open spec fn has_open_neighbor(field: Field, pos: Position) -> bool {
    exists|k: int| 0 <= k < 4 && field.contains(#[trigger] chase_cell(pos, k))
}

/// `r` is the step towards `target`: of the neighbours of `pos` that are
/// terrain, the first that is as close to `target` as any of them; `pos`
/// itself when no neighbour is terrain.
pub open spec fn is_chase_step(field: Field, pos: Position, target: Position, r: Position) -> bool {
    if has_open_neighbor(field, pos) {
        exists|k: int|
            #![trigger chase_cell(pos, k)]
            {
                &&& 0 <= k < 4
                &&& r == chase_cell(pos, k)
                &&& field.contains(r)
                &&& forall|j: int|
                    0 <= j < 4 && field.contains(#[trigger] chase_cell(pos, j)) ==> manhattan(
                        r,
                        target,
                    ) <= manhattan(chase_cell(pos, j), target)
                &&& forall|j: int|
                    0 <= j < k && field.contains(#[trigger] chase_cell(pos, j)) ==> manhattan(
                        chase_cell(pos, j),
                        target,
                    ) > manhattan(r, target)
            }
    } else {
        r == pos
    }
}

/// One step from `pos` towards `target` over terrain.
pub fn step_toward(field: &Field, pos: &Position, target: &Position) -> (r: Position)
    requires
        in_bounds(*pos),
    ensures
        is_chase_step(*field, *pos, *target, r),
{
    let dirs: [Position; 4] = [
        Position { x: 1, y: 0 },
        Position { x: -1, y: 0 },
        Position { x: 0, y: 1 },
        Position { x: 0, y: -1 },
    ];
    let mut best: Option<usize> = None;
    let mut best_cell: Position = *pos;
    let mut best_d: i64 = 0;
    let mut k: usize = 0;
    while k < 4
        invariant
            k <= 4,
            in_bounds(*pos),
            forall|j: int| 0 <= j < 4 ==> chase_cell(*pos, j) == shifted(*pos, dirs@[j].x as int, dirs@[j].y as int),
            dirs@.len() == 4,
            dirs@[0] == (Position { x: 1, y: 0 }),
            dirs@[1] == (Position { x: -1i32, y: 0 }),
            dirs@[2] == (Position { x: 0, y: 1 }),
            dirs@[3] == (Position { x: 0, y: -1i32 }),
            best is None ==> best_cell == *pos && forall|j: int|
                0 <= j < k ==> !field.contains(#[trigger] chase_cell(*pos, j)),
            best matches Some(b) ==> {
                &&& b < k
                &&& best_cell == chase_cell(*pos, b as int)
                &&& field.contains(best_cell)
                &&& best_d == manhattan(best_cell, *target)
                &&& forall|j: int|
                    0 <= j < k && field.contains(#[trigger] chase_cell(*pos, j)) ==> best_d
                        <= manhattan(chase_cell(*pos, j), *target)
                &&& forall|j: int|
                    0 <= j < b && field.contains(#[trigger] chase_cell(*pos, j)) ==> manhattan(
                        chase_cell(*pos, j),
                        *target,
                    ) > best_d
            },
        decreases 4 - k,
    {
        let c = pos.add(&dirs[k]);
        assert(c == chase_cell(*pos, k as int));
        if field.reachable(c.x, c.y) {
            let d = distance(&c, target);
            match best {
                None => {
                    best = Some(k);
                    best_cell = c;
                    best_d = d;
                },
                Some(_) => {
                    if d < best_d {
                        best = Some(k);
                        best_cell = c;
                        best_d = d;
                    }
                },
            }
        }
        k = k + 1;
    }
    match best {
        None => {
            assert(!has_open_neighbor(*field, *pos));
        },
        Some(b) => {
            assert(field.contains(chase_cell(*pos, b as int)));
        },
    }
    best_cell
}

/// Offset of a random wandering step by the draw `c`: left, right, down,
/// up, or stay.
pub open spec fn wander_dx(c: int) -> int {
    if c == 0 { -1 } else if c == 1 { 1 } else { 0 }
}

pub open spec fn wander_dy(c: int) -> int {
    if c == 2 { -1 } else if c == 3 { 1 } else { 0 }
}

/// The wandering step for the draw `c`, taken only onto terrain.
pub open spec fn wander_step(field: Field, pos: Position, c: int) -> Position {
    let dest = shifted(pos, wander_dx(c), wander_dy(c));
    if field.contains(dest) { dest } else { pos }
}

/// The direction of a random wandering step for the draw `choice` in
/// `0 .. 5`.
pub fn get_random_direction(choice: u32) -> (r: Position)
    requires
        choice < 5,
    ensures
        r.x == wander_dx(choice as int),
        r.y == wander_dy(choice as int),
{
    let choices: [Position; 5] = [
        Position { x: -1, y: 0 },
        Position { x: 1, y: 0 },
        Position { x: 0, y: -1 },
        Position { x: 0, y: 1 },
        Position { x: 0, y: 0 },
    ];
    choices[choice as usize]
}

/// Where a fauna mover at `pos` goes, for the draws `roll` in
/// `1 ..= APPROACH_ROLL_MAX` and `choice` in `0 .. 5`: with prey about and
/// a roll of at most `APPROACH_THRESHOLD` it steps towards the nearest
/// prey; otherwise it wanders in the direction `choice`. It never leaves
/// the terrain.
pub open spec fn is_approach(
    field: Field,
    prey: Seq<Position>,
    pos: Position,
    roll: int,
    choice: int,
    r: Position,
) -> bool {
    if prey.len() > 0 && roll <= APPROACH_THRESHOLD {
        exists|i: int| is_nearest(prey, pos, i) && is_chase_step(field, pos, #[trigger] prey[i], r)
    } else {
        r == wander_step(field, pos, choice)
    }
}

pub fn approach(prey: &Vec<Position>, pos: &Position, field: &Field, roll: u32, choice: u32) -> (r: Position)
    requires
        in_bounds(*pos),
        1 <= roll <= APPROACH_ROLL_MAX,
        choice < 5,
    ensures
        is_approach(*field, prey@, *pos, roll as int, choice as int, r),
        field.contains(r) || r == *pos,
{
    match get_neighbor(prey, pos) {
        Some(i) => {
            if roll <= APPROACH_THRESHOLD {
                let r = step_toward(field, pos, &prey[i]);
                assert(is_nearest(prey@, *pos, i as int) && is_chase_step(*field, *pos, prey@[i as int], r));
                return r;
            }
        },
        None => {},
    }
    let dir = get_random_direction(choice);
    let dest = pos.add(&dir);
    if field.reachable(dest.x, dest.y) {
        dest
    } else {
        *pos
    }
}

/// The player after one movement step for `input`: it moves when its
/// stamina is full, some key asks for a step and the destination is
/// terrain; moving empties its stamina. A blocked step costs nothing.
pub open spec fn player_moved(field: Field, c: Creature, input: Input) -> Creature {
    let dest = shifted(c.pos, input_dx(input), input_dy(input));
    if c.stamina.ready() && (input_dx(input) != 0 || input_dy(input) != 0) && field.contains(dest) {
        Creature { pos: dest, stamina: Stamina { val: 0, ..c.stamina }, ..c }
    } else {
        c
    }
}

pub fn move_player(c: &mut Creature, field: &Field, input: &Input)
    requires
        in_bounds(old(c).pos),
    ensures
        *final(c) == player_moved(*field, *old(c), *input),
{
    let dir = input.direction();
    if c.stamina.can_move() && (dir.x != 0 || dir.y != 0) {
        let dest = c.pos.add(&dir);
        if field.reachable(dest.x, dest.y) {
            c.pos = dest;
            c.stamina.val = 0;
        }
    }
}

/// Moves a fauna creature one step: with full stamina it goes where
/// `approach` sends it and its stamina is spent, even when it could not
/// move; otherwise it stays as it is.
pub fn move_fauna(c: &mut Creature, prey: &Vec<Position>, field: &Field, roll: u32, choice: u32)
    requires
        in_bounds(old(c).pos),
        1 <= roll <= APPROACH_ROLL_MAX,
        choice < 5,
    ensures
        !old(c).stamina.ready() ==> *final(c) == *old(c),
        old(c).stamina.ready() ==> {
            &&& is_approach(*field, prey@, old(c).pos, roll as int, choice as int, final(c).pos)
            &&& *final(c) == (Creature {
                pos: final(c).pos,
                stamina: Stamina { val: 0, ..old(c).stamina },
                ..*old(c)
            })
        },
        field.contains(old(c).pos) ==> field.contains(final(c).pos),
{
    if c.stamina.can_move() {
        let dest = approach(prey, &c.pos, field, roll, choice);
        c.pos = dest;
        c.stamina.val = 0;
    }
}

} // verus!
