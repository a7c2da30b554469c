//! The attributes an entity carries, and the per-species tables.

use vstd::prelude::*;
use crate::consts::{COORD_LIMIT, HEALTHSPAN_STRONG_BEAR, MAX_HP_HUMAN, MAX_HP_BEAR, MAX_HP_FOX, MAX_HP_WALNUT, INITIAL_HP_HUMAN, DECREASE_HP_HUMAN, DECREASE_HP_BEAR, DECREASE_HP_FOX, DECREASE_HP_WALNUT, HEALING_HP_HUMAN, HEALING_HP_BEAR, HEALING_HP_FOX, HEALING_HP_WALNUT, HEALING_SATIETY_HUMAN, HEALING_SATIETY_BEAR, HEALING_SATIETY_FOX, HEALING_SATIETY_WALNUT, MAX_SATIETY_STRONG_BEAR, MAX_SATIETY_FOX, WEAK_HP_NUM, WEAK_HP_DEN, MAX_STAMINA, HEALING_STAMINA_HUMAN, HEALING_STAMINA_STRONG_BEAR, HEALING_STAMINA_WEAK_BEAR, HEALING_STAMINA_FOX, HEALING_STAMINA_WALNUT, HEALING_STAMINA_SHIP};

verus! {

/// A grid cell.
#[derive(Clone, Copy, Debug, PartialEq, Eq, Structural)]
pub struct Position {
    pub x: i32,
    pub y: i32,
}

/// `p` lies within `COORD_LIMIT` of the origin on both axes.
pub open spec fn in_bounds(p: Position) -> bool {
    -COORD_LIMIT <= p.x <= COORD_LIMIT && -COORD_LIMIT <= p.y <= COORD_LIMIT
}

/// The cell `p` shifted by `(dx, dy)`.
pub open spec fn shifted(p: Position, dx: int, dy: int) -> Position {
    Position { x: (p.x + dx) as i32, y: (p.y + dy) as i32 }
}

/// Manhattan distance between two cells.
pub open spec fn manhattan(a: Position, b: Position) -> int {
    let dx = a.x - b.x;
    let dy = a.y - b.y;
    (if dx < 0 { -dx } else { dx }) + (if dy < 0 { -dy } else { dy })
}

impl Position {
    pub fn up() -> (r: Position)
        ensures
            r == (Position { x: 0, y: 1 }),
    {
        Position { x: 0, y: 1 }
    }

    pub fn down() -> (r: Position)
        ensures
            r == (Position { x: 0, y: -1i32 }),
    {
        Position { x: 0, y: -1 }
    }

    pub fn left() -> (r: Position)
        ensures
            r == (Position { x: -1i32, y: 0 }),
    {
        Position { x: -1, y: 0 }
    }

    pub fn right() -> (r: Position)
        ensures
            r == (Position { x: 1, y: 0 }),
    {
        Position { x: 1, y: 0 }
    }

    pub fn stay() -> (r: Position)
        ensures
            r == (Position { x: 0, y: 0 }),
    {
        Position { x: 0, y: 0 }
    }

    /// The cell reached from `self` by the offset `rhs`.
    pub fn add(&self, rhs: &Position) -> (r: Position)
        requires
            i32::MIN <= self.x + rhs.x <= i32::MAX,
            i32::MIN <= self.y + rhs.y <= i32::MAX,
        ensures
            r == shifted(*self, rhs.x as int, rhs.y as int),
    {
        Position { x: self.x + rhs.x, y: self.y + rhs.y }
    }
}

/// Manhattan distance between two cells.
pub fn distance(a: &Position, b: &Position) -> (r: i64)
    ensures
        r == manhattan(*a, *b),
{
    let dx: i64 = a.x as i64 - b.x as i64;
    let dy: i64 = a.y as i64 - b.y as i64;
    let ax: i64 = if dx < 0 { -dx } else { dx };
    let ay: i64 = if dy < 0 { -dy } else { dy };
    ax + ay
}

/// The kinds of living entity.
#[derive(Clone, Copy, Debug, PartialEq, Eq, Structural)]
pub enum Species {
    Human,
    StrongBear,
    WeakBear,
    Fox,
    Walnut,
}

/// The predation graph: `eater` eats `prey`.
pub open spec fn eats(eater: Species, prey: Species) -> bool {
    match eater {
        Species::Human => prey == Species::Walnut || prey == Species::Fox || prey
            == Species::WeakBear,
        Species::StrongBear => prey == Species::Walnut || prey == Species::Fox || prey
            == Species::Human,
        Species::WeakBear => prey == Species::Walnut || prey == Species::Fox,
        Species::Fox => prey == Species::Walnut,
        Species::Walnut => false,
    }
}

/// Health an eater gains from one prey of the species.
pub open spec fn healing_hp(prey: Species) -> u64 {
    match prey {
        Species::Human => HEALING_HP_HUMAN,
        Species::StrongBear => HEALING_HP_BEAR,
        Species::WeakBear => HEALING_HP_BEAR,
        Species::Fox => HEALING_HP_FOX,
        Species::Walnut => HEALING_HP_WALNUT,
    }
}

/// Satiety an eater gains from one prey of the species.
pub open spec fn healing_satiety(prey: Species) -> u64 {
    match prey {
        Species::Human => HEALING_SATIETY_HUMAN,
        Species::StrongBear => HEALING_SATIETY_BEAR,
        Species::WeakBear => HEALING_SATIETY_BEAR,
        Species::Fox => HEALING_SATIETY_FOX,
        Species::Walnut => HEALING_SATIETY_WALNUT,
    }
}

/// The species that moves on its own towards its prey.
pub open spec fn is_fauna(s: Species) -> bool {
    s == Species::Fox || s == Species::StrongBear || s == Species::WeakBear
}

impl Species {
    pub fn eats(&self, prey: Species) -> (r: bool)
        ensures
            r == eats(*self, prey),
    {
        match self {
            Species::Human => prey == Species::Walnut || prey == Species::Fox || prey
                == Species::WeakBear,
            Species::StrongBear => prey == Species::Walnut || prey == Species::Fox || prey
                == Species::Human,
            Species::WeakBear => prey == Species::Walnut || prey == Species::Fox,
            Species::Fox => prey == Species::Walnut,
            Species::Walnut => false,
        }
    }

    /// Health gained by whoever eats one of this species.
    pub fn healing_hp(&self) -> (r: u64)
        ensures
            r == healing_hp(*self),
    {
        match self {
            Species::Human => HEALING_HP_HUMAN,
            Species::StrongBear => HEALING_HP_BEAR,
            Species::WeakBear => HEALING_HP_BEAR,
            Species::Fox => HEALING_HP_FOX,
            Species::Walnut => HEALING_HP_WALNUT,
        }
    }

    /// Satiety gained by whoever eats one of this species.
    pub fn healing_satiety(&self) -> (r: u64)
        ensures
            r == healing_satiety(*self),
    {
        match self {
            Species::Human => HEALING_SATIETY_HUMAN,
            Species::StrongBear => HEALING_SATIETY_BEAR,
            Species::WeakBear => HEALING_SATIETY_BEAR,
            Species::Fox => HEALING_SATIETY_FOX,
            Species::Walnut => HEALING_SATIETY_WALNUT,
        }
    }

    pub fn is_fauna(&self) -> (r: bool)
        ensures
            r == is_fauna(*self),
    {
        match self {
            Species::Fox | Species::StrongBear | Species::WeakBear => true,
            _ => false,
        }
    }
}

/// Health: current value, maximum and loss to hunger per tick.
#[derive(Clone, Copy, Debug, PartialEq, Eq, Structural)]
pub struct HP {
    pub val: u64,
    pub max: u64,
    pub decay: u64,
}

impl HP {
    pub fn human() -> (r: HP)
        ensures
            r == (HP { val: INITIAL_HP_HUMAN, max: MAX_HP_HUMAN, decay: DECREASE_HP_HUMAN }),
    {
        HP { val: INITIAL_HP_HUMAN, max: MAX_HP_HUMAN, decay: DECREASE_HP_HUMAN }
    }

    pub fn bear(val: u64) -> (r: HP)
        ensures
            r == (HP { val, max: MAX_HP_BEAR, decay: DECREASE_HP_BEAR }),
    {
        HP { val, max: MAX_HP_BEAR, decay: DECREASE_HP_BEAR }
    }

    pub fn fox() -> (r: HP)
        ensures
            r == (HP { val: MAX_HP_FOX, max: MAX_HP_FOX, decay: DECREASE_HP_FOX }),
    {
        HP { val: MAX_HP_FOX, max: MAX_HP_FOX, decay: DECREASE_HP_FOX }
    }

    pub fn walnut() -> (r: HP)
        ensures
            r == (HP { val: MAX_HP_WALNUT, max: MAX_HP_WALNUT, decay: DECREASE_HP_WALNUT }),
    {
        HP { val: MAX_HP_WALNUT, max: MAX_HP_WALNUT, decay: DECREASE_HP_WALNUT }
    }

    /// Whether the entity has died (health reached zero).
    pub fn is_dead(&self) -> (r: bool)
        ensures
            r == (self.val == 0),
    {
        self.val == 0
    }

    /// One tick of hunger: health drops by `decay`, stopping at zero.
    pub fn hunger(&mut self)
        ensures
            *final(self) == (HP { val: old(self).val.saturating_sub(old(self).decay), ..*old(self) }),
    {
        self.val = self.val.saturating_sub(self.decay);
    }
}

/// Below `WEAK_HP_NUM / WEAK_HP_DEN` of its maximum health.
pub open spec fn is_weak(hp: HP) -> bool {
    hp.val * WEAK_HP_DEN < hp.max * WEAK_HP_NUM
}

/// Above `WEAK_HP_NUM / WEAK_HP_DEN` of its maximum health.
pub open spec fn is_healthy(hp: HP) -> bool {
    hp.val * WEAK_HP_DEN > hp.max * WEAK_HP_NUM
}

impl HP {
    pub fn is_weak(&self) -> (r: bool)
        ensures
            r == is_weak(*self),
    {
        let v: u128 = self.val as u128;
        let m: u128 = self.max as u128;
        assert(v * 10 <= 0xffff_ffff_ffff_ffffu128 * 10 && m * 9 <= 0xffff_ffff_ffff_ffffu128 * 9)
            by (nonlinear_arith)
            requires
                v <= 0xffff_ffff_ffff_ffffu128,
                m <= 0xffff_ffff_ffff_ffffu128,
        ;
        v * (WEAK_HP_DEN as u128) < m * (WEAK_HP_NUM as u128)
    }

    pub fn is_healthy(&self) -> (r: bool)
        ensures
            r == is_healthy(*self),
    {
        let v: u128 = self.val as u128;
        let m: u128 = self.max as u128;
        assert(v * 10 <= 0xffff_ffff_ffff_ffffu128 * 10 && m * 9 <= 0xffff_ffff_ffff_ffffu128 * 9)
            by (nonlinear_arith)
            requires
                v <= 0xffff_ffff_ffff_ffffu128,
                m <= 0xffff_ffff_ffff_ffffu128,
        ;
        v * (WEAK_HP_DEN as u128) > m * (WEAK_HP_NUM as u128)
    }
}

/// Satiety: what eating has accumulated, and the level that triggers
/// reproduction (`None` for a species that never reproduces this way).
#[derive(Clone, Copy, Debug, PartialEq, Eq, Structural)]
pub struct Satiety {
    pub val: u64,
    pub max: Option<u64>,
}

impl Satiety {
    pub open spec fn wf(&self) -> bool {
        self.max matches Some(m) ==> m > 0
    }

    /// Satiety has reached the reproduction level.
    pub open spec fn full(&self) -> bool {
        self.max matches Some(m) && self.val >= m
    }

    pub fn human() -> (r: Satiety)
        ensures
            r == (Satiety { val: 0, max: None }),
    {
        Satiety { val: 0, max: None }
    }

    pub fn strong_bear() -> (r: Satiety)
        ensures
            r == (Satiety { val: 0, max: Some(MAX_SATIETY_STRONG_BEAR) }),
    {
        Satiety { val: 0, max: Some(MAX_SATIETY_STRONG_BEAR) }
    }

    pub fn weak_bear() -> (r: Satiety)
        ensures
            r == (Satiety { val: 0, max: None }),
    {
        Satiety { val: 0, max: None }
    }

    pub fn fox() -> (r: Satiety)
        ensures
            r == (Satiety { val: 0, max: Some(MAX_SATIETY_FOX) }),
    {
        Satiety { val: 0, max: Some(MAX_SATIETY_FOX) }
    }

    pub fn walnut() -> (r: Satiety)
        ensures
            r == (Satiety { val: 0, max: None }),
    {
        Satiety { val: 0, max: None }
    }

    pub fn is_full(&self) -> (r: bool)
        ensures
            r == self.full(),
    {
        match self.max {
            Some(m) => self.val >= m,
            None => false,
        }
    }
}

/// Stamina: an entity may move once `val` reaches `MAX_STAMINA`.
#[derive(Clone, Copy, Debug, PartialEq, Eq, Structural)]
pub struct Stamina {
    pub healing_val: u32,
    pub val: u32,
}

/// Stamina after one tick of rest: it grows by `healing_val`, up to
/// `MAX_STAMINA`; a value already at or above the maximum is kept.
pub open spec fn rested(s: Stamina) -> Stamina {
    if s.val >= MAX_STAMINA {
        s
    } else if s.val + s.healing_val >= MAX_STAMINA {
        Stamina { val: MAX_STAMINA, ..s }
    } else {
        Stamina { val: (s.val + s.healing_val) as u32, ..s }
    }
}

impl Stamina {
    pub open spec fn ready(&self) -> bool {
        self.val >= MAX_STAMINA
    }

    pub fn cool_down(&mut self)
        ensures
            *final(self) == rested(*old(self)),
    {
        if self.val < MAX_STAMINA {
            if self.healing_val >= MAX_STAMINA - self.val {
                self.val = MAX_STAMINA;
            } else {
                self.val = self.val + self.healing_val;
            }
        }
    }

    pub fn can_move(&self) -> (r: bool)
        ensures
            r == self.ready(),
    {
        self.val >= MAX_STAMINA
    }

    pub fn human() -> (r: Stamina)
        ensures
            r == (Stamina { healing_val: HEALING_STAMINA_HUMAN, val: 0 }),
    {
        Stamina { healing_val: HEALING_STAMINA_HUMAN, val: 0 }
    }

    pub fn strong_bear() -> (r: Stamina)
        ensures
            r == (Stamina { healing_val: HEALING_STAMINA_STRONG_BEAR, val: 0 }),
    {
        Stamina { healing_val: HEALING_STAMINA_STRONG_BEAR, val: 0 }
    }

    pub fn weak_bear() -> (r: Stamina)
        ensures
            r == (Stamina { healing_val: HEALING_STAMINA_WEAK_BEAR, val: 0 }),
    {
        Stamina { healing_val: HEALING_STAMINA_WEAK_BEAR, val: 0 }
    }

    pub fn fox() -> (r: Stamina)
        ensures
            r == (Stamina { healing_val: HEALING_STAMINA_FOX, val: 0 }),
    {
        Stamina { healing_val: HEALING_STAMINA_FOX, val: 0 }
    }

    pub fn walnut() -> (r: Stamina)
        ensures
            r == (Stamina { healing_val: HEALING_STAMINA_WALNUT, val: 0 }),
    {
        Stamina { healing_val: HEALING_STAMINA_WALNUT, val: 0 }
    }

    pub fn ship() -> (r: Stamina)
        ensures
            r == (Stamina { healing_val: HEALING_STAMINA_SHIP, val: 0 }),
    {
        Stamina { healing_val: HEALING_STAMINA_SHIP, val: 0 }
    }
}

/// Ticks survived.
#[derive(Clone, Copy, Debug, PartialEq, Eq, Structural)]
pub struct Age {
    pub val: u32,
}

impl Age {
    /// One tick older (the counter stops at its largest value).
    pub fn get_old(&mut self)
        ensures
            final(self).val == old(self).val.saturating_add(1),
    {
        self.val = self.val.saturating_add(1);
    }
}

/// A living entity with all its attributes.
#[derive(Clone, Copy, Debug, PartialEq, Eq, Structural)]
pub struct Creature {
    pub species: Species,
    pub pos: Position,
    pub hp: HP,
    pub satiety: Satiety,
    pub stamina: Stamina,
    pub age: Age,
}

/// A fresh human, as the player starts.
pub open spec fn player_at(pos: Position) -> Creature {
    Creature {
        species: Species::Human,
        pos,
        hp: HP { val: INITIAL_HP_HUMAN, max: MAX_HP_HUMAN, decay: DECREASE_HP_HUMAN },
        satiety: Satiety { val: 0, max: None },
        stamina: Stamina { healing_val: HEALING_STAMINA_HUMAN, val: 0 },
        age: Age { val: 0 },
    }
}

/// A fresh strong bear with health `hp`.
pub open spec fn strong_bear_at(pos: Position, hp: u64) -> Creature {
    Creature {
        species: Species::StrongBear,
        pos,
        hp: HP { val: hp, max: MAX_HP_BEAR, decay: DECREASE_HP_BEAR },
        satiety: Satiety { val: 0, max: Some(MAX_SATIETY_STRONG_BEAR) },
        stamina: Stamina { healing_val: HEALING_STAMINA_STRONG_BEAR, val: 0 },
        age: Age { val: 0 },
    }
}

/// A weak bear with health `hp`; its age starts where a strong bear's
/// healthy span ends, so it has the rest of a bear's lifespan left.
pub open spec fn weak_bear_at(pos: Position, hp: u64) -> Creature {
    Creature {
        species: Species::WeakBear,
        pos,
        hp: HP { val: hp, max: MAX_HP_BEAR, decay: DECREASE_HP_BEAR },
        satiety: Satiety { val: 0, max: None },
        stamina: Stamina { healing_val: HEALING_STAMINA_WEAK_BEAR, val: 0 },
        age: Age { val: HEALTHSPAN_STRONG_BEAR },
    }
}

/// A fresh fox.
pub open spec fn fox_at(pos: Position) -> Creature {
    Creature {
        species: Species::Fox,
        pos,
        hp: HP { val: MAX_HP_FOX, max: MAX_HP_FOX, decay: DECREASE_HP_FOX },
        satiety: Satiety { val: 0, max: Some(MAX_SATIETY_FOX) },
        stamina: Stamina { healing_val: HEALING_STAMINA_FOX, val: 0 },
        age: Age { val: 0 },
    }
}

/// A fresh walnut.
pub open spec fn walnut_at(pos: Position) -> Creature {
    Creature {
        species: Species::Walnut,
        pos,
        hp: HP { val: MAX_HP_WALNUT, max: MAX_HP_WALNUT, decay: DECREASE_HP_WALNUT },
        satiety: Satiety { val: 0, max: None },
        stamina: Stamina { healing_val: HEALING_STAMINA_WALNUT, val: 0 },
        age: Age { val: 0 },
    }
}

/// A newborn of species `s` at `pos`; bears are born at full health.
pub open spec fn newborn(s: Species, pos: Position) -> Creature {
    match s {
        Species::Human => player_at(pos),
        Species::StrongBear => strong_bear_at(pos, MAX_HP_BEAR),
        Species::WeakBear => weak_bear_at(pos, MAX_HP_BEAR),
        Species::Fox => fox_at(pos),
        Species::Walnut => walnut_at(pos),
    }
}

impl Creature {
    pub open spec fn wf(&self) -> bool {
        self.satiety.wf()
    }

    /// The player's human.
    pub fn player(pos: Position) -> (r: Creature)
        ensures
            r == player_at(pos),
    {
        Creature {
            species: Species::Human,
            pos,
            hp: HP::human(),
            satiety: Satiety::human(),
            stamina: Stamina::human(),
            age: Age { val: 0 },
        }
    }

    pub fn strong_bear(pos: Position, hp: u64) -> (r: Creature)
        ensures
            r == strong_bear_at(pos, hp),
    {
        Creature {
            species: Species::StrongBear,
            pos,
            hp: HP::bear(hp),
            satiety: Satiety::strong_bear(),
            stamina: Stamina::strong_bear(),
            age: Age { val: 0 },
        }
    }

    pub fn weak_bear(pos: Position, hp: u64) -> (r: Creature)
        ensures
            r == weak_bear_at(pos, hp),
    {
        Creature {
            species: Species::WeakBear,
            pos,
            hp: HP::bear(hp),
            satiety: Satiety::weak_bear(),
            stamina: Stamina::weak_bear(),
            age: Age { val: HEALTHSPAN_STRONG_BEAR },
        }
    }

    pub fn fox(pos: Position) -> (r: Creature)
        ensures
            r == fox_at(pos),
    {
        Creature {
            species: Species::Fox,
            pos,
            hp: HP::fox(),
            satiety: Satiety::fox(),
            stamina: Stamina::fox(),
            age: Age { val: 0 },
        }
    }

    pub fn walnut(pos: Position) -> (r: Creature)
        ensures
            r == walnut_at(pos),
    {
        Creature {
            species: Species::Walnut,
            pos,
            hp: HP::walnut(),
            satiety: Satiety::walnut(),
            stamina: Stamina::walnut(),
            age: Age { val: 0 },
        }
    }

    /// A newborn of the same species as `self`, at `pos`.
    pub fn offspring(&self, pos: Position) -> (r: Creature)
        ensures
            r == newborn(self.species, pos),
    {
        match self.species {
            Species::Human => Creature::player(pos),
            Species::StrongBear => Creature::strong_bear(pos, MAX_HP_BEAR),
            Species::WeakBear => Creature::weak_bear(pos, MAX_HP_BEAR),
            Species::Fox => Creature::fox(pos),
            Species::Walnut => Creature::walnut(pos),
        }
    }
}

} // verus!
