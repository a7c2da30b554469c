//! Terrain: the fixed set of cells an entity may stand on.

use vstd::prelude::*;
use crate::components::{Position, in_bounds};
use crate::consts::COORD_LIMIT;

verus! {

/// The terrain cells. They are laid down once and never change.
pub struct Field {
    pub cells: Vec<Position>,
}

impl Field {
    /// All cells lie within the coordinate bounds.
    pub open spec fn wf(&self) -> bool {
        forall|i: int| 0 <= i < self.cells@.len() ==> in_bounds(#[trigger] self.cells@[i])
    }

    /// `p` is a terrain cell.
    pub open spec fn contains(&self, p: Position) -> bool {
        self.cells@.contains(p)
    }

    /// A terrain made of the given cells; `None` when a cell lies outside
    /// the coordinate bounds.
    pub fn new(cells: Vec<Position>) -> (r: Option<Field>)
        ensures
            r matches Some(f) ==> f.cells@ == cells@ && f.wf(),
            r is None <==> exists|i: int| 0 <= i < cells@.len() && !in_bounds(#[trigger] cells@[i]),
    {
        let mut i: usize = 0;
        while i < cells.len()
            invariant
                i <= cells@.len(),
                forall|j: int| 0 <= j < i ==> in_bounds(#[trigger] cells@[j]),
            decreases cells@.len() - i,
        {
            let c = cells[i];
            if c.x < -COORD_LIMIT || c.x > COORD_LIMIT || c.y < -COORD_LIMIT || c.y > COORD_LIMIT {
                return None;
            }
            i = i + 1;
        }
        Some(Field { cells })
    }

    /// The rectangle of `width` by `height` cells whose lower left cell is
    /// `(left, bottom)`.
    pub fn rectangle(left: i32, bottom: i32, width: i32, height: i32) -> (r: Field)
        requires
            -COORD_LIMIT <= left,
            -COORD_LIMIT <= bottom,
            0 <= width,
            0 <= height,
            left + width <= COORD_LIMIT + 1,
            bottom + height <= COORD_LIMIT + 1,
        ensures
            r.wf(),
            forall|p: Position|
                r.contains(p) <==> (left <= p.x < left + width && bottom <= p.y < bottom + height),
    {
        let mut cells: Vec<Position> = Vec::new();
        let mut i: i32 = 0;
        while i < width
            invariant
                0 <= i <= width,
                -COORD_LIMIT <= left,
                -COORD_LIMIT <= bottom,
                0 <= height,
                left + width <= COORD_LIMIT + 1,
                bottom + height <= COORD_LIMIT + 1,
                forall|k: int| 0 <= k < cells@.len() ==> in_bounds(#[trigger] cells@[k]),
                forall|p: Position|
                    cells@.contains(p) <==> (left <= p.x < left + i && bottom <= p.y < bottom
                        + height),
            decreases width - i,
        {
            let mut j: i32 = 0;
            while j < height
                invariant
                    0 <= i < width,
                    0 <= j <= height,
                    -COORD_LIMIT <= left,
                    -COORD_LIMIT <= bottom,
                    left + width <= COORD_LIMIT + 1,
                    bottom + height <= COORD_LIMIT + 1,
                    forall|k: int| 0 <= k < cells@.len() ==> in_bounds(#[trigger] cells@[k]),
                    forall|p: Position|
                        cells@.contains(p) <==> ((left <= p.x < left + i && bottom <= p.y < bottom
                            + height) || (p.x == left + i && bottom <= p.y < bottom + j)),
                decreases height - j,
            {
                let c = Position { x: left + i, y: bottom + j };
                let ghost before = cells@;
                cells.push(c);
                assert forall|p: Position|
                    cells@.contains(p) <==> ((left <= p.x < left + i && bottom <= p.y < bottom
                        + height) || (p.x == left + i && bottom <= p.y < bottom + j + 1)) by {
                    if p == c {
                        assert(cells@[before.len() as int] == p);
                    }
                    if cells@.contains(p) && p != c {
                        let k = choose|k: int| 0 <= k < cells@.len() && cells@[k] == p;
                        assert(before[k] == p);
                    }
                    if before.contains(p) {
                        let k = choose|k: int| 0 <= k < before.len() && before[k] == p;
                        assert(cells@[k] == p);
                    }
                }
                j = j + 1;
            }
            i = i + 1;
        }
        Field { cells }
    }

    /// Whether `(x, y)` is a terrain cell.
    pub fn reachable(&self, x: i32, y: i32) -> (r: bool)
        ensures
            r == self.contains(Position { x, y }),
    {
        let mut i: usize = 0;
        while i < self.cells.len()
            invariant
                i <= self.cells@.len(),
                forall|j: int| 0 <= j < i ==> self.cells@[j] != (Position { x, y }),
            decreases self.cells@.len() - i,
        {
            let c = self.cells[i];
            if c.x == x && c.y == y {
                assert(self.cells@[i as int] == Position { x, y });
                return true;
            }
            i = i + 1;
        }
        false
    }
}

} // verus!
