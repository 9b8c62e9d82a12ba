use vstd::prelude::*;

verus! {

/// A hexagon on the map in axial coordinates.
#[derive(Clone, Copy, Debug, PartialEq, Eq, Structural)]
pub struct Position {
    pub q: i32,
    pub r: i32,
}

/// The absolute value of an integer.
pub open spec fn abs(x: int) -> int {
    if x < 0 { -x } else { x }
}

/// The number of steps between two hexagons.
pub open spec fn hex_distance(a: Position, b: Position) -> int {
    let dq = a.q - b.q;
    let dr = a.r - b.r;
    (abs(dq) + abs(dr) + abs(dq + dr)) / 2
}

/// A position whose neighbors all have coordinates within `i32`.
pub open spec fn has_neighbors_in_range(p: Position) -> bool {
    i32::MIN < p.q < i32::MAX && i32::MIN < p.r < i32::MAX
}

/// The six adjacent positions, in the order `neighbors` lists them.
pub open spec fn spec_neighbors(p: Position) -> Seq<Position> {
    seq![
        Position { q: p.q, r: (p.r - 1) as i32 },
        Position { q: (p.q + 1) as i32, r: (p.r - 1) as i32 },
        Position { q: (p.q + 1) as i32, r: p.r },
        Position { q: p.q, r: (p.r + 1) as i32 },
        Position { q: (p.q - 1) as i32, r: (p.r + 1) as i32 },
        Position { q: (p.q - 1) as i32, r: p.r },
    ]
}

/// The order of positions: by `q`, then by `r`.
pub open spec fn position_le(a: Position, b: Position) -> bool {
    a.q < b.q || (a.q == b.q && a.r <= b.r)
}

impl Position {
    pub fn new(q: i32, r: i32) -> (p: Position)
        ensures
            p == (Position { q, r }),
    {
        Position { q, r }
    }

    /// The number of steps between `self` and `other`.
    pub fn distance(&self, other: Position) -> (d: u64)
        ensures
            d == hex_distance(*self, other),
    {
        let dq: i64 = self.q as i64 - other.q as i64;
        let dr: i64 = self.r as i64 - other.r as i64;
        let s: i64 = dq + dr;
        let a: i64 = if dq < 0 { -dq } else { dq };
        let b: i64 = if dr < 0 { -dr } else { dr };
        let c: i64 = if s < 0 { -s } else { s };
        ((a + b + c) / 2) as u64
    }

    pub fn is_neighbor(&self, other: Position) -> (r: bool)
        ensures
            r == (hex_distance(*self, other) == 1),
    {
        self.distance(other) == 1
    }

    /// The six adjacent positions.
    pub fn neighbors(&self) -> (v: Vec<Position>)
        requires
            has_neighbors_in_range(*self),
        ensures
            v@ == spec_neighbors(*self),
            v@.len() == 6,
            forall|i: int| 0 <= i < 6 ==> hex_distance(*self, #[trigger] v@[i]) == 1,
            forall|i: int, j: int| 0 <= i < j < 6 ==> v@[i] != v@[j],
    {
        let q = self.q;
        let r = self.r;
        vec![
            Position::new(q, r - 1),
            Position::new(q + 1, r - 1),
            Position::new(q + 1, r),
            Position::new(q, r + 1),
            Position::new(q - 1, r + 1),
            Position::new(q - 1, r),
        ]
    }

    /// Whether `self` comes no later than `other` in the order of positions.
    pub fn not_after(&self, other: &Position) -> (r: bool)
        ensures
            r == position_le(*self, *other),
    {
        self.q < other.q || (self.q == other.q && self.r <= other.r)
    }
}

/// Distance is symmetric.
pub proof fn lemma_distance_symmetric(a: Position, b: Position)
    ensures
        hex_distance(a, b) == hex_distance(b, a),
{
}

/// A position has distance zero only to itself.
pub proof fn lemma_distance_zero(a: Position, b: Position)
    ensures
        (hex_distance(a, b) == 0) == (a == b),
{
}

} // verus!
