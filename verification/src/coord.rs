//! Cell coordinates and the integer key under which the grid stores each of them.

use vstd::prelude::*;

verus! {

/// A coordinate as the contracts speak of it: an unbounded `(x, y)` pair.
pub type Coord = (int, int);

/// The coordinate of one cell of the grid.
#[derive(Clone, Copy, Debug, PartialEq, Eq, Structural, Hash)]
pub struct Cell {
    pub x: i32,
    pub y: i32,
}

impl View for Cell {
    type V = Coord;

    open spec fn view(&self) -> Coord {
        (self.x as int, self.y as int)
    }
}

/// A rectangle of coordinates: `x_min <= x < x_max` and `y_min <= y < y_max`.
/// It is empty where a lower bound is not below its upper bound.
#[derive(Clone, Copy, Debug, PartialEq, Eq, Structural)]
pub struct Bounds {
    pub x_min: i32,
    pub x_max: i32,
    pub y_min: i32,
    pub y_max: i32,
}

impl Bounds {
    /// Whether `c` lies inside the rectangle.
    pub open spec fn contains(self, c: Coord) -> bool {
        self.x_min <= c.0 < self.x_max && self.y_min <= c.1 < self.y_max
    }

    /// Whether the cell at `(x, y)` lies inside the rectangle.
    pub fn includes(&self, x: i32, y: i32) -> (inside: bool)
        ensures
            inside == self.contains((x as int, y as int)),
    {
        self.x_min <= x && x < self.x_max && self.y_min <= y && y < self.y_max
    }
}

/// Whether both components of `c` fit the machine type of a coordinate.
pub open spec fn representable(c: Coord) -> bool {
    i32::MIN <= c.0 <= i32::MAX && i32::MIN <= c.1 <= i32::MAX
}

/// The number of values a single coordinate component can take.
pub open spec fn span() -> int {
    0x1_0000_0000
}

/// The key of `c`: both components shifted to start at zero, `x` in the upper half.
pub open spec fn key_of(c: Coord) -> int {
    (c.0 - i32::MIN) * span() + (c.1 - i32::MIN)
}

/// The coordinate that has key `k`.
pub open spec fn coord_of(k: int) -> Coord {
    (k / span() + i32::MIN, k % span() + i32::MIN)
}

/// Every representable coordinate has a key that fits 64 bits and leads back to it.
pub proof fn lemma_key_round_trip(c: Coord)
    requires
        representable(c),
    ensures
        0 <= key_of(c) <= u64::MAX,
        coord_of(key_of(c)) == c,
{
}

/// Every 64-bit key belongs to exactly one representable coordinate.
pub proof fn lemma_coord_round_trip(k: int)
    requires
        0 <= k <= u64::MAX,
    ensures
        representable(coord_of(k)),
        key_of(coord_of(k)) == k,
{
}

/// Two representable coordinates with the same key are the same coordinate.
pub proof fn lemma_key_injective(a: Coord, b: Coord)
    requires
        representable(a),
        representable(b),
        key_of(a) == key_of(b),
    ensures
        a == b,
{
    lemma_key_round_trip(a);
    lemma_key_round_trip(b);
}

/// Computes the key of the cell at `(x, y)`.
pub fn encode(x: i32, y: i32) -> (k: u64)
    ensures
        k == key_of((x as int, y as int)),
{
    let col: u64 = (x as i64 + 0x8000_0000i64) as u64;
    let row: u64 = (y as i64 + 0x8000_0000i64) as u64;
    col * 0x1_0000_0000u64 + row
}

/// Recovers the cell whose key is `k`.
pub fn decode(k: u64) -> (cell: Cell)
    ensures
        cell@ == coord_of(k as int),
        key_of(cell@) == k,
{
    let col: u64 = k / 0x1_0000_0000u64;
    let row: u64 = k % 0x1_0000_0000u64;
    Cell { x: (col as i64 - 0x8000_0000i64) as i32, y: (row as i64 - 0x8000_0000i64) as i32 }
}

} // verus!
