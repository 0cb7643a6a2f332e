//! Axial hexagonal coordinates and the six edge directions.

use vstd::prelude::*;

verus! {

/// Largest coordinate magnitude that every operation of this module accepts
/// without leaving the range of `i32`.
pub const COORD_LIMIT: i32 = 0x1fff_ffff;

/// A cell of the hexagonal grid, in axial coordinates.
#[derive(Clone, Copy, Debug, PartialEq, Eq, Structural)]
pub struct HexPos {
    pub x: i32,
    pub y: i32,
}

/// One of the six edges of a cell, in clockwise order starting at `(1, 0)`.
#[derive(Clone, Copy, Debug, PartialEq, Eq, Structural)]
pub enum Direction {
    BottomRight,
    Bottom,
    BottomLeft,
    TopLeft,
    Top,
    TopRight,
}

/// The coordinate offset of the `i`-th edge direction.
pub open spec fn offset_of(i: int) -> (int, int) {
    if i == 0 {
        (1, 0)
    } else if i == 1 {
        (0, 1)
    } else if i == 2 {
        (-1, 1)
    } else if i == 3 {
        (-1, 0)
    } else if i == 4 {
        (0, -1)
    } else {
        (1, -1)
    }
}

/// Absolute value of an integer.
pub open spec fn abs(v: int) -> int {
    if v < 0 {
        -v
    } else {
        v
    }
}

/// Distance between two cells, counted in steps over shared edges.
pub open spec fn hex_distance(ax: int, ay: int, bx: int, by: int) -> int {
    let dx = abs(ax - bx);
    let dy = abs(ay - by);
    let dz = abs(-(ax - bx) - (ay - by));
    if dx >= dy && dx >= dz {
        dx
    } else if dy >= dx && dy >= dz {
        dy
    } else {
        dz
    }
}

impl Direction {
    /// Position of the direction in clockwise order, from 0 to 5.
    pub open spec fn spec_index(self) -> int {
        match self {
            Direction::BottomRight => 0,
            Direction::Bottom => 1,
            Direction::BottomLeft => 2,
            Direction::TopLeft => 3,
            Direction::Top => 4,
            Direction::TopRight => 5,
        }
    }

    /// Position of the direction in clockwise order, from 0 to 5.
    pub fn index(self) -> (i: usize)
        ensures
            i == self.spec_index(),
            i < 6,
    {
        match self {
            Direction::BottomRight => 0,
            Direction::Bottom => 1,
            Direction::BottomLeft => 2,
            Direction::TopLeft => 3,
            Direction::Top => 4,
            Direction::TopRight => 5,
        }
    }

    /// The direction at position `i`, if `i` is below six.
    pub fn from_index(i: usize) -> (d: Option<Direction>)
        ensures
            i < 6 <==> d.is_some(),
            d matches Some(dir) ==> dir.spec_index() == i,
    {
        if i == 0 {
            Some(Direction::BottomRight)
        } else if i == 1 {
            Some(Direction::Bottom)
        } else if i == 2 {
            Some(Direction::BottomLeft)
        } else if i == 3 {
            Some(Direction::TopLeft)
        } else if i == 4 {
            Some(Direction::Top)
        } else if i == 5 {
            Some(Direction::TopRight)
        } else {
            None
        }
    }

    /// The offset that leads from a cell to its neighbour in this direction.
    pub fn offset(self) -> (o: HexPos)
        ensures
            (o.x as int, o.y as int) == offset_of(self.spec_index()),
    {
        match self {
            Direction::BottomRight => HexPos { x: 1, y: 0 },
            Direction::Bottom => HexPos { x: 0, y: 1 },
            Direction::BottomLeft => HexPos { x: -1, y: 1 },
            Direction::TopLeft => HexPos { x: -1, y: 0 },
            Direction::Top => HexPos { x: 0, y: -1 },
            Direction::TopRight => HexPos { x: 1, y: -1 },
        }
    }
}

impl HexPos {
    /// The cell with the given axial coordinates.
    pub fn new(x: i32, y: i32) -> (p: HexPos)
        ensures
            p.x == x,
            p.y == y,
    {
        HexPos { x, y }
    }

    /// Whether both coordinates are small enough for sums and distances to
    /// stay within `i32`.
    pub open spec fn in_range(self) -> bool {
        -COORD_LIMIT <= self.x <= COORD_LIMIT && -COORD_LIMIT <= self.y <= COORD_LIMIT
    }

    /// Executable form of [`HexPos::in_range`].
    pub fn is_in_range(self) -> (b: bool)
        ensures
            b == self.in_range(),
    {
        -COORD_LIMIT <= self.x && self.x <= COORD_LIMIT && -COORD_LIMIT <= self.y && self.y
            <= COORD_LIMIT
    }

    /// The cell reached from `self` by one step in direction `i`.
    pub open spec fn step(self, i: int) -> HexPos {
        HexPos {
            x: (self.x + offset_of(i).0) as i32,
            y: (self.y + offset_of(i).1) as i32,
        }
    }
}

/// Sum of two coordinates, computed by `hexx`'s `Add` on `Hex`, which adds
/// the two components separately with plain `i32` addition.
#[verifier::external_body]
pub(crate) fn hex_add(a: HexPos, b: HexPos) -> (r: HexPos)
    requires
        i32::MIN <= a.x + b.x <= i32::MAX,
        i32::MIN <= a.y + b.y <= i32::MAX,
    ensures
        r.x == a.x + b.x,
        r.y == a.y + b.y,
{
    let h = hexx::Hex::new(a.x, a.y) + hexx::Hex::new(b.x, b.y);
    HexPos { x: h.x, y: h.y }
}

/// The six neighbours of a cell as `hexx::Hex::all_neighbors` lists them:
/// the cell plus each entry of `Hex::NEIGHBORS_COORDS`, in that order.
#[verifier::external_body]
pub(crate) fn hex_all_neighbors(a: HexPos) -> (r: [HexPos; 6])
    requires
        i32::MIN < a.x < i32::MAX,
        i32::MIN < a.y < i32::MAX,
    ensures
        forall|i: int| 0 <= i < 6 ==> #[trigger] r[i] == a.step(i),
{
    hexx::Hex::new(a.x, a.y).all_neighbors().map(|h| HexPos { x: h.x, y: h.y })
}

/// Distance between two cells as `hexx::Hex::distance_to` computes it: the
/// largest absolute value among the differences of the two axial
/// coordinates and of the third cubic coordinate.
#[verifier::external_body]
pub(crate) fn hex_distance_to(a: HexPos, b: HexPos) -> (d: i32)
    requires
        a.in_range(),
        b.in_range(),
    ensures
        d == hex_distance(a.x as int, a.y as int, b.x as int, b.y as int),
{
    hexx::Hex::new(a.x, a.y).distance_to(hexx::Hex::new(b.x, b.y))
}

/// The position, in clockwise order, of the first direction in which `b`
/// is the neighbour of `a`, as `hexx::Hex::neighbor_direction` finds it by
/// trying the six directions in that order.
#[verifier::external_body]
pub(crate) fn hex_neighbor_direction(a: HexPos, b: HexPos) -> (r: Option<usize>)
    requires
        i32::MIN < a.x < i32::MAX,
        i32::MIN < a.y < i32::MAX,
    ensures
        r matches Some(i) ==> i < 6 && b == a.step(i as int),
        r.is_none() ==> forall|i: int| 0 <= i < 6 ==> b != #[trigger] a.step(i),
{
    hexx::Hex::new(a.x, a.y).neighbor_direction(hexx::Hex::new(b.x, b.y)).map(
        |d| d.index() as usize,
    )
}

impl HexPos {
    /// The direction in which `other` is the neighbour of `self`, or
    /// `None` when the two share no edge or `self` lies at the very rim of
    /// the coordinate space.
    pub fn direction_to(self, other: HexPos) -> (d: Option<Direction>)
        ensures
            d.is_some() <==> i32::MIN < self.x < i32::MAX && i32::MIN < self.y < i32::MAX
                && exists|i: int| 0 <= i < 6 && other == #[trigger] self.step(i),
            d matches Some(dir) ==> other == self.step(dir.spec_index()),
    {
        if self.x == i32::MIN || self.x == i32::MAX || self.y == i32::MIN || self.y == i32::MAX {
            return None;
        }
        match hex_neighbor_direction(self, other) {
            Some(i) => Direction::from_index(i),
            None => None,
        }
    }

    /// The neighbour of `self` in direction `dir`.
    pub fn neighbor(self, dir: Direction) -> (r: HexPos)
        requires
            i32::MIN < self.x < i32::MAX,
            i32::MIN < self.y < i32::MAX,
        ensures
            r == self.step(dir.spec_index()),
    {
        hex_add(self, dir.offset())
    }

    /// Number of steps between `self` and `other`; `None` when either lies
    /// outside the coordinate range this module computes in.
    pub fn distance_to(self, other: HexPos) -> (d: Option<i32>)
        ensures
            d.is_some() <==> self.in_range() && other.in_range(),
            d matches Some(v) ==> v == hex_distance(
                self.x as int,
                self.y as int,
                other.x as int,
                other.y as int,
            ),
    {
        if self.is_in_range() && other.is_in_range() {
            Some(hex_distance_to(self, other))
        } else {
            None
        }
    }
}

} // verus!
