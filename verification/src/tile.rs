//! What a cell of the board holds, and the dense hexagonal storage of cells.

use crate::hex::{hex_distance, HexPos};
use hexx::storage::HexagonalMap;
use vstd::prelude::*;

verus! {

/// The occupant of one cell.
#[derive(Clone, Copy, Debug, PartialEq, Eq, Structural)]
pub enum TileType {
    /// Nothing stands on the cell.
    Unoccupied,
    /// Terrain, named by the entity that stands for it.
    Terrain(u64),
    /// A heart, named by the entity that stands for it.
    Heart(u64),
    /// A node: `meta` is its kind in the registry, `e` its instance on the
    /// board.
    CyberNode { meta: usize, e: usize },
}

impl TileType {
    /// What it costs a walker to step onto a cell with this occupant.
    pub fn walk_cost(self) -> (c: u32)
        ensures
            c == match self {
                TileType::Unoccupied => 0u32,
                TileType::Heart(_) => 1u32,
                TileType::Terrain(_) => 10u32,
                TileType::CyberNode { .. } => 50u32,
            },
    {
        match self {
            TileType::Unoccupied => 0,
            TileType::Heart(_) => 1,
            TileType::Terrain(_) => 10,
            TileType::CyberNode { .. } => 50,
        }
    }
}

impl Default for TileType {
    fn default() -> (t: TileType)
        ensures
            t == TileType::Unoccupied,
    {
        TileType::Unoccupied
    }
}

#[verifier::external_type_specification]
#[verifier::external_body]
#[verifier::reject_recursive_types(T)]
pub struct ExHexagonalMap<T>(HexagonalMap<T>);

/// The cells that a storage holds, keyed by axial coordinates.
pub uninterp spec fn grid_cells(m: HexagonalMap<TileType>) -> Map<(int, int), TileType>;

/// The radius that a storage was made with.
pub uninterp spec fn grid_radius(m: HexagonalMap<TileType>) -> nat;

/// The cell that a storage was made around.
pub uninterp spec fn grid_center(m: HexagonalMap<TileType>) -> (int, int);

/// Whether `(x, y)` lies within `radius` steps of the origin.
pub open spec fn within(radius: nat, x: int, y: int) -> bool {
    hex_distance(0, 0, x, y) <= radius
}

/// Largest radius a board can have.
pub const MAX_RADIUS: u32 = 1024;

/// A storage centred on the origin with every cell unoccupied, made by
/// `HexagonalMap::new`, which calls the closure once for each cell within
/// `radius` of the centre.
#[verifier::external_body]
pub(crate) fn grid_new(radius: u32) -> (m: HexagonalMap<TileType>)
    requires
        radius <= MAX_RADIUS,
    ensures
        grid_radius(m) == radius,
        grid_center(m) == (0int, 0int),
        forall|x: int, y: int| #[trigger]
            grid_cells(m).contains_key((x, y)) <==> within(radius as nat, x, y),
        forall|x: int, y: int|
            within(radius as nat, x, y) ==> #[trigger] grid_cells(m)[(x, y)] == TileType::Unoccupied,
{
    HexagonalMap::new(hexx::Hex::ZERO, radius, |_| TileType::default())
}

/// `HexBounds::is_in_bounds` on the bounds of a storage around the origin:
/// whether the distance from the origin to `pos` is at most the radius.
#[verifier::external_body]
pub(crate) fn grid_contains(m: &HexagonalMap<TileType>, pos: HexPos) -> (b: bool)
    requires
        pos.in_range(),
        grid_center(*m) == (0int, 0int),
    ensures
        b == within(grid_radius(*m), pos.x as int, pos.y as int),
{
    m.bounds().is_in_bounds(hexx::Hex::new(pos.x, pos.y))
}

/// `HexagonalMap::get` on a storage around the origin, for a cell inside
/// the bounds, where it returns the value stored for that cell.
#[verifier::external_body]
pub(crate) fn grid_get(m: &HexagonalMap<TileType>, pos: HexPos) -> (t: Option<TileType>)
    requires
        pos.in_range(),
        grid_center(*m) == (0int, 0int),
        grid_radius(*m) <= MAX_RADIUS,
        within(grid_radius(*m), pos.x as int, pos.y as int),
    ensures
        t == Some(grid_cells(*m)[(pos.x as int, pos.y as int)]),
{
    m.get(hexx::Hex::new(pos.x, pos.y)).copied()
}

/// Assignment through `HexagonalMap::get_mut` on a storage around the
/// origin, for a cell inside the bounds: that cell takes the new value and
/// no other cell changes.
#[verifier::external_body]
pub(crate) fn grid_set(m: &mut HexagonalMap<TileType>, pos: HexPos, t: TileType)
    requires
        pos.in_range(),
        grid_center(*old(m)) == (0int, 0int),
        grid_radius(*old(m)) <= MAX_RADIUS,
        within(grid_radius(*old(m)), pos.x as int, pos.y as int),
    ensures
        grid_radius(*final(m)) == grid_radius(*old(m)),
        grid_center(*final(m)) == grid_center(*old(m)),
        grid_cells(*final(m)) == grid_cells(*old(m)).insert((pos.x as int, pos.y as int), t),
{
    if let Some(cell) = m.get_mut(hexx::Hex::new(pos.x, pos.y)) {
        *cell = t;
    }
}

} // verus!
