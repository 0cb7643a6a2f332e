//! The board: the cells of the grid, the nodes placed on them and the
//! registry their kinds come from.

use crate::hex::{hex_all_neighbors, Direction, HexPos};
use crate::node::{CyberState, MetaLink, NodeBundle, StateView};
use crate::registry::Registry;
use crate::tile::{
    grid_cells, grid_center, grid_contains, grid_get, grid_new, grid_radius, grid_set, within,
    TileType, MAX_RADIUS,
};
use hexx::storage::HexagonalMap;
use vstd::prelude::*;

verus! {

/// A request to place a node of kind `item` on the cell `tile`.
#[derive(Clone, Copy, Debug)]
pub struct PickedItem {
    pub item: usize,
    pub tile: HexPos,
}

/// The grid and everything placed on it.
pub struct Board {
    pub storage: HexagonalMap<TileType>,
    pub nodes: Vec<NodeBundle>,
    pub registry: Registry,
}

impl Board {
    /// The occupant of every cell of the board.
    pub open spec fn cells(&self) -> Map<(int, int), TileType> {
        grid_cells(self.storage)
    }

    /// The radius of the board.
    pub open spec fn radius(&self) -> nat {
        grid_radius(self.storage)
    }

    /// Whether `pos` is a cell of the board.
    pub open spec fn on_board(&self, pos: HexPos) -> bool {
        within(self.radius(), pos.x as int, pos.y as int)
    }

    /// The occupant of `pos`, or `None` off the board.
    pub open spec fn tile_at(&self, pos: HexPos) -> Option<TileType> {
        if self.on_board(pos) {
            Some(self.cells()[(pos.x as int, pos.y as int)])
        } else {
            None
        }
    }

    /// The node that stands on `pos`, if one does.
    pub open spec fn node_on(&self, pos: HexPos) -> Option<usize> {
        match self.tile_at(pos) {
            Some(TileType::CyberNode { meta, e }) => Some(e),
            _ => None,
        }
    }

    /// Whether node `i` stands on the board, on the cell it names.
    pub open spec fn placed(&self, i: int) -> bool {
        0 <= i < self.nodes.len() && self.node_on(self.nodes[i].pos) == Some(i as usize)
    }

    /// The state of node `i`.
    pub open spec fn state(&self, i: int) -> StateView {
        self.nodes[i].state@
    }

    /// Whether node `i` is sound by itself: its wiring is well formed and
    /// names ports of the registry, its kind is in the registry and its
    /// cell is on the board.
    pub open spec fn node_wf(&self, i: int) -> bool {
        let n = self.nodes[i];
        &&& n.cfg.wf()
        &&& n.meta.0 < self.registry.items.len()
        &&& self.on_board(n.pos)
        &&& forall|d: int|
            0 <= d < 6 ==> (#[trigger] n.cfg.bound(d) matches Some(p) ==> p
                < self.registry.ports.len())
    }

    /// The invariant of a board: the storage lies around the origin and
    /// covers exactly the cells within its radius, every node is sound, and
    /// a cell that holds a node names a node that stands there.
    pub open spec fn wf(&self) -> bool {
        &&& self.radius() <= MAX_RADIUS
        &&& grid_center(self.storage) == (0int, 0int)
        &&& self.registry.wf()
        &&& forall|x: int, y: int| #[trigger]
            self.cells().contains_key((x, y)) <==> within(self.radius(), x, y)
        &&& forall|i: int| 0 <= i < self.nodes.len() ==> #[trigger] self.node_wf(i)
        &&& forall|x: int, y: int|
            within(self.radius(), x, y) ==> (#[trigger] self.cells()[(x, y)] matches TileType::CyberNode {
                meta,
                e,
            } ==> e < self.nodes.len() && self.nodes[e as int].pos.x == x
                && self.nodes[e as int].pos.y == y && self.nodes[e as int].meta.0 == meta)
    }

    /// Whether `other` has the same cells and the same nodes as `self` but
    /// for the nodes' states and charges.
    pub open spec fn same_layout(&self, other: &Board) -> bool {
        &&& self.storage == other.storage
        &&& self.registry == other.registry
        &&& self.nodes.len() == other.nodes.len()
        &&& forall|i: int|
            0 <= i < self.nodes.len() ==> (#[trigger] self.nodes[i]).meta == other.nodes[i].meta
                && self.nodes[i].cfg == other.nodes[i].cfg && self.nodes[i].pos
                == other.nodes[i].pos
    }

    /// An empty board of the given radius around the origin, or `None`
    /// when the radius is above [`MAX_RADIUS`].
    pub fn new(radius: u32, registry: Registry) -> (b: Option<Board>)
        requires
            registry.wf(),
        ensures
            b.is_some() <==> radius <= MAX_RADIUS,
            b matches Some(board) ==> board.wf() && board.radius() == radius
                && board.nodes.len() == 0 && board.registry == registry && forall|
                x: int,
                y: int,
            |
                within(radius as nat, x, y) ==> #[trigger] board.cells()[(x, y)]
                    == TileType::Unoccupied,
    {
        if radius > MAX_RADIUS {
            return None;
        }
        Some(Board { storage: grid_new(radius), nodes: Vec::new(), registry })
    }

    /// The occupant of `pos`, or `None` off the board.
    pub fn tile(&self, pos: HexPos) -> (t: Option<TileType>)
        requires
            self.wf(),
        ensures
            t == self.tile_at(pos),
    {
        if !pos.is_in_range() {
            proof {
                lemma_within_in_range(self.radius(), pos);
            }
            return None;
        }
        if grid_contains(&self.storage, pos) {
            grid_get(&self.storage, pos)
        } else {
            None
        }
    }

    /// The node that stands on `pos`, if one does.
    pub fn node_at(&self, pos: HexPos) -> (n: Option<usize>)
        requires
            self.wf(),
        ensures
            n == self.node_on(pos),
            n matches Some(i) ==> i < self.nodes.len() && self.nodes[i as int].pos == pos,
    {
        match self.tile(pos) {
            Some(TileType::CyberNode { meta, e }) => Some(e),
            _ => None,
        }
    }

    /// The node next to node `i` in direction `dir`, if one stands there.
    pub fn neighbor_node(&self, i: usize, dir: Direction) -> (n: Option<usize>)
        requires
            self.wf(),
            i < self.nodes.len(),
        ensures
            n == self.node_on(self.nodes[i as int].pos.step(dir.spec_index())),
            n matches Some(j) ==> j < self.nodes.len(),
    {
        proof {
            assert(self.node_wf(i as int));
            lemma_within_in_range(self.radius(), self.nodes[i as int].pos);
        }
        let cell = self.nodes[i].pos.neighbor(dir);
        self.node_at(cell)
    }

    /// Puts `t` on the cell `pos` if that cell is on the board and
    /// unoccupied, and says whether it did.
    pub fn occupy(&mut self, pos: HexPos, t: TileType) -> (done: bool)
        requires
            old(self).wf(),
            !(t is CyberNode),
        ensures
            final(self).wf(),
            final(self).nodes == old(self).nodes,
            final(self).registry == old(self).registry,
            final(self).radius() == old(self).radius(),
            done == (old(self).tile_at(pos) == Some(TileType::Unoccupied)),
            done ==> final(self).cells() == old(self).cells().insert(
                (pos.x as int, pos.y as int),
                t,
            ),
            !done ==> final(self).cells() == old(self).cells(),
    {
        match self.tile(pos) {
            Some(TileType::Unoccupied) => {
                proof {
                    lemma_within_in_range(self.radius(), pos);
                }
                grid_set(&mut self.storage, pos, t);
                proof {
                    assert forall|i: int| 0 <= i < self.nodes.len() implies #[trigger] self.node_wf(
                        i,
                    ) by {
                        assert(old(self).node_wf(i));
                    }
                }
                true
            },
            _ => false,
        }
    }

    /// Whether a new node can lean on what stands on `cell`: a heart, or
    /// a node that is not disabled.
    pub open spec fn anchors(&self, cell: HexPos) -> bool {
        match self.tile_at(cell) {
            Some(TileType::Heart(_)) => true,
            Some(TileType::CyberNode { meta, e }) => self.state(e as int) != StateView::Disabled,
            _ => false,
        }
    }

    /// Whether a node may be bought for `tile`: the cell is on the board
    /// and unoccupied, and next to it stands a heart or a node that is
    /// not disabled.
    pub open spec fn buyable(&self, tile: HexPos) -> bool {
        self.tile_at(tile) == Some(TileType::Unoccupied) && exists|d: int|
            0 <= d < 6 && #[trigger] self.anchors(tile.step(d))
    }

    /// Whether a node may be bought for `tile`.
    pub fn open_shop(&self, tile: HexPos) -> (b: bool)
        requires
            self.wf(),
        ensures
            b == self.buyable(tile),
    {
        match self.tile(tile) {
            Some(TileType::Unoccupied) => {},
            _ => {
                return false;
            },
        }
        proof {
            lemma_within_in_range(self.radius(), tile);
        }
        let around = hex_all_neighbors(tile);
        let mut d: usize = 0;
        while d < 6
            invariant
                d <= 6,
                self.wf(),
                self.tile_at(tile) == Some(TileType::Unoccupied),
                forall|k: int| 0 <= k < 6 ==> #[trigger] around[k] == tile.step(k),
                forall|k: int| 0 <= k < d ==> !#[trigger] self.anchors(tile.step(k)),
            decreases 6 - d,
        {
            let anchored = match self.tile(around[d]) {
                Some(TileType::Heart(_)) => true,
                Some(TileType::CyberNode { meta, e }) => !self.nodes[e].state.is_disabled(),
                _ => false,
            };
            if anchored {
                assert(self.anchors(tile.step(d as int)));
                return true;
            }
            d += 1;
        }
        false
    }

    /// Places a node of the picked kind on the picked cell and returns its
    /// index. The node starts idle and unwired. Nothing is placed, and
    /// `None` returned, when the cell is off the board or occupied or the
    /// registry has no such kind.
    pub fn tile_purchased(&mut self, picked: PickedItem) -> (placed: Option<usize>)
        requires
            old(self).wf(),
        ensures
            final(self).wf(),
            final(self).registry == old(self).registry,
            final(self).radius() == old(self).radius(),
            placed.is_some() <==> old(self).tile_at(picked.tile) == Some(TileType::Unoccupied)
                && picked.item < old(self).registry.items.len(),
            placed.is_none() ==> final(self).cells() == old(self).cells() && final(self).nodes
                == old(self).nodes,
            placed matches Some(i) ==> {
                &&& i == old(self).nodes.len()
                &&& final(self).placed(i as int)
                &&& final(self).nodes.len() == i + 1
                &&& forall|k: int| 0 <= k < i ==> #[trigger] final(self).nodes[k] == old(self).nodes[k]
                &&& final(self).nodes[i as int].meta == MetaLink(picked.item)
                &&& final(self).nodes[i as int].pos == picked.tile
                &&& final(self).nodes[i as int].cfg.unwired()
                &&& final(self).nodes[i as int].cfg.constant.is_none()
                &&& final(self).nodes[i as int].charge == 0
                &&& final(self).state(i as int) == StateView::Idle
                &&& final(self).cells() == old(self).cells().insert(
                    (picked.tile.x as int, picked.tile.y as int),
                    TileType::CyberNode { meta: picked.item, e: i },
                )
            },
    {
        if picked.item >= self.registry.items.len() {
            return None;
        }
        match self.tile(picked.tile) {
            Some(TileType::Unoccupied) => {
                proof {
                    lemma_within_in_range(self.radius(), picked.tile);
                }
                let i = self.nodes.len();
                self.nodes.push(NodeBundle::new(MetaLink(picked.item), picked.tile));
                grid_set(
                    &mut self.storage,
                    picked.tile,
                    TileType::CyberNode { meta: picked.item, e: i },
                );
                proof {
                    assert forall|k: int| 0 <= k < self.nodes.len() implies #[trigger] self.node_wf(
                        k,
                    ) by {
                        if k < i {
                            assert(old(self).node_wf(k));
                            assert(self.nodes[k] == old(self).nodes[k]);
                        }
                    }
                }
                Some(i)
            },
            _ => None,
        }
    }

    /// Clears the cell `pos` and returns what stood on it, or `None` off
    /// the board. A node that stood there is disabled and stands on the
    /// board no more.
    pub fn remove_node(&mut self, pos: HexPos) -> (was: Option<TileType>)
        requires
            old(self).wf(),
        ensures
            final(self).wf(),
            final(self).registry == old(self).registry,
            final(self).radius() == old(self).radius(),
            was == old(self).tile_at(pos),
            was.is_none() ==> final(self).cells() == old(self).cells() && final(self).nodes
                == old(self).nodes,
            was.is_some() ==> final(self).cells() == old(self).cells().insert(
                (pos.x as int, pos.y as int),
                TileType::Unoccupied,
            ),
            final(self).nodes.len() == old(self).nodes.len(),
            old(self).node_on(pos) matches Some(i) ==> !final(self).placed(i as int),
            forall|i: int|
                0 <= i < old(self).nodes.len() ==> {
                    &&& (#[trigger] final(self).nodes[i]).meta == old(self).nodes[i].meta
                    &&& final(self).nodes[i].cfg == old(self).nodes[i].cfg
                    &&& final(self).nodes[i].pos == old(self).nodes[i].pos
                    &&& final(self).nodes[i].charge == old(self).nodes[i].charge
                    &&& final(self).state(i) == if old(self).node_on(pos) == Some(i as usize) {
                        StateView::Disabled
                    } else {
                        old(self).state(i)
                    }
                },
    {
        let was = self.tile(pos);
        match was {
            None => None,
            Some(t) => {
                proof {
                    lemma_within_in_range(self.radius(), pos);
                }
                if let TileType::CyberNode { meta, e } = t {
                    self.nodes[e].state = CyberState::Disabled;
                }
                grid_set(&mut self.storage, pos, TileType::Unoccupied);
                proof {
                    assert forall|k: int| 0 <= k < self.nodes.len() implies #[trigger] self.node_wf(
                        k,
                    ) by {
                        assert(old(self).node_wf(k));
                    }
                }
                was
            },
        }
    }
}

/// A board that differs from a well-formed one in states and charges only
/// is well formed.
pub proof fn lemma_layout_keeps_wf(a: &Board, b: &Board)
    requires
        a.wf(),
        b.same_layout(a),
    ensures
        b.wf(),
{
    assert forall|i: int| 0 <= i < b.nodes.len() implies #[trigger] b.node_wf(i) by {
        assert(a.node_wf(i));
    }
}

/// A cell within the radius of a board has coordinates in range.
pub proof fn lemma_within_in_range(radius: nat, pos: HexPos)
    requires
        radius <= MAX_RADIUS,
    ensures
        within(radius, pos.x as int, pos.y as int) ==> pos.in_range(),
        within(radius, pos.x as int, pos.y as int) ==> -(radius as int) <= pos.x <= radius && -(
        radius as int) <= pos.y <= radius,
{
}

} // verus!
