//! How a node reads its inputs: from a port's name to the neighbour wired
//! to it and to the value that neighbour holds.

use crate::board::Board;
use crate::hex::Direction;
use crate::node::StateView;
use crate::value::{CyberError, Val, ValView};
use vstd::prelude::*;

verus! {

/// The one value of a resolved input, or nothing for an input that is not
/// resolved.
pub open spec fn present(data: Result<ValView, CyberError>) -> Seq<ValView> {
    match data {
        Ok(v) => seq![v],
        Err(_) => Seq::empty(),
    }
}

impl Board {
    /// Whether direction `d` of node `i` is wired to a port called `name`.
    pub open spec fn named(&self, i: int, d: int, name: Seq<char>) -> bool {
        self.nodes[i].cfg.bound(d) matches Some(p) && self.registry.ports[p as int].name@ == name
    }

    /// The first direction from `d` on that node `i` wired to a port
    /// called `name`.
    pub open spec fn port_direction(&self, i: int, name: Seq<char>, d: int) -> Option<int>
        decreases 6 - d,
    {
        if d < 0 || d >= 6 {
            None
        } else if self.named(i, d, name) {
            Some(d)
        } else {
            self.port_direction(i, name, d + 1)
        }
    }

    /// The node that feeds the port `name` of node `i`: the neighbour in
    /// the direction wired to that port, if the port is wired and a node
    /// stands there.
    pub open spec fn port_node(&self, i: int, name: Seq<char>) -> Option<usize> {
        match self.port_direction(i, name, 0) {
            Some(d) => self.node_on(self.nodes[i].pos.step(d)),
            None => None,
        }
    }

    /// The value that the port `name` of node `i` receives, or why it
    /// receives none.
    pub open spec fn port_data(&self, i: int, name: Seq<char>) -> Result<ValView, CyberError> {
        match self.port_direction(i, name, 0) {
            None => Err(CyberError::UnconfiguredPort),
            Some(d) => match self.node_on(self.nodes[i].pos.step(d)) {
                None => Err(CyberError::UnresolvedNeighbor),
                Some(j) => match self.state(j as int) {
                    StateView::Done(Ok(v)) => Ok(v),
                    _ => Err(CyberError::UpstreamNotDone),
                },
            },
        }
    }

    /// The values that the ports "a" to "e" of node `i` receive, in that
    /// order; a port that receives none is passed over.
    pub open spec fn slot_data(&self, i: int) -> Seq<ValView> {
        present(self.port_data(i, "a"@)) + present(self.port_data(i, "b"@)) + present(
            self.port_data(i, "c"@),
        ) + present(self.port_data(i, "d"@)) + present(self.port_data(i, "e"@))
    }

    /// The direction that node `i` wired to a port called `name`, the
    /// first in clockwise order if there are several.
    pub fn port_side(&self, i: usize, name: &str) -> (r: Option<Direction>)
        requires
            self.wf(),
            i < self.nodes.len(),
        ensures
            r.is_some() == self.port_direction(i as int, name@, 0).is_some(),
            r matches Some(dir) ==> self.port_direction(i as int, name@, 0) == Some(
                dir.spec_index(),
            ),
    {
        let mut d: usize = 0;
        while d < 6
            invariant
                d <= 6,
                self.wf(),
                i < self.nodes.len(),
                self.port_direction(i as int, name@, 0) == self.port_direction(
                    i as int,
                    name@,
                    d as int,
                ),
            decreases 6 - d,
        {
            proof {
                assert(self.node_wf(i as int));
            }
            let dir = Direction::from_index(d).unwrap();
            let hit = match self.nodes[i].cfg.input(dir) {
                Some(p) => self.registry.ports[p].is_named(name),
                None => false,
            };
            if hit {
                return Some(dir);
            }
            d += 1;
        }
        None
    }

    /// The node that feeds the port `name` of node `i`.
    pub fn port_by_name(&self, i: usize, name: &str) -> (r: Option<usize>)
        requires
            self.wf(),
            i < self.nodes.len(),
        ensures
            r == self.port_node(i as int, name@),
            r matches Some(j) ==> j < self.nodes.len(),
    {
        match self.port_side(i, name) {
            Some(dir) => self.neighbor_node(i, dir),
            None => None,
        }
    }

    /// A copy of the value that the port `name` of node `i` receives, or
    /// why it receives none: the port is not wired, no node stands in the
    /// wired direction, or that node holds no value.
    pub fn fetch_port_data(&self, i: usize, name: &str) -> (r: Result<Val, CyberError>)
        requires
            self.wf(),
            i < self.nodes.len(),
        ensures
            r matches Ok(v) ==> self.port_data(i as int, name@) == Ok::<ValView, CyberError>(v@),
            r matches Err(e) ==> self.port_data(i as int, name@) == Err::<ValView, CyberError>(e),
    {
        match self.port_side(i, name) {
            None => Err(CyberError::UnconfiguredPort),
            Some(dir) => match self.neighbor_node(i, dir) {
                None => Err(CyberError::UnresolvedNeighbor),
                Some(j) => match self.nodes[j].state.value() {
                    Some(v) => Ok(v),
                    None => Err(CyberError::UpstreamNotDone),
                },
            },
        }
    }

    /// Copies of the values that the ports "a" to "e" of node `i`
    /// receive, in that order; a port that receives none is passed over.
    pub fn slot_values(&self, i: usize) -> (vals: Vec<Val>)
        requires
            self.wf(),
            i < self.nodes.len(),
        ensures
            crate::value::views_of(vals@) == self.slot_data(i as int),
    {
        let mut vals: Vec<Val> = Vec::new();
        assert(crate::value::views_of(vals@) =~= Seq::<ValView>::empty());
        let r = self.fetch_port_data(i, "a");
        self.take_slot(&mut vals, r, Ghost(self.port_data(i as int, "a"@)));
        let r = self.fetch_port_data(i, "b");
        self.take_slot(&mut vals, r, Ghost(self.port_data(i as int, "b"@)));
        let r = self.fetch_port_data(i, "c");
        self.take_slot(&mut vals, r, Ghost(self.port_data(i as int, "c"@)));
        let r = self.fetch_port_data(i, "d");
        self.take_slot(&mut vals, r, Ghost(self.port_data(i as int, "d"@)));
        let r = self.fetch_port_data(i, "e");
        self.take_slot(&mut vals, r, Ghost(self.port_data(i as int, "e"@)));
        assert(Seq::<ValView>::empty() + present(self.port_data(i as int, "a"@)) =~= present(
            self.port_data(i as int, "a"@),
        ));
        vals
    }

    /// Appends the value of a resolved input to `vals`.
    fn take_slot(
        &self,
        vals: &mut Vec<Val>,
        r: Result<Val, CyberError>,
        Ghost(data): Ghost<Result<ValView, CyberError>>,
    )
        requires
            r matches Ok(v) ==> data == Ok::<ValView, CyberError>(v@),
            r is Err ==> data is Err,
        ensures
            crate::value::views_of(final(vals)@) == crate::value::views_of(old(vals)@) + present(
                data,
            ),
    {
        match r {
            Ok(v) => {
                vals.push(v);
                assert(crate::value::views_of(vals@) =~= crate::value::views_of(old(vals)@)
                    + present(data));
            },
            Err(_) => {
                assert(crate::value::views_of(vals@) =~= crate::value::views_of(old(vals)@)
                    + present(data));
            },
        }
    }
}

} // verus!
