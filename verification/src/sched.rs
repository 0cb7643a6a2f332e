//! Wiring, the activation request of a heartbeat, and the scheduler pass
//! that fires the nodes whose inputs are all resolved.

use crate::board::{lemma_layout_keeps_wf, Board};
use crate::hex::Direction;
use crate::kinds::CyberNodes;
use crate::node::{CyberState, StateView};
use crate::ports::without_port;
use crate::value::Val;
use vstd::prelude::*;

verus! {

/// The order to evaluate node `e`, which is of kind `node`.
#[derive(Clone, Copy, Debug, PartialEq, Eq, Structural)]
pub struct TickNode {
    pub e: usize,
    pub node: CyberNodes,
}

impl TickNode {
    /// The order to evaluate node `e` of kind `node`.
    pub fn new(e: usize, node: CyberNodes) -> (t: TickNode)
        ensures
            t.e == e,
            t.node == node,
    {
        TickNode { e, node }
    }
}

impl Board {
    /// Whether the input that node `i` wired to direction `d` is resolved:
    /// a node stands next to `i` in that direction and holds a value.
    pub open spec fn input_resolved(&self, i: int, d: int) -> bool {
        match self.node_on(self.nodes[i].pos.step(d)) {
            Some(j) => self.state(j as int).has_value(),
            None => false,
        }
    }

    /// Whether every input that node `i` wired is resolved. Directions
    /// that are not wired ask for nothing.
    pub open spec fn satisfied(&self, i: int) -> bool {
        forall|d: int|
            0 <= d < 6 && (#[trigger] self.nodes[i].cfg.bound(d)).is_some()
                ==> self.input_resolved(i, d)
    }

    /// Whether node `i` fires in the next scheduler pass.
    pub open spec fn ready(&self, i: int) -> bool {
        self.state(i) == StateView::ActivationRequest && self.satisfied(i)
    }

    /// The orders for the ready nodes among the first `n`, by rising index.
    pub open spec fn ready_ticks(&self, n: nat) -> Seq<TickNode>
        decreases n,
    {
        if n == 0 {
            Seq::empty()
        } else {
            let i = (n - 1) as int;
            let rest = self.ready_ticks((n - 1) as nat);
            if self.ready(i) {
                rest.push(
                    TickNode {
                        e: i as usize,
                        node: self.registry.items[self.nodes[i].meta.0 as int].node,
                    },
                )
            } else {
                rest
            }
        }
    }

    /// Whether `self` is what a heartbeat makes of `before`: every node
    /// that was not disabled waits to run, disabled nodes stay disabled,
    /// and nothing else changed.
    pub open spec fn requested(&self, before: &Board) -> bool {
        &&& self.same_layout(before)
        &&& forall|i: int|
            0 <= i < before.nodes.len() ==> #[trigger] self.state(i) == (if before.state(i)
                == StateView::Disabled {
                StateView::Disabled
            } else {
                StateView::ActivationRequest
            }) && self.nodes[i].charge == before.nodes[i].charge
    }

    /// Whether `self` and `ticks` are what a scheduler pass makes of
    /// `before`: the nodes that were ready are triggered and listed in
    /// `ticks` by rising index, and nothing else changed.
    pub open spec fn ticked(&self, before: &Board, ticks: Seq<TickNode>) -> bool {
        &&& self.same_layout(before)
        &&& ticks == before.ready_ticks(before.nodes.len() as nat)
        &&& forall|i: int|
            0 <= i < before.nodes.len() ==> #[trigger] self.state(i) == (if before.ready(i) {
                StateView::Triggered
            } else {
                before.state(i)
            }) && self.nodes[i].charge == before.nodes[i].charge
    }

    /// Wires `port` to the direction `dir` of node `node`, as
    /// [`crate::ports::PortCfg::bind`] does. Nothing changes, and `false`
    /// is returned, when there is no such node or no such port.
    pub fn grid_pick(&mut self, node: usize, dir: Direction, port: usize) -> (bound: bool)
        requires
            old(self).wf(),
        ensures
            final(self).wf(),
            final(self).storage == old(self).storage,
            final(self).registry == old(self).registry,
            final(self).nodes.len() == old(self).nodes.len(),
            forall|i: int|
                0 <= i < old(self).nodes.len() && i != node ==> #[trigger] final(self).nodes[i]
                    == old(self).nodes[i],
            node >= old(self).nodes.len() || port >= old(self).registry.ports.len() ==> !bound
                && final(self).nodes == old(self).nodes,
            node < old(self).nodes.len() && port < old(self).registry.ports.len() ==> {
                let before = old(self).nodes[node as int];
                let after = final(self).nodes[node as int];
                let cleared = without_port(before.cfg.inputs@, port);
                &&& after.meta == before.meta
                &&& after.pos == before.pos
                &&& after.state == before.state
                &&& after.charge == before.charge
                &&& after.cfg.constant == before.cfg.constant
                &&& bound == cleared[dir.spec_index()].is_none()
                &&& after.cfg.inputs@ == if bound {
                    cleared.update(dir.spec_index(), Some(port))
                } else {
                    cleared
                }
                &&& forall|d: int|
                    0 <= d < 6 && d != dir.spec_index() ==> after.cfg.bound(d) != Some(port)
            },
    {
        if node >= self.nodes.len() || port >= self.registry.ports.len() {
            return false;
        }
        proof {
            assert(self.node_wf(node as int));
        }
        let bound = self.nodes[node].cfg.bind(dir, port);
        proof {
            assert forall|k: int| 0 <= k < self.nodes.len() implies #[trigger] self.node_wf(
                k,
            ) by {
                assert(old(self).node_wf(k));
                if k == node {
                    assert forall|d: int| 0 <= d < 6 implies (
                    #[trigger] self.nodes[k].cfg.bound(d) matches Some(p) ==> p
                        < self.registry.ports.len()) by {
                        assert(old(self).nodes[k].cfg.bound(d) matches Some(p) ==> p
                            < self.registry.ports.len());
                    }
                }
            }
        }
        bound
    }

    /// Sets the constant that node `node` emits, and says whether there is
    /// such a node.
    pub fn set_constant(&mut self, node: usize, v: Val) -> (done: bool)
        requires
            old(self).wf(),
        ensures
            final(self).wf(),
            final(self).storage == old(self).storage,
            final(self).registry == old(self).registry,
            final(self).nodes.len() == old(self).nodes.len(),
            done == (node < old(self).nodes.len()),
            !done ==> final(self).nodes == old(self).nodes,
            forall|i: int|
                0 <= i < old(self).nodes.len() && i != node ==> #[trigger] final(self).nodes[i]
                    == old(self).nodes[i],
            done ==> {
                let before = old(self).nodes[node as int];
                let after = final(self).nodes[node as int];
                &&& after.meta == before.meta
                &&& after.pos == before.pos
                &&& after.state == before.state
                &&& after.charge == before.charge
                &&& after.cfg.inputs == before.cfg.inputs
                &&& after.cfg.constant == Some(v)
            },
    {
        if node >= self.nodes.len() {
            return false;
        }
        self.nodes[node].cfg.set_constant(v);
        proof {
            assert forall|k: int| 0 <= k < self.nodes.len() implies #[trigger] self.node_wf(
                k,
            ) by {
                assert(old(self).node_wf(k));
                if k == node {
                    assert forall|d: int| 0 <= d < 6 implies (
                    #[trigger] self.nodes[k].cfg.bound(d) matches Some(p) ==> p
                        < self.registry.ports.len()) by {
                        assert(old(self).nodes[k].cfg.bound(d) matches Some(p) ==> p
                            < self.registry.ports.len());
                    }
                }
            }
        }
        true
    }

    /// The pulse of a heartbeat: every node that is not disabled is asked
    /// to run, whatever it held before. A second pulse in the same frame
    /// changes nothing more.
    pub fn request_nodes(&mut self)
        requires
            old(self).wf(),
        ensures
            final(self).wf(),
            final(self).requested(old(self)),
    {
        let mut i: usize = 0;
        while i < self.nodes.len()
            invariant
                i <= self.nodes.len(),
                self.same_layout(old(self)),
                forall|k: int|
                    0 <= k < self.nodes.len() ==> (#[trigger] self.nodes[k]).charge == old(self).nodes[k].charge,
                forall|k: int|
                    0 <= k < i ==> #[trigger] self.state(k) == if old(self).state(k)
                        == StateView::Disabled {
                        StateView::Disabled
                    } else {
                        StateView::ActivationRequest
                    },
                forall|k: int|
                    i <= k < self.nodes.len() ==> #[trigger] self.state(k) == old(self).state(k),
            decreases self.nodes.len() - i,
        {
            let ghost before = *self;
            if !self.nodes[i].state.is_disabled() {
                self.nodes[i].state = CyberState::ActivationRequest;
            }
            proof {
                assert forall|k: int| 0 <= k < self.nodes.len() && k != i implies #[trigger] self.state(
                    k,
                ) == before.state(k) by {
                    assert(self.nodes[k] == before.nodes[k]);
                }
                assert(before.state(i as int) == old(self).state(i as int));
            }
            i += 1;
        }
        proof {
            lemma_layout_keeps_wf(old(self), self);
        }
    }

    /// Whether every wired input of node `i` is resolved.
    pub fn is_satisfied(&self, i: usize) -> (b: bool)
        requires
            self.wf(),
            i < self.nodes.len(),
        ensures
            b == self.satisfied(i as int),
    {
        let mut d: usize = 0;
        while d < 6
            invariant
                d <= 6,
                self.wf(),
                i < self.nodes.len(),
                forall|k: int|
                    0 <= k < d && (#[trigger] self.nodes[i as int].cfg.bound(k)).is_some()
                        ==> self.input_resolved(i as int, k),
            decreases 6 - d,
        {
            proof {
                assert(self.node_wf(i as int));
            }
            let dir = Direction::from_index(d).unwrap();
            if self.nodes[i].cfg.input(dir).is_some() {
                let resolved = match self.neighbor_node(i, dir) {
                    Some(j) => self.nodes[j].state.has_value(),
                    None => false,
                };
                if !resolved {
                    return false;
                }
            }
            d += 1;
        }
        true
    }

    /// One scheduler pass. Every node that waits to run and has all its
    /// wired inputs resolved is set to `Triggered`, and an order to
    /// evaluate it is returned; all other nodes stay as they are. A node
    /// that fires in this pass holds no value yet, so a node wired to it
    /// cannot fire in the same pass.
    pub fn tick_nodes(&mut self) -> (ticks: Vec<TickNode>)
        requires
            old(self).wf(),
        ensures
            final(self).wf(),
            final(self).ticked(old(self), ticks@),
    {
        let mut ticks: Vec<TickNode> = Vec::new();
        let mut i: usize = 0;
        while i < self.nodes.len()
            invariant
                i <= self.nodes.len(),
                old(self).wf(),
                self.wf(),
                self.same_layout(old(self)),
                ticks@ == old(self).ready_ticks(i as nat),
                forall|k: int|
                    0 <= k < self.nodes.len() ==> (#[trigger] self.nodes[k]).charge == old(self).nodes[k].charge,
                forall|k: int|
                    0 <= k < i ==> #[trigger] self.state(k) == if old(self).ready(k) {
                        StateView::Triggered
                    } else {
                        old(self).state(k)
                    },
                forall|k: int|
                    i <= k < self.nodes.len() ==> #[trigger] self.state(k) == old(self).state(k),
            decreases self.nodes.len() - i,
        {
            let ghost before = *self;
            proof {
                assert forall|k: int| 0 <= k < self.nodes.len() implies self.state(
                    k,
                ).has_value() == old(self).state(k).has_value() by {
                    if k < i {
                        assert(self.state(k) == if old(self).ready(k) {
                            StateView::Triggered
                        } else {
                            old(self).state(k)
                        });
                    } else {
                        assert(self.state(k) == old(self).state(k));
                    }
                }
                lemma_satisfied_by_values(old(self), self, i as int);
            }
            if self.nodes[i].state.is_requested() && self.is_satisfied(i) {
                proof {
                    assert(self.node_wf(i as int));
                }
                let node = self.registry.items[self.nodes[i].meta.0].node;
                self.nodes[i].state = CyberState::Triggered;
                ticks.push(TickNode::new(i, node));
            }
            proof {
                lemma_layout_keeps_wf(&before, self);
            }
            i += 1;
        }
        ticks
    }
}

/// Whether a node's inputs are resolved depends on the layout and on
/// which nodes hold a value, and on nothing else.
pub proof fn lemma_satisfied_by_values(a: &Board, b: &Board, i: int)
    requires
        a.wf(),
        b.same_layout(a),
        0 <= i < a.nodes.len(),
        forall|k: int|
            0 <= k < a.nodes.len() ==> b.state(k).has_value() == a.state(k).has_value(),
    ensures
        b.satisfied(i) == a.satisfied(i),
{
    assert forall|d: int| 0 <= d < 6 implies b.input_resolved(i, d) == a.input_resolved(i, d) by {
        let cell = a.nodes[i].pos.step(d);
        assert(b.nodes[i].pos == a.nodes[i].pos);
        match a.node_on(cell) {
            Some(j) => {
                assert(a.on_board(cell));
                assert(j < a.nodes.len());
            },
            None => {},
        }
    }
    if a.satisfied(i) {
        assert forall|d: int|
            0 <= d < 6 && (#[trigger] b.nodes[i].cfg.bound(d)).is_some() implies b.input_resolved(
            i,
            d,
        ) by {
            assert(a.nodes[i].cfg.bound(d).is_some());
        }
    }
    if b.satisfied(i) {
        assert forall|d: int|
            0 <= d < 6 && (#[trigger] a.nodes[i].cfg.bound(d)).is_some() implies a.input_resolved(
            i,
            d,
        ) by {
            assert(b.nodes[i].cfg.bound(d).is_some());
        }
    }
}

} // verus!
