//! Port descriptions and the per-node wiring table.

use crate::hex::Direction;
use crate::value::{Val, ValType};
use vstd::prelude::*;

verus! {

/// The static description of one port of a node kind.
#[derive(Debug)]
pub struct PortMeta {
    pub name: String,
    pub desc: String,
    pub vt: ValType,
    pub constant: bool,
}

impl PortMeta {
    /// A port description made of its four parts.
    pub fn new_meta(name: String, desc: String, t: ValType, constant: bool) -> (p: PortMeta)
        ensures
            p.name == name,
            p.desc == desc,
            p.vt == t,
            p.constant == constant,
    {
        PortMeta { name, desc, vt: t, constant }
    }

    /// Whether the port goes by `name`.
    pub fn is_named(&self, name: &str) -> (b: bool)
        ensures
            b == (self.name@ == name@),
    {
        let wanted = name.to_owned();
        self.name == wanted
    }
}

/// The wiring of one node: which input port each of the six directions
/// feeds, and the constant the node emits if its output is a constant.
///
/// Ports are named by their index in the registry.
#[derive(Debug)]
pub struct PortCfg {
    pub inputs: Vec<Option<usize>>,
    pub constant: Option<Val>,
}

/// `slots` with every slot that holds `port` emptied.
pub open spec fn without_port(slots: Seq<Option<usize>>, port: usize) -> Seq<Option<usize>> {
    Seq::new(
        slots.len(),
        |i: int|
            if slots[i] == Some(port) {
                None
            } else {
                slots[i]
            },
    )
}

/// Whether no port occurs in two slots.
pub open spec fn no_port_twice(slots: Seq<Option<usize>>) -> bool {
    forall|i: int, j: int|
        0 <= i < slots.len() && 0 <= j < slots.len() && i != j && (#[trigger] slots[i]).is_some()
            ==> slots[i] != #[trigger] slots[j]
}

impl PortCfg {
    /// One slot for each direction, and no port bound twice.
    pub open spec fn wf(&self) -> bool {
        &&& self.inputs.len() == 6
        &&& no_port_twice(self.inputs@)
    }

    /// The port bound to the direction at position `d`, if any.
    pub open spec fn bound(&self, d: int) -> Option<usize> {
        self.inputs[d]
    }

    /// Whether no direction is bound.
    pub open spec fn unwired(&self) -> bool {
        forall|d: int| 0 <= d < 6 ==> (#[trigger] self.inputs[d]).is_none()
    }

    /// A wiring with no direction bound and no constant.
    pub fn new() -> (cfg: PortCfg)
        ensures
            cfg.wf(),
            cfg.unwired(),
            cfg.constant.is_none(),
    {
        let mut inputs: Vec<Option<usize>> = Vec::new();
        let mut i: usize = 0;
        while i < 6
            invariant
                i <= 6,
                inputs.len() == i,
                forall|d: int| 0 <= d < i ==> (#[trigger] inputs[d]).is_none(),
            decreases 6 - i,
        {
            inputs.push(None);
            i += 1;
        }
        PortCfg { inputs, constant: None }
    }

    /// The port bound to `dir`, if any.
    pub fn input(&self, dir: Direction) -> (p: Option<usize>)
        requires
            self.wf(),
        ensures
            p == self.bound(dir.spec_index()),
    {
        self.inputs[dir.index()]
    }

    /// The direction that `port` is bound to, if any.
    pub fn direction_of(&self, port: usize) -> (d: Option<Direction>)
        requires
            self.wf(),
        ensures
            d matches Some(dir) ==> self.bound(dir.spec_index()) == Some(port),
            d.is_none() ==> forall|i: int| 0 <= i < 6 ==> self.bound(i) != Some(port),
    {
        let mut i: usize = 0;
        while i < 6
            invariant
                i <= 6,
                self.wf(),
                forall|k: int| 0 <= k < i ==> self.bound(k) != Some(port),
            decreases 6 - i,
        {
            let hit = match self.inputs[i] {
                Some(p) => p == port,
                None => false,
            };
            if hit {
                return Direction::from_index(i);
            }
            i += 1;
        }
        None
    }

    /// Binds `port` to `dir`.
    ///
    /// Any direction that held `port` before is unbound first, so a port is
    /// never fed from two sides. If `dir` then still holds another port the
    /// request is turned down and `false` returned; the earlier binding of
    /// `port` stays removed.
    pub fn bind(&mut self, dir: Direction, port: usize) -> (bound: bool)
        requires
            old(self).wf(),
        ensures
            final(self).wf(),
            final(self).constant == old(self).constant,
            bound == without_port(old(self).inputs@, port)[dir.spec_index()].is_none(),
            bound ==> final(self).inputs@ == without_port(old(self).inputs@, port).update(
                dir.spec_index(),
                Some(port),
            ),
            !bound ==> final(self).inputs@ == without_port(old(self).inputs@, port),
            forall|d: int|
                0 <= d < 6 && d != dir.spec_index() ==> final(self).bound(d) != Some(port),
    {
        let mut i: usize = 0;
        while i < 6
            invariant
                i <= 6,
                self.inputs.len() == 6,
                old(self).inputs.len() == 6,
                self.constant == old(self).constant,
                forall|k: int|
                    0 <= k < i ==> #[trigger] self.inputs[k] == without_port(
                        old(self).inputs@,
                        port,
                    )[k],
                forall|k: int| i <= k < 6 ==> #[trigger] self.inputs[k] == old(self).inputs[k],
            decreases 6 - i,
        {
            let stale = match self.inputs[i] {
                Some(p) => p == port,
                None => false,
            };
            if stale {
                self.inputs[i] = None;
            }
            i += 1;
        }
        assert(self.inputs@ =~= without_port(old(self).inputs@, port));
        let d = dir.index();
        if self.inputs[d].is_some() {
            false
        } else {
            self.inputs[d] = Some(port);
            true
        }
    }

    /// Sets the constant that the node emits.
    pub fn set_constant(&mut self, v: Val)
        ensures
            final(self).inputs == old(self).inputs,
            final(self).constant == Some(v),
    {
        self.constant = Some(v);
    }
}

} // verus!
