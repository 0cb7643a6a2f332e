//! The registry of ports and node kinds that a board draws on.

use crate::kinds::{kind_description, kind_inputs, kind_name, kind_output, nothing_port, CyberNodes};
use crate::ports::PortMeta;
use vstd::prelude::*;

verus! {

/// The name a node kind is shown under.
#[derive(Debug)]
pub struct Name(pub String);

/// The sentence that tells a player what a node kind does.
#[derive(Debug)]
pub struct Description(pub String);

/// The input ports of a node kind, by their index in the registry.
#[derive(Debug)]
pub struct PortMetas(pub Vec<usize>);

/// The output port of a node kind, by its index in the registry.
#[derive(Clone, Copy, Debug)]
pub struct OutputPort(pub usize);

/// The static description of a node kind.
#[derive(Debug)]
pub struct ItemMetaBundle {
    pub name: Name,
    pub desc: Description,
    pub ports: PortMetas,
    pub output: OutputPort,
    pub node: CyberNodes,
}

impl ItemMetaBundle {
    /// The description made of its parts.
    pub fn new(name: String, desc: String, ports: Vec<usize>, outputs: usize, node: CyberNodes) -> (m:
        ItemMetaBundle)
        ensures
            m.name.0 == name,
            m.desc.0 == desc,
            m.ports.0 == ports,
            m.output.0 == outputs,
            m.node == node,
    {
        ItemMetaBundle {
            name: Name(name),
            desc: Description(desc),
            ports: PortMetas(ports),
            output: OutputPort(outputs),
            node,
        }
    }

    /// Whether every port the description names is below `n`.
    pub open spec fn ports_below(&self, n: int) -> bool {
        &&& self.output.0 < n
        &&& forall|j: int| 0 <= j < self.ports.0.len() ==> #[trigger] self.ports.0[j] < n
    }
}

/// Every port and every node kind that nodes can refer to.
#[derive(Debug)]
pub struct Registry {
    pub ports: Vec<PortMeta>,
    pub items: Vec<ItemMetaBundle>,
}

/// The kinds of the standard registry, in the order it lists them.
pub open spec fn catalogue() -> Seq<CyberNodes> {
    seq![
        CyberNodes::Lazor,
        CyberNodes::RocketLauncher,
        CyberNodes::Orbital,
        CyberNodes::Plasma,
        CyberNodes::Shock,
        CyberNodes::Project,
        CyberNodes::Debug,
        CyberNodes::List,
        CyberNodes::ClosestEntity,
        CyberNodes::ConstantNumber,
        CyberNodes::VectorMul,
        CyberNodes::NumberMul,
        CyberNodes::NumberSub,
        CyberNodes::Storage,
        CyberNodes::Vector,
        CyberNodes::VectorNeg,
        CyberNodes::ListLength,
        CyberNodes::VectorLen,
        CyberNodes::NearbyEntities,
        CyberNodes::EntityDirection,
        CyberNodes::EntityPos,
        CyberNodes::WIP,
    ]
}

impl Registry {
    /// Every port that an item names exists.
    pub open spec fn wf(&self) -> bool {
        forall|k: int|
            0 <= k < self.items.len() ==> (#[trigger] self.items[k]).ports_below(
                self.ports.len() as int,
            )
    }

    /// Whether item `k` is the declaration of `kind`: its tag, its texts,
    /// and ports with the content that the kind declares.
    pub open spec fn declares(&self, k: int, kind: CyberNodes) -> bool {
        let item = self.items[k];
        &&& item.node == kind
        &&& item.name.0@ == kind_name(kind)
        &&& item.desc.0@ == kind_description(kind)
        &&& item.ports.0.len() == kind_inputs(kind).len()
        &&& forall|j: int|
            0 <= j < item.ports.0.len() ==> (#[trigger] self.ports[item.ports.0[j] as int])@
                == kind_inputs(kind)[j]
        &&& self.ports[item.output.0 as int]@ == kind_output(kind)
    }

    /// Whether the input ports of an earlier item all come before those of
    /// a later one, so that no two items share an input port.
    pub open spec fn inputs_apart(&self) -> bool {
        forall|k1: int, k2: int, j1: int, j2: int|
            0 <= k1 < k2 < self.items.len() && 0 <= j1 < self.items[k1].ports.0.len() && 0 <= j2
                < self.items[k2].ports.0.len() ==> (#[trigger] self.items[k1].ports.0[j1])
                < #[trigger] self.items[k2].ports.0[j2]
    }

    /// A registry without ports or items.
    pub fn new() -> (r: Registry)
        ensures
            r.wf(),
            r.ports.len() == 0,
            r.items.len() == 0,
    {
        Registry { ports: Vec::new(), items: Vec::new() }
    }

    /// Adds a port and returns its index.
    pub fn add_port(&mut self, p: PortMeta) -> (id: usize)
        requires
            old(self).wf(),
        ensures
            final(self).wf(),
            id == old(self).ports.len(),
            final(self).ports@ == old(self).ports@.push(p),
            final(self).items == old(self).items,
    {
        let id = self.ports.len();
        self.ports.push(p);
        id
    }

    /// Adds a node kind and returns its index, or hands the registry back
    /// unchanged with `None` when the kind names a port that is not there.
    pub fn add_item(&mut self, item: ItemMetaBundle) -> (id: Option<usize>)
        requires
            old(self).wf(),
        ensures
            final(self).wf(),
            final(self).ports == old(self).ports,
            id.is_some() <==> item.ports_below(old(self).ports.len() as int),
            id matches Some(k) ==> k == old(self).items.len() && final(self).items@ == old(self).items@.push(item),
            id.is_none() ==> final(self).items == old(self).items,
    {
        if item.output.0 >= self.ports.len() {
            return None;
        }
        let mut j: usize = 0;
        while j < item.ports.0.len()
            invariant
                j <= item.ports.0.len(),
                self.wf(),
                self.ports == old(self).ports,
                self.items == old(self).items,
                forall|i: int| 0 <= i < j ==> #[trigger] item.ports.0[i] < self.ports.len(),
            decreases item.ports.0.len() - j,
        {
            if item.ports.0[j] >= self.ports.len() {
                return None;
            }
            j += 1;
        }
        let id = self.items.len();
        self.items.push(item);
        Some(id)
    }

    /// The first item of kind `kind`, if the registry has one.
    pub fn find_kind(&self, kind: CyberNodes) -> (k: Option<usize>)
        ensures
            k matches Some(i) ==> i < self.items.len() && self.items[i as int].node == kind
                && forall|j: int| 0 <= j < i ==> (#[trigger] self.items[j]).node != kind,
            k.is_none() ==> forall|j: int|
                0 <= j < self.items.len() ==> (#[trigger] self.items[j]).node != kind,
    {
        let mut i: usize = 0;
        while i < self.items.len()
            invariant
                i <= self.items.len(),
                forall|j: int| 0 <= j < i ==> (#[trigger] self.items[j]).node != kind,
            decreases self.items.len() - i,
        {
            if self.items[i].node == kind {
                return Some(i);
            }
            i += 1;
        }
        None
    }

    /// The first input port of item `item` that goes by `name`, if the
    /// item is there and has one.
    pub fn find_input(&self, item: usize, name: &str) -> (p: Option<usize>)
        requires
            self.wf(),
        ensures
            p matches Some(id) ==> item < self.items.len() && id < self.ports.len() && self.ports[id as int].name@
                == name@ && exists|j: int|
                0 <= j < self.items[item as int].ports.0.len()
                    && #[trigger] self.items[item as int].ports.0[j] == id,
            p.is_none() && item < self.items.len() ==> forall|j: int|
                0 <= j < self.items[item as int].ports.0.len() ==> self.ports[(
                #[trigger] self.items[item as int].ports.0[j]) as int].name@ != name@,
    {
        if item >= self.items.len() {
            return None;
        }
        assert(self.items[item as int].ports_below(self.ports.len() as int));
        let mut j: usize = 0;
        while j < self.items[item].ports.0.len()
            invariant
                item < self.items.len(),
                j <= self.items[item as int].ports.0.len(),
                self.items[item as int].ports_below(self.ports.len() as int),
                forall|q: int|
                    0 <= q < j ==> self.ports[(
                    #[trigger] self.items[item as int].ports.0[q]) as int].name@ != name@,
            decreases self.items[item as int].ports.0.len() - j,
        {
            let id = self.items[item].ports.0[j];
            if self.ports[id].is_named(name) {
                return Some(id);
            }
            j += 1;
        }
        None
    }

    /// Adds the declaration of `kind` with input ports of its own. Its
    /// output is the port `nothing` where the kind has no result, and a
    /// port of its own otherwise.
    pub fn add_kind(&mut self, kind: CyberNodes, nothing: usize) -> (k: usize)
        requires
            old(self).wf(),
            nothing < old(self).ports.len(),
            old(self).ports[nothing as int]@ == nothing_port(),
        ensures
            final(self).wf(),
            k == old(self).items.len(),
            final(self).items.len() == k + 1,
            final(self).declares(k as int, kind),
            final(self).ports.len() >= old(self).ports.len(),
            forall|i: int|
                0 <= i < old(self).ports.len() ==> #[trigger] final(self).ports[i] == old(self).ports[i],
            forall|i: int|
                0 <= i < old(self).items.len() ==> #[trigger] final(self).items[i] == old(self).items[i],
            forall|j: int|
                0 <= j < final(self).items[k as int].ports.0.len() ==> old(self).ports.len()
                    <= #[trigger] final(self).items[k as int].ports.0[j],
            kind_output(kind) == nothing_port() ==> final(self).items[k as int].output.0
                == nothing,
            kind_output(kind) != nothing_port() ==> final(self).items[k as int].output.0
                == final(self).ports.len() - 1,
    {
        let mut declared = kind.input_ports();
        let ghost specs = kind_inputs(kind);
        let n = declared.len();
        assert(n == specs.len()) by {
            assert(crate::kinds::port_views(declared@).len() == specs.len());
        }
        assert forall|j: int| 0 <= j < n implies (#[trigger] declared[j])@ == specs[j] by {
            assert(crate::kinds::port_views(declared@)[j] == specs[j]);
        }
        let mut ids: Vec<usize> = Vec::new();
        let ghost base = self.ports.len();
        // the declared ports leave the list from its end, so they are
        // taken in reverse and the registry is filled from the last to the
        // first; the ids are then put in display order
        let mut taken: Vec<PortMeta> = Vec::new();
        while declared.len() > 0
            invariant
                declared.len() + taken.len() == n,
                forall|j: int| 0 <= j < declared.len() ==> (#[trigger] declared[j])@ == specs[j],
                forall|j: int|
                    0 <= j < taken.len() ==> (#[trigger] taken[j])@ == specs[n - 1 - j],
            decreases declared.len(),
        {
            let p = declared.pop().unwrap();
            taken.push(p);
        }
        while taken.len() > 0
            invariant
                self.wf(),
                ids.len() + taken.len() == n,
                self.items == old(self).items,
                self.ports.len() == base + ids.len(),
                forall|j: int|
                    0 <= j < taken.len() ==> (#[trigger] taken[j])@ == specs[n - 1 - j],
                forall|j: int| 0 <= j < ids.len() ==> #[trigger] ids[j] == base + j,
                forall|j: int|
                    0 <= j < ids.len() ==> (#[trigger] self.ports[base + j])@ == specs[j],
                forall|i: int| 0 <= i < base ==> #[trigger] self.ports[i] == old(self).ports[i],
            decreases taken.len(),
        {
            let p = taken.pop().unwrap();
            let id = self.add_port(p);
            ids.push(id);
        }
        let out = kind.output_port();
        let output = if has_result(kind) {
            self.add_port(out)
        } else {
            nothing
        };
        let item = ItemMetaBundle::new(kind.display_name(), kind.description(), ids, output, kind);
        let k = self.items.len();
        self.items.push(item);
        k
    }

    /// The registry of every kind the game offers, in the order of
    /// [`catalogue`]. Port 0 is the output shared by the kinds without a
    /// result.
    pub fn standard() -> (r: Registry)
        ensures
            r.wf(),
            r.inputs_apart(),
            r.ports.len() > 0,
            r.ports[0]@ == nothing_port(),
            r.items.len() == catalogue().len(),
            forall|k: int| 0 <= k < r.items.len() ==> #[trigger] r.declares(k, catalogue()[k]),
            forall|k: int|
                0 <= k < r.items.len() && kind_output(catalogue()[k]) == nothing_port() ==> (
                #[trigger] r.items[k]).output.0 == 0,
    {
        let mut r = Registry::new();
        let nothing = r.add_port(CyberNodes::WIP.output_port());
        let order = listed_kinds();
        let mut i: usize = 0;
        while i < order.len()
            invariant
                i <= order.len(),
                order@ == catalogue(),
                r.wf(),
                r.inputs_apart(),
                nothing == 0,
                r.ports.len() > 0,
                r.ports[0]@ == nothing_port(),
                r.items.len() == i,
                forall|k: int| 0 <= k < i ==> #[trigger] r.declares(k, catalogue()[k]),
                forall|k: int|
                    0 <= k < i && kind_output(catalogue()[k]) == nothing_port() ==> (
                    #[trigger] r.items[k]).output.0 == 0,
            decreases order.len() - i,
        {
            let ghost before = r;
            let k = r.add_kind(order[i], nothing);
            proof {
                assert forall|q: int| 0 <= q < i implies #[trigger] r.declares(
                    q,
                    catalogue()[q],
                ) by {
                    assert(before.declares(q, catalogue()[q]));
                    assert(before.items[q].ports_below(before.ports.len() as int));
                    assert(r.items[q] == before.items[q]);
                }
                assert forall|k1: int, k2: int, j1: int, j2: int|
                    0 <= k1 < k2 < r.items.len() && 0 <= j1 < r.items[k1].ports.0.len() && 0
                        <= j2 < r.items[k2].ports.0.len() implies (
                #[trigger] r.items[k1].ports.0[j1]) < #[trigger] r.items[k2].ports.0[j2] by {
                    assert(r.items[k1] == before.items[k1]);
                    assert(before.items[k1].ports_below(before.ports.len() as int));
                    if k2 < i {
                        assert(r.items[k2] == before.items[k2]);
                    }
                }
            }
            i += 1;
        }
        r
    }
}

/// Whether a kind has an output port of its own, rather than the shared
/// port of the kinds without a result.
pub fn has_result(kind: CyberNodes) -> (b: bool)
    ensures
        b == (kind_output(kind) != nothing_port()),
{
    match kind {
        CyberNodes::WIP
        | CyberNodes::Lazor
        | CyberNodes::Debug
        | CyberNodes::Project
        | CyberNodes::Orbital
        | CyberNodes::RocketLauncher => false,
        _ => true,
    }
}

/// The kinds of [`catalogue`], in order.
pub fn listed_kinds() -> (v: Vec<CyberNodes>)
    ensures
        v@ == catalogue(),
{
    let mut v: Vec<CyberNodes> = Vec::new();
    v.push(CyberNodes::Lazor);
    v.push(CyberNodes::RocketLauncher);
    v.push(CyberNodes::Orbital);
    v.push(CyberNodes::Plasma);
    v.push(CyberNodes::Shock);
    v.push(CyberNodes::Project);
    v.push(CyberNodes::Debug);
    v.push(CyberNodes::List);
    v.push(CyberNodes::ClosestEntity);
    v.push(CyberNodes::ConstantNumber);
    v.push(CyberNodes::VectorMul);
    v.push(CyberNodes::NumberMul);
    v.push(CyberNodes::NumberSub);
    v.push(CyberNodes::Storage);
    v.push(CyberNodes::Vector);
    v.push(CyberNodes::VectorNeg);
    v.push(CyberNodes::ListLength);
    v.push(CyberNodes::VectorLen);
    v.push(CyberNodes::NearbyEntities);
    v.push(CyberNodes::EntityDirection);
    v.push(CyberNodes::EntityPos);
    v.push(CyberNodes::WIP);
    assert(v@ =~= catalogue());
    v
}

} // verus!
