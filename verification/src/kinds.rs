//! The node kinds and what each declares: its name, its input ports and its
//! output port.

use crate::ports::PortMeta;
use crate::value::ValType;
use vstd::prelude::*;

verus! {

/// The tag that selects how a node is evaluated.
#[derive(Clone, Copy, Debug, PartialEq, Eq, Structural)]
pub enum CyberNodes {
    WIP,
    Lazor,
    List,
    Debug,
    Project,
    Shock,
    Plasma,
    Orbital,
    RocketLauncher,
    ClosestEntity,
    EntityDirection,
    NearbyEntities,
    EntityPos,
    ConstantNumber,
    NumberSub,
    Storage,
    NumberMul,
    VectorMul,
    VectorNeg,
    ListLength,
    VectorLen,
    Vector,
}

/// The content of a [`PortMeta`].
pub struct PortSpec {
    pub name: Seq<char>,
    pub desc: Seq<char>,
    pub vt: ValType,
    pub constant: bool,
}

impl View for PortMeta {
    type V = PortSpec;

    open spec fn view(&self) -> PortSpec {
        PortSpec { name: self.name@, desc: self.desc@, vt: self.vt, constant: self.constant }
    }
}

/// The views of a list of ports, in order.
pub open spec fn port_views(ports: Seq<PortMeta>) -> Seq<PortSpec> {
    Seq::new(ports.len(), |i: int| ports[i]@)
}

/// A port that is no constant.
pub open spec fn port(name: &str, desc: &str, vt: ValType) -> PortSpec {
    PortSpec { name: name@, desc: desc@, vt, constant: false }
}

/// The output that kinds without a result share.
pub open spec fn nothing_port() -> PortSpec {
    port("nothing", "nothing", ValType::Empty)
}

/// Five ports named "a" to "e" of one type, described as the first to the
/// fifth `what`.
pub open spec fn five_ports(
    vt: ValType,
    first: &str,
    second: &str,
    third: &str,
    fourth: &str,
    fifth: &str,
) -> Seq<PortSpec> {
    seq![
        port("a", first, vt),
        port("b", second, vt),
        port("c", third, vt),
        port("d", fourth, vt),
        port("e", fifth, vt),
    ]
}

/// The name a kind is shown under.
pub open spec fn kind_name(kind: CyberNodes) -> Seq<char> {
    match kind {
        CyberNodes::WIP => "empty slot"@,
        CyberNodes::Lazor => "lazor"@,
        CyberNodes::List => "list: construct"@,
        CyberNodes::Debug => "debug"@,
        CyberNodes::Project => "project tile"@,
        CyberNodes::Shock => "tesla coil"@,
        CyberNodes::Plasma => "plasma cannon"@,
        CyberNodes::Orbital => "orbital strike"@,
        CyberNodes::RocketLauncher => "rocket launcher"@,
        CyberNodes::ClosestEntity => "entity: closest"@,
        CyberNodes::EntityDirection => "entity: direction"@,
        CyberNodes::NearbyEntities => "entity: nearby"@,
        CyberNodes::EntityPos => "entity: position"@,
        CyberNodes::ConstantNumber => "number: constant"@,
        CyberNodes::NumberSub => "number: subtract"@,
        CyberNodes::Storage => "store"@,
        CyberNodes::NumberMul => "number: multiply"@,
        CyberNodes::VectorMul => "vector: multiply"@,
        CyberNodes::VectorNeg => "vector: negate"@,
        CyberNodes::ListLength => "list: len"@,
        CyberNodes::VectorLen => "vector: length"@,
        CyberNodes::Vector => "vector: create"@,
    }
}

/// The sentence that tells a player what a kind does.
pub open spec fn kind_description(kind: CyberNodes) -> Seq<char> {
    match kind {
        CyberNodes::WIP => "wip"@,
        CyberNodes::Lazor => "shoots lazor beam at target"@,
        CyberNodes::List => "construct list out of all inputs, input lists will be flattened"@,
        CyberNodes::Debug => "log all inputs to the console"@,
        CyberNodes::Project => "project an illusory tile at the target position"@,
        CyberNodes::Shock => "shoot lightning at all targets"@,
        CyberNodes::Plasma =>
            "shoot a plasma to the target position. the size of the plasma depends on how many ticks the plasma cannon has been charged"@,
        CyberNodes::Orbital =>
            "request an orbital strike at a position that will arrive in the future"@,
        CyberNodes::RocketLauncher => "shoots rockets in the target direction"@,
        CyberNodes::ClosestEntity => "returns the closest nearby entity"@,
        CyberNodes::EntityDirection =>
            "returns the direction the target entity is moving towards"@,
        CyberNodes::NearbyEntities => "returns all nearby entities as a list of Entity"@,
        CyberNodes::EntityPos => "returns the target entities current position"@,
        CyberNodes::ConstantNumber => "returns a constant number set in the port config"@,
        CyberNodes::NumberSub =>
            "subtracts an arbitrary amount of numbers in order of the input ports"@,
        CyberNodes::Storage => "unimplemented, sorry :("@,
        CyberNodes::NumberMul => "multiplies an arbitrary amount of numbers together"@,
        CyberNodes::VectorMul => "multilies an arbitrary amount of vectors"@,
        CyberNodes::VectorNeg => "negates a vector"@,
        CyberNodes::ListLength => "returns the length of a list"@,
        CyberNodes::VectorLen => "computes the length / magnitude of a vector"@,
        CyberNodes::Vector => "constructs a vector from 2 numbers"@,
    }
}

/// The input ports a kind declares, in display order.
pub open spec fn kind_inputs(kind: CyberNodes) -> Seq<PortSpec> {
    match kind {
        CyberNodes::WIP => seq![],
        CyberNodes::Lazor => seq![port("target", "the target entity to shoot", ValType::Entity)],
        CyberNodes::List => five_ports(
            ValType::Any,
            "first item",
            "second item",
            "third item",
            "fourth item",
            "fifth item",
        ),
        CyberNodes::Debug => five_ports(
            ValType::Any,
            "first item",
            "second item",
            "third item",
            "fourth item",
            "fifth item",
        ),
        CyberNodes::Project => seq![port("target", "target position", ValType::Vec)],
        CyberNodes::Shock => seq![port("targets", "list of target entities", ValType::List)],
        CyberNodes::Plasma => seq![
            port("target", "the target position", ValType::Vec),
            port(
                "threshold",
                "the amount of ticks to collect before firing. without it every tick fires",
                ValType::Number,
            ),
        ],
        CyberNodes::Orbital => seq![port("target", "the target position", ValType::Vec)],
        CyberNodes::RocketLauncher => seq![
            port("direction", "the direction to shoot in", ValType::Vec),
        ],
        CyberNodes::ClosestEntity => seq![],
        CyberNodes::EntityDirection => seq![port("target", "target entity", ValType::Entity)],
        CyberNodes::NearbyEntities => seq![
            port("range", "limit to the range. default is max: 8.", ValType::Number),
        ],
        CyberNodes::EntityPos => seq![port("target", "target entity", ValType::Entity)],
        CyberNodes::ConstantNumber => seq![],
        CyberNodes::NumberSub => five_ports(
            ValType::Number,
            "first number",
            "second number",
            "third number",
            "fourth number",
            "fifth number",
        ),
        CyberNodes::Storage => seq![
            port("0", "data slot 0", ValType::Any),
            port("1", "data slot 1", ValType::Any),
            port("2", "data slot 2", ValType::Any),
            port("3", "data slot 3", ValType::Any),
            port("slot", "determines the slot to output. default is 0", ValType::Number),
        ],
        CyberNodes::NumberMul => five_ports(
            ValType::Number,
            "first number",
            "second number",
            "third number",
            "fourth number",
            "fifth number",
        ),
        CyberNodes::VectorMul => five_ports(
            ValType::Vec,
            "first vector",
            "second vector",
            "third vector",
            "fourth vector",
            "fifth vector",
        ),
        CyberNodes::VectorNeg => seq![port("vector", "the vector to negate", ValType::Vec)],
        CyberNodes::ListLength => seq![port("list", "list input", ValType::List)],
        CyberNodes::VectorLen => seq![port("vector", "the vector to compute", ValType::Vec)],
        CyberNodes::Vector => seq![
            port("x", "first number", ValType::Number),
            port("y", "second number", ValType::Number),
        ],
    }
}

/// The output port a kind declares.
pub open spec fn kind_output(kind: CyberNodes) -> PortSpec {
    match kind {
        CyberNodes::Plasma => port(
            "fired",
            "power of the shot or 0 if it didnt fire this tick",
            ValType::Number,
        ),
        CyberNodes::Shock => port("shot", "number of targets shot", ValType::Number),
        CyberNodes::List => port("list", "1 dimentional list of all inputs", ValType::List),
        CyberNodes::ClosestEntity => port(
            "closest",
            "the closest nearby entity",
            ValType::Entity,
        ),
        CyberNodes::ConstantNumber => PortSpec {
            name: "constant"@,
            desc: "the constant value"@,
            vt: ValType::Number,
            constant: true,
        },
        CyberNodes::VectorMul => port(
            "vector",
            "a vector like: (ax * bx * cx ..., ay * by...)",
            ValType::Vec,
        ),
        CyberNodes::NumberMul => port("sum", "a * b * c * d * e", ValType::Number),
        CyberNodes::NumberSub => port("sum", "a - b - c - d - e", ValType::Number),
        CyberNodes::Storage => port("data", "the stored data from the slot `slot`", ValType::Any),
        CyberNodes::Vector => port("vector", "the constructed vector", ValType::Vec),
        CyberNodes::VectorNeg => port("vector", "the negated vector", ValType::Vec),
        CyberNodes::ListLength => port(
            "length",
            "the number of elements in the list",
            ValType::Number,
        ),
        CyberNodes::VectorLen => port("length", "the length of the vector", ValType::Number),
        CyberNodes::NearbyEntities => port("entities", "the nearby entities", ValType::List),
        CyberNodes::EntityDirection => port(
            "direction",
            "direction of the target",
            ValType::Vec,
        ),
        CyberNodes::EntityPos => port("position", "position of target entity", ValType::Vec),
        _ => nothing_port(),
    }
}

/// A port that is no constant.
fn make_port(name: &str, desc: &str, vt: ValType) -> (p: PortMeta)
    ensures
        p@ == port(name, desc, vt),
{
    PortMeta::new_meta(name.to_owned(), desc.to_owned(), vt, false)
}

/// Five ports named "a" to "e" of one type.
fn make_five(vt: ValType, first: &str, second: &str, third: &str, fourth: &str, fifth: &str) -> (v:
    Vec<PortMeta>)
    ensures
        port_views(v@) == five_ports(vt, first, second, third, fourth, fifth),
{
    let mut v: Vec<PortMeta> = Vec::new();
    v.push(make_port("a", first, vt));
    v.push(make_port("b", second, vt));
    v.push(make_port("c", third, vt));
    v.push(make_port("d", fourth, vt));
    v.push(make_port("e", fifth, vt));
    assert(port_views(v@) =~= five_ports(vt, first, second, third, fourth, fifth));
    v
}

/// A list of one port.
fn make_one(name: &str, desc: &str, vt: ValType) -> (v: Vec<PortMeta>)
    ensures
        port_views(v@) == seq![port(name, desc, vt)],
{
    let mut v: Vec<PortMeta> = Vec::new();
    v.push(make_port(name, desc, vt));
    assert(port_views(v@) =~= seq![port(name, desc, vt)]);
    v
}

impl CyberNodes {
    /// The name the kind is shown under.
    pub fn display_name(self) -> (s: String)
        ensures
            s@ == kind_name(self),
    {
        match self {
            CyberNodes::WIP => "empty slot".to_owned(),
            CyberNodes::Lazor => "lazor".to_owned(),
            CyberNodes::List => "list: construct".to_owned(),
            CyberNodes::Debug => "debug".to_owned(),
            CyberNodes::Project => "project tile".to_owned(),
            CyberNodes::Shock => "tesla coil".to_owned(),
            CyberNodes::Plasma => "plasma cannon".to_owned(),
            CyberNodes::Orbital => "orbital strike".to_owned(),
            CyberNodes::RocketLauncher => "rocket launcher".to_owned(),
            CyberNodes::ClosestEntity => "entity: closest".to_owned(),
            CyberNodes::EntityDirection => "entity: direction".to_owned(),
            CyberNodes::NearbyEntities => "entity: nearby".to_owned(),
            CyberNodes::EntityPos => "entity: position".to_owned(),
            CyberNodes::ConstantNumber => "number: constant".to_owned(),
            CyberNodes::NumberSub => "number: subtract".to_owned(),
            CyberNodes::Storage => "store".to_owned(),
            CyberNodes::NumberMul => "number: multiply".to_owned(),
            CyberNodes::VectorMul => "vector: multiply".to_owned(),
            CyberNodes::VectorNeg => "vector: negate".to_owned(),
            CyberNodes::ListLength => "list: len".to_owned(),
            CyberNodes::VectorLen => "vector: length".to_owned(),
            CyberNodes::Vector => "vector: create".to_owned(),
        }
    }

    /// The sentence that tells a player what the kind does.
    pub fn description(self) -> (s: String)
        ensures
            s@ == kind_description(self),
    {
        match self {
            CyberNodes::WIP => "wip".to_owned(),
            CyberNodes::Lazor => "shoots lazor beam at target".to_owned(),
            CyberNodes::List =>
                "construct list out of all inputs, input lists will be flattened".to_owned(),
            CyberNodes::Debug => "log all inputs to the console".to_owned(),
            CyberNodes::Project => "project an illusory tile at the target position".to_owned(),
            CyberNodes::Shock => "shoot lightning at all targets".to_owned(),
            CyberNodes::Plasma =>
                "shoot a plasma to the target position. the size of the plasma depends on how many ticks the plasma cannon has been charged".to_owned(),
            CyberNodes::Orbital =>
                "request an orbital strike at a position that will arrive in the future".to_owned(),
            CyberNodes::RocketLauncher => "shoots rockets in the target direction".to_owned(),
            CyberNodes::ClosestEntity => "returns the closest nearby entity".to_owned(),
            CyberNodes::EntityDirection =>
                "returns the direction the target entity is moving towards".to_owned(),
            CyberNodes::NearbyEntities =>
                "returns all nearby entities as a list of Entity".to_owned(),
            CyberNodes::EntityPos => "returns the target entities current position".to_owned(),
            CyberNodes::ConstantNumber =>
                "returns a constant number set in the port config".to_owned(),
            CyberNodes::NumberSub =>
                "subtracts an arbitrary amount of numbers in order of the input ports".to_owned(),
            CyberNodes::Storage => "unimplemented, sorry :(".to_owned(),
            CyberNodes::NumberMul => "multiplies an arbitrary amount of numbers together".to_owned(),
            CyberNodes::VectorMul => "multilies an arbitrary amount of vectors".to_owned(),
            CyberNodes::VectorNeg => "negates a vector".to_owned(),
            CyberNodes::ListLength => "returns the length of a list".to_owned(),
            CyberNodes::VectorLen => "computes the length / magnitude of a vector".to_owned(),
            CyberNodes::Vector => "constructs a vector from 2 numbers".to_owned(),
        }
    }

    /// The input ports the kind declares, in display order.
    pub fn input_ports(self) -> (v: Vec<PortMeta>)
        ensures
            port_views(v@) == kind_inputs(self),
    {
        match self {
            CyberNodes::WIP | CyberNodes::ClosestEntity | CyberNodes::ConstantNumber => {
                let v: Vec<PortMeta> = Vec::new();
                assert(port_views(v@) =~= Seq::<PortSpec>::empty());
                v
            },
            CyberNodes::Lazor => make_one("target", "the target entity to shoot", ValType::Entity),
            CyberNodes::List | CyberNodes::Debug => make_five(
                ValType::Any,
                "first item",
                "second item",
                "third item",
                "fourth item",
                "fifth item",
            ),
            CyberNodes::Project => make_one("target", "target position", ValType::Vec),
            CyberNodes::Shock => make_one("targets", "list of target entities", ValType::List),
            CyberNodes::Plasma => {
                let mut v: Vec<PortMeta> = Vec::new();
                v.push(make_port("target", "the target position", ValType::Vec));
                v.push(
                    make_port(
                        "threshold",
                        "the amount of ticks to collect before firing. without it every tick fires",
                        ValType::Number,
                    ),
                );
                assert(port_views(v@) =~= kind_inputs(self));
                v
            },
            CyberNodes::Orbital => make_one("target", "the target position", ValType::Vec),
            CyberNodes::RocketLauncher => make_one(
                "direction",
                "the direction to shoot in",
                ValType::Vec,
            ),
            CyberNodes::EntityDirection | CyberNodes::EntityPos => make_one(
                "target",
                "target entity",
                ValType::Entity,
            ),
            CyberNodes::NearbyEntities => make_one(
                "range",
                "limit to the range. default is max: 8.",
                ValType::Number,
            ),
            CyberNodes::NumberSub | CyberNodes::NumberMul => make_five(
                ValType::Number,
                "first number",
                "second number",
                "third number",
                "fourth number",
                "fifth number",
            ),
            CyberNodes::Storage => {
                let mut v: Vec<PortMeta> = Vec::new();
                v.push(make_port("0", "data slot 0", ValType::Any));
                v.push(make_port("1", "data slot 1", ValType::Any));
                v.push(make_port("2", "data slot 2", ValType::Any));
                v.push(make_port("3", "data slot 3", ValType::Any));
                v.push(
                    make_port(
                        "slot",
                        "determines the slot to output. default is 0",
                        ValType::Number,
                    ),
                );
                assert(port_views(v@) =~= kind_inputs(self));
                v
            },
            CyberNodes::VectorMul => make_five(
                ValType::Vec,
                "first vector",
                "second vector",
                "third vector",
                "fourth vector",
                "fifth vector",
            ),
            CyberNodes::VectorNeg => make_one("vector", "the vector to negate", ValType::Vec),
            CyberNodes::ListLength => make_one("list", "list input", ValType::List),
            CyberNodes::VectorLen => make_one("vector", "the vector to compute", ValType::Vec),
            CyberNodes::Vector => {
                let mut v: Vec<PortMeta> = Vec::new();
                v.push(make_port("x", "first number", ValType::Number));
                v.push(make_port("y", "second number", ValType::Number));
                assert(port_views(v@) =~= kind_inputs(self));
                v
            },
        }
    }

    /// The output port the kind declares.
    pub fn output_port(self) -> (p: PortMeta)
        ensures
            p@ == kind_output(self),
    {
        match self {
            CyberNodes::Plasma => make_port(
                "fired",
                "power of the shot or 0 if it didnt fire this tick",
                ValType::Number,
            ),
            CyberNodes::Shock => make_port("shot", "number of targets shot", ValType::Number),
            CyberNodes::List => make_port(
                "list",
                "1 dimentional list of all inputs",
                ValType::List,
            ),
            CyberNodes::ClosestEntity => make_port(
                "closest",
                "the closest nearby entity",
                ValType::Entity,
            ),
            CyberNodes::ConstantNumber => PortMeta::new_meta(
                "constant".to_owned(),
                "the constant value".to_owned(),
                ValType::Number,
                true,
            ),
            CyberNodes::VectorMul => make_port(
                "vector",
                "a vector like: (ax * bx * cx ..., ay * by...)",
                ValType::Vec,
            ),
            CyberNodes::NumberMul => make_port("sum", "a * b * c * d * e", ValType::Number),
            CyberNodes::NumberSub => make_port("sum", "a - b - c - d - e", ValType::Number),
            CyberNodes::Storage => make_port(
                "data",
                "the stored data from the slot `slot`",
                ValType::Any,
            ),
            CyberNodes::Vector => make_port("vector", "the constructed vector", ValType::Vec),
            CyberNodes::VectorNeg => make_port("vector", "the negated vector", ValType::Vec),
            CyberNodes::ListLength => make_port(
                "length",
                "the number of elements in the list",
                ValType::Number,
            ),
            CyberNodes::VectorLen => make_port(
                "length",
                "the length of the vector",
                ValType::Number,
            ),
            CyberNodes::NearbyEntities => make_port(
                "entities",
                "the nearby entities",
                ValType::List,
            ),
            CyberNodes::EntityDirection => make_port(
                "direction",
                "direction of the target",
                ValType::Vec,
            ),
            CyberNodes::EntityPos => make_port(
                "position",
                "position of target entity",
                ValType::Vec,
            ),
            _ => make_port("nothing", "nothing", ValType::Empty),
        }
    }
}

} // verus!
