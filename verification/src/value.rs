//! The values that flow between nodes, and the errors a node can end in.

use vstd::prelude::*;

verus! {

/// A single-precision number, held as its IEEE 754 bit pattern. The crate
/// moves such numbers around and hands them to the arithmetic its caller
/// supplies; it never interprets the bits itself.
#[derive(Clone, Copy, Debug, PartialEq, Eq, Structural)]
pub struct Scalar {
    pub bits: u32,
}

impl Scalar {
    /// The number whose bits are all zero, which is positive zero.
    pub fn zero() -> (s: Scalar)
        ensures
            s.bits == 0,
    {
        Scalar { bits: 0 }
    }
}

/// A pair of numbers: a direction, or a place in fractional grid
/// coordinates.
#[derive(Clone, Copy, Debug, PartialEq, Eq, Structural)]
pub struct Vec2 {
    pub x: Scalar,
    pub y: Scalar,
}

/// The type a port declares for the values it carries.
#[derive(Clone, Copy, Debug, PartialEq, Eq, Structural)]
pub enum ValType {
    Empty,
    Any,
    Entity,
    Vec,
    Number,
    Text,
    List,
}

/// The name of a type as it is shown to a player.
pub open spec fn type_label(t: ValType) -> Seq<char> {
    match t {
        ValType::Empty => "Empty"@,
        ValType::Any => "Any"@,
        ValType::Entity => "Entity"@,
        ValType::Vec => "Vec"@,
        ValType::Number => "Number"@,
        ValType::Text => "Text"@,
        ValType::List => "List"@,
    }
}

impl ValType {
    /// The name of the type as it is shown to a player.
    pub fn label(self) -> (s: String)
        ensures
            s@ == type_label(self),
    {
        match self {
            ValType::Empty => "Empty".to_owned(),
            ValType::Any => "Any".to_owned(),
            ValType::Entity => "Entity".to_owned(),
            ValType::Vec => "Vec".to_owned(),
            ValType::Number => "Number".to_owned(),
            ValType::Text => "Text".to_owned(),
            ValType::List => "List".to_owned(),
        }
    }
}

/// A runtime value produced by a node.
#[derive(Debug, PartialEq)]
pub enum Val {
    Empty,
    Entity(u64),
    Vec(Vec2),
    Number(Scalar),
    Text(String),
    List(Vec<Val>),
}

/// The mathematical content of a [`Val`].
pub enum ValView {
    Empty,
    Entity(u64),
    Vec(Vec2),
    Number(Scalar),
    Text(Seq<char>),
    List(Seq<ValView>),
}

/// Why a node ended a round without a value.
#[derive(Clone, Copy, Debug, PartialEq, Eq, Structural)]
pub enum CyberError {
    /// A required input port is bound to no direction.
    UnconfiguredPort,
    /// The bound direction leads off the board or to a cell without a node.
    UnresolvedNeighbor,
    /// The neighbour holds no successful result for this round.
    UpstreamNotDone,
    /// The neighbour's value is not of the variant the port expects.
    TypeMismatch,
    /// The entity referred to no longer exists.
    TargetVanished,
    /// The destination cell already has an occupant.
    OccupiedDestination,
    /// The destination lies off the board.
    OutOfBounds,
    /// The node has no embedded constant to emit.
    MissingConstant,
    /// No targetable entity lies within range.
    NothingInRange,
}

/// The views of the first `n` items of `l`, in order.
pub open spec fn items_view(l: Vec<Val>, n: nat) -> Seq<ValView>
    decreases l, n,
{
    if n == 0 || n > l.len() {
        Seq::empty()
    } else {
        items_view(l, (n - 1) as nat).push(val_view(l[n - 1]))
    }
}

/// The mathematical content of `v`.
pub open spec fn val_view(v: Val) -> ValView
    decreases v,
{
    match v {
        Val::Empty => ValView::Empty,
        Val::Entity(e) => ValView::Entity(e),
        Val::Vec(v) => ValView::Vec(v),
        Val::Number(n) => ValView::Number(n),
        Val::Text(t) => ValView::Text(t@),
        Val::List(l) => ValView::List(items_view(l, l.len() as nat)),
    }
}

impl View for Val {
    type V = ValView;

    open spec fn view(&self) -> ValView {
        val_view(*self)
    }
}

/// The views of the items of a list of values, in order.
pub open spec fn views_of(vals: Seq<Val>) -> Seq<ValView> {
    Seq::new(vals.len(), |i: int| vals[i]@)
}

/// `items_view` lists the views of the items one by one.
pub proof fn lemma_items_view(l: Vec<Val>, n: nat)
    requires
        n <= l.len(),
    ensures
        items_view(l, n).len() == n,
        forall|i: int| 0 <= i < n ==> (#[trigger] items_view(l, n)[i]) == l[i]@,
    decreases n,
{
    if n > 0 {
        lemma_items_view(l, (n - 1) as nat);
    }
}

/// The view of a list is the sequence of its items' views.
pub proof fn lemma_list_view(v: Val)
    requires
        v is List,
    ensures
        v@ == ValView::List(views_of(v->List_0@)),
{
    let l = v->List_0;
    lemma_items_view(l, l.len() as nat);
    assert(items_view(l, l.len() as nat) =~= views_of(l@));
}

impl Val {
    /// The declared type that this value's variant belongs to.
    pub fn val_type(&self) -> (t: ValType)
        ensures
            t == spec_val_type(self@),
    {
        match self {
            Val::Empty => ValType::Empty,
            Val::Entity(_) => ValType::Entity,
            Val::Vec(_) => ValType::Vec,
            Val::Number(_) => ValType::Number,
            Val::Text(_) => ValType::Text,
            Val::List(_) => ValType::List,
        }
    }

    /// An independent copy of the value, nested lists included.
    pub fn duplicate(&self) -> (r: Val)
        ensures
            r@ == self@,
        decreases self,
    {
        match self {
            Val::Empty => Val::Empty,
            Val::Entity(e) => Val::Entity(*e),
            Val::Vec(v) => Val::Vec(*v),
            Val::Number(n) => Val::Number(*n),
            Val::Text(t) => Val::Text(t.clone()),
            Val::List(l) => {
                let mut out: Vec<Val> = Vec::new();
                let mut i: usize = 0;
                while i < l.len()
                    invariant
                        *self == Val::List(*l),
                        i <= l.len(),
                        out.len() == i,
                        forall|j: int| 0 <= j < i ==> (#[trigger] out[j])@ == l[j]@,
                    decreases l.len() - i,
                {
                    proof {
                        assert(decreases_to!(*self => self->List_0));
                        assert(decreases_to!(*l => l[i as int]));
                    }
                    let item = l[i].duplicate();
                    out.push(item);
                    i += 1;
                }
                let r = Val::List(out);
                proof {
                    lemma_list_view(r);
                    lemma_list_view(*self);
                    assert(views_of(out@) =~= views_of(l@));
                }
                r
            },
        }
    }
}

/// The declared type of a value, told from its content.
pub open spec fn spec_val_type(v: ValView) -> ValType {
    match v {
        ValView::Empty => ValType::Empty,
        ValView::Entity(_) => ValType::Entity,
        ValView::Vec(_) => ValType::Vec,
        ValView::Number(_) => ValType::Number,
        ValView::Text(_) => ValType::Text,
        ValView::List(_) => ValType::List,
    }
}

} // verus!
