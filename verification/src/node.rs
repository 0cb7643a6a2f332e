//! A placed node: its kind, its wiring, where it stands and the state it is
//! in.

use crate::hex::HexPos;
use crate::ports::PortCfg;
use crate::value::{CyberError, Val, ValView};
use vstd::prelude::*;

verus! {

/// The lifecycle state of a node.
#[derive(Debug, PartialEq)]
pub enum CyberState {
    /// Eligible, not asked to run.
    Idle,
    /// A heartbeat asked the node to run.
    ActivationRequest,
    /// The node was found ready and its evaluation is under way.
    Triggered,
    /// The node ran; this is what came of it.
    Done(Result<Val, CyberError>),
    /// No heart reaches the node; heartbeats pass it by.
    Disabled,
}

/// The content of a [`CyberState`].
pub enum StateView {
    Idle,
    ActivationRequest,
    Triggered,
    Done(Result<ValView, CyberError>),
    Disabled,
}

impl View for CyberState {
    type V = StateView;

    open spec fn view(&self) -> StateView {
        match self {
            CyberState::Idle => StateView::Idle,
            CyberState::ActivationRequest => StateView::ActivationRequest,
            CyberState::Triggered => StateView::Triggered,
            CyberState::Done(Ok(v)) => StateView::Done(Ok(v@)),
            CyberState::Done(Err(e)) => StateView::Done(Err(*e)),
            CyberState::Disabled => StateView::Disabled,
        }
    }
}

impl StateView {
    /// Whether the state holds a value.
    pub open spec fn has_value(self) -> bool {
        self matches StateView::Done(Ok(_))
    }
}

impl CyberState {
    /// Whether the node is disabled.
    pub fn is_disabled(&self) -> (b: bool)
        ensures
            b == (self@ == StateView::Disabled),
    {
        match self {
            CyberState::Disabled => true,
            _ => false,
        }
    }

    /// Whether the node waits to be run.
    pub fn is_requested(&self) -> (b: bool)
        ensures
            b == (self@ == StateView::ActivationRequest),
    {
        match self {
            CyberState::ActivationRequest => true,
            _ => false,
        }
    }

    /// Whether the node ran and holds a value.
    pub fn has_value(&self) -> (b: bool)
        ensures
            b == self@.has_value(),
    {
        match self {
            CyberState::Done(Ok(_)) => true,
            _ => false,
        }
    }

    /// A copy of the value the node holds, if it holds one.
    pub fn value(&self) -> (v: Option<Val>)
        ensures
            v.is_some() == self@.has_value(),
            v matches Some(val) ==> self@ == StateView::Done(Ok(val@)),
    {
        match self {
            CyberState::Done(Ok(v)) => Some(v.duplicate()),
            _ => None,
        }
    }
}

/// The kind of a node, by its index in the registry.
#[derive(Clone, Copy, Debug, PartialEq, Eq, Structural)]
pub struct MetaLink(pub usize);

/// A node instance.
#[derive(Debug)]
pub struct NodeBundle {
    pub meta: MetaLink,
    pub cfg: PortCfg,
    pub state: CyberState,
    pub pos: HexPos,
    /// Heartbeats gathered since the node last discharged; only a plasma
    /// cannon counts.
    pub charge: u32,
}

impl NodeBundle {
    /// A node of kind `meta` at `pos`, unwired, idle and without charge.
    pub fn new(meta: MetaLink, pos: HexPos) -> (n: NodeBundle)
        ensures
            n.meta == meta,
            n.pos == pos,
            n.cfg.wf(),
            n.cfg.unwired(),
            n.cfg.constant.is_none(),
            n.state@ == StateView::Idle,
            n.charge == 0,
    {
        NodeBundle { meta, cfg: PortCfg::new(), state: CyberState::Idle, pos, charge: 0 }
    }
}

} // verus!
