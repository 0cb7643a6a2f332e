//! What the evaluators of all node kinds share: how a node's result is
//! written down, and how an input is held to the type a port expects.

use crate::board::{lemma_layout_keeps_wf, Board};
use crate::node::{CyberState, StateView};
use crate::value::{CyberError, Scalar, Val, ValView, Vec2};
use vstd::prelude::*;

verus! {

/// The view of a result.
pub open spec fn result_view(r: Result<Val, CyberError>) -> Result<ValView, CyberError> {
    match r {
        Ok(v) => Ok(v@),
        Err(e) => Err(e),
    }
}

/// An input held to be a number.
pub open spec fn number_of(data: Result<ValView, CyberError>) -> Result<Scalar, CyberError> {
    match data {
        Ok(ValView::Number(n)) => Ok(n),
        Ok(_) => Err(CyberError::TypeMismatch),
        Err(e) => Err(e),
    }
}

/// An input held to be a vector.
pub open spec fn vector_of(data: Result<ValView, CyberError>) -> Result<Vec2, CyberError> {
    match data {
        Ok(ValView::Vec(v)) => Ok(v),
        Ok(_) => Err(CyberError::TypeMismatch),
        Err(e) => Err(e),
    }
}

/// An input held to be an entity.
pub open spec fn entity_of(data: Result<ValView, CyberError>) -> Result<u64, CyberError> {
    match data {
        Ok(ValView::Entity(e)) => Ok(e),
        Ok(_) => Err(CyberError::TypeMismatch),
        Err(e) => Err(e),
    }
}

/// An input held to be a list.
pub open spec fn list_of(data: Result<ValView, CyberError>) -> Result<Seq<ValView>, CyberError> {
    match data {
        Ok(ValView::List(l)) => Ok(l),
        Ok(_) => Err(CyberError::TypeMismatch),
        Err(e) => Err(e),
    }
}

impl Board {
    /// Whether `self` came out of `before` by an evaluation of node `i`:
    /// the layout is the same and no other node changed its state or its
    /// charge.
    pub open spec fn evaluated(&self, before: &Board, i: int) -> bool {
        &&& self.same_layout(before)
        &&& forall|k: int|
            0 <= k < before.nodes.len() && k != i ==> (#[trigger] self.nodes[k]).state
                == before.nodes[k].state && self.nodes[k].charge == before.nodes[k].charge
    }

    /// Whether `self` came out of `before` by an evaluation of node `i`
    /// that left the charge of `i` as it was.
    pub open spec fn kept(&self, before: &Board, i: int) -> bool {
        &&& self.evaluated(before, i)
        &&& self.nodes[i].charge == before.nodes[i].charge
    }

    /// Whether `self` came out of `before` by an evaluation of node `i`
    /// that ended with `result` and left the charge of `i` as it was.
    pub open spec fn settled_with(
        &self,
        before: &Board,
        i: int,
        result: Result<ValView, CyberError>,
    ) -> bool {
        &&& self.kept(before, i)
        &&& self.state(i) == StateView::Done(result)
    }

    /// Writes down what came of the evaluation of node `i`.
    pub(crate) fn finish(&mut self, i: usize, result: Result<Val, CyberError>)
        requires
            old(self).wf(),
            i < old(self).nodes.len(),
        ensures
            final(self).wf(),
            final(self).settled_with(old(self), i as int, result_view(result)),
    {
        self.nodes[i].state = CyberState::Done(result);
        proof {
            assert forall|k: int| 0 <= k < self.nodes.len() && k != i implies #[trigger] self.nodes[k]
                == old(self).nodes[k] by {}
            lemma_layout_keeps_wf(old(self), self);
        }
    }

    /// The number that the port `name` of node `i` receives.
    pub fn fetch_number(&self, i: usize, name: &str) -> (r: Result<Scalar, CyberError>)
        requires
            self.wf(),
            i < self.nodes.len(),
        ensures
            r == number_of(self.port_data(i as int, name@)),
    {
        match self.fetch_port_data(i, name) {
            Ok(Val::Number(n)) => Ok(n),
            Ok(_) => Err(CyberError::TypeMismatch),
            Err(e) => Err(e),
        }
    }

    /// The vector that the port `name` of node `i` receives.
    pub fn fetch_vector(&self, i: usize, name: &str) -> (r: Result<Vec2, CyberError>)
        requires
            self.wf(),
            i < self.nodes.len(),
        ensures
            r == vector_of(self.port_data(i as int, name@)),
    {
        match self.fetch_port_data(i, name) {
            Ok(Val::Vec(v)) => Ok(v),
            Ok(_) => Err(CyberError::TypeMismatch),
            Err(e) => Err(e),
        }
    }

    /// The entity that the port `name` of node `i` receives.
    pub fn fetch_entity(&self, i: usize, name: &str) -> (r: Result<u64, CyberError>)
        requires
            self.wf(),
            i < self.nodes.len(),
        ensures
            r == entity_of(self.port_data(i as int, name@)),
    {
        match self.fetch_port_data(i, name) {
            Ok(Val::Entity(e)) => Ok(e),
            Ok(_) => Err(CyberError::TypeMismatch),
            Err(e) => Err(e),
        }
    }

    /// The list that the port `name` of node `i` receives.
    pub fn fetch_list(&self, i: usize, name: &str) -> (r: Result<Vec<Val>, CyberError>)
        requires
            self.wf(),
            i < self.nodes.len(),
        ensures
            r matches Ok(l) ==> list_of(self.port_data(i as int, name@)) == Ok::<
                Seq<ValView>,
                CyberError,
            >(crate::value::views_of(l@)),
            r matches Err(e) ==> list_of(self.port_data(i as int, name@)) == Err::<
                Seq<ValView>,
                CyberError,
            >(e),
    {
        match self.fetch_port_data(i, name) {
            Ok(Val::List(l)) => {
                proof {
                    crate::value::lemma_list_view(Val::List(l));
                }
                Ok(l)
            },
            Ok(_) => Err(CyberError::TypeMismatch),
            Err(e) => Err(e),
        }
    }
}

} // verus!
