//! The evaluators of the kinds that compute: constants, vectors and the
//! reductions over the ports "a" to "e".
//!
//! The crate holds numbers as bit patterns and takes the arithmetic on
//! them from its caller, one function for each operation.

use crate::arith::{folds_to, reduce};
use crate::board::Board;
use crate::eval::{number_of, vector_of};
use crate::node::StateView;
use crate::value::{views_of, CyberError, Scalar, Val, ValView, Vec2};
use vstd::prelude::*;

verus! {

/// The numbers among `vals`, in order.
pub open spec fn numbers_in(vals: Seq<ValView>) -> Seq<Scalar>
    decreases vals.len(),
{
    if vals.len() == 0 {
        Seq::empty()
    } else {
        let rest = numbers_in(vals.drop_last());
        match vals.last() {
            ValView::Number(n) => rest.push(n),
            _ => rest,
        }
    }
}

/// The vectors among `vals`, in order.
pub open spec fn vectors_in(vals: Seq<ValView>) -> Seq<Vec2>
    decreases vals.len(),
{
    if vals.len() == 0 {
        Seq::empty()
    } else {
        let rest = vectors_in(vals.drop_last());
        match vals.last() {
            ValView::Vec(v) => rest.push(v),
            _ => rest,
        }
    }
}

/// The first components of `vs`, in order.
pub open spec fn xs_of(vs: Seq<Vec2>) -> Seq<Scalar> {
    Seq::new(vs.len(), |k: int| vs[k].x)
}

/// The second components of `vs`, in order.
pub open spec fn ys_of(vs: Seq<Vec2>) -> Seq<Scalar> {
    Seq::new(vs.len(), |k: int| vs[k].y)
}

/// Whether `r` is what a reduction of `xs` by `op` gives: zero when there
/// is nothing to reduce, and else a left fold that starts with the first
/// item.
pub open spec fn reduced<F: Fn(Scalar, Scalar) -> Scalar>(
    op: F,
    xs: Seq<Scalar>,
    r: Scalar,
) -> bool {
    if xs.len() == 0 {
        r.bits == 0
    } else {
        folds_to(op, xs, r)
    }
}

/// The numbers among `vals`, in order.
pub fn numbers_of(vals: &Vec<Val>) -> (r: Vec<Scalar>)
    ensures
        r@ == numbers_in(views_of(vals@)),
{
    let mut r: Vec<Scalar> = Vec::new();
    let mut k: usize = 0;
    assert(views_of(vals@.take(0)) =~= Seq::<ValView>::empty());
    while k < vals.len()
        invariant
            k <= vals.len(),
            r@ == numbers_in(views_of(vals@.take(k as int))),
        decreases vals.len() - k,
    {
        proof {
            let longer = views_of(vals@.take(k + 1));
            assert(longer.drop_last() =~= views_of(vals@.take(k as int)));
            assert(longer.last() == vals[k as int]@);
        }
        if let Val::Number(n) = &vals[k] {
            r.push(*n);
        }
        k += 1;
    }
    assert(vals@.take(vals.len() as int) =~= vals@);
    r
}

/// The components of the vectors among `vals`, in order.
pub fn vectors_of(vals: &Vec<Val>) -> (r: (Vec<Scalar>, Vec<Scalar>))
    ensures
        r.0@ == xs_of(vectors_in(views_of(vals@))),
        r.1@ == ys_of(vectors_in(views_of(vals@))),
{
    let mut xs: Vec<Scalar> = Vec::new();
    let mut ys: Vec<Scalar> = Vec::new();
    let mut k: usize = 0;
    assert(views_of(vals@.take(0)) =~= Seq::<ValView>::empty());
    assert(xs@ =~= xs_of(Seq::<Vec2>::empty()));
    assert(ys@ =~= ys_of(Seq::<Vec2>::empty()));
    while k < vals.len()
        invariant
            k <= vals.len(),
            xs@ == xs_of(vectors_in(views_of(vals@.take(k as int)))),
            ys@ == ys_of(vectors_in(views_of(vals@.take(k as int)))),
        decreases vals.len() - k,
    {
        let ghost shorter = vectors_in(views_of(vals@.take(k as int)));
        proof {
            let longer = views_of(vals@.take(k + 1));
            assert(longer.drop_last() =~= views_of(vals@.take(k as int)));
            assert(longer.last() == vals[k as int]@);
        }
        if let Val::Vec(v) = &vals[k] {
            xs.push(v.x);
            ys.push(v.y);
            proof {
                assert(xs@ =~= xs_of(shorter.push(*v)));
                assert(ys@ =~= ys_of(shorter.push(*v)));
            }
        }
        k += 1;
    }
    assert(vals@.take(vals.len() as int) =~= vals@);
    (xs, ys)
}

/// What `reduce` gives, with zero for nothing.
fn reduce_or_zero<F: Fn(Scalar, Scalar) -> Scalar>(xs: &Vec<Scalar>, op: &F) -> (r: Scalar)
    requires
        forall|a: Scalar, b: Scalar| op.requires((a, b)),
    ensures
        reduced(*op, xs@, r),
{
    match reduce(xs, op) {
        Some(v) => v,
        None => Scalar::zero(),
    }
}

impl Board {
    /// What a constant node emits: its embedded constant.
    pub open spec fn constant_result(&self, e: int) -> Result<ValView, CyberError> {
        match self.nodes[e].cfg.constant {
            Some(v) => Ok(v@),
            None => Err(CyberError::MissingConstant),
        }
    }

    /// What a vector constructor emits: the vector of its inputs "x" and
    /// "y".
    pub open spec fn vec_result(&self, e: int) -> Result<ValView, CyberError> {
        match number_of(self.port_data(e, "x"@)) {
            Err(err) => Err(err),
            Ok(x) => match number_of(self.port_data(e, "y"@)) {
                Err(err) => Err(err),
                Ok(y) => Ok(ValView::Vec(Vec2 { x, y })),
            },
        }
    }

    /// What [`Board::constant_tick`] promises: whether `self` is what the
    /// evaluation of node `e` makes of `before`.
    pub open spec fn constant_post(&self, before: &Board, e: int) -> bool {
        self.settled_with(before, e, before.constant_result(e))
    }

    /// Evaluates the constant node `e`: it ends with its embedded
    /// constant, or with an error when it has none. Nothing happens when
    /// there is no node `e`.
    pub fn constant_tick(&mut self, e: usize)
        requires
            old(self).wf(),
        ensures
            final(self).wf(),
            e >= old(self).nodes.len() ==> *final(self) == *old(self),
            e < old(self).nodes.len() ==> final(self).constant_post(old(self), e as int),
    {
        if e >= self.nodes.len() {
            return ;
        }
        let result = match &self.nodes[e].cfg.constant {
            Some(v) => Ok(v.duplicate()),
            None => Err(CyberError::MissingConstant),
        };
        self.finish(e, result);
    }

    /// What [`Board::vec_tick`] promises: whether `self` is what the
    /// evaluation of node `e` makes of `before`.
    pub open spec fn vec_post(&self, before: &Board, e: int) -> bool {
        self.settled_with(before, e, before.vec_result(e))
    }

    /// Evaluates the vector constructor `e`: it ends with the vector made
    /// of the numbers at its ports "x" and "y", or with the error of the
    /// first of the two that is no number. Nothing happens when there is
    /// no node `e`.
    pub fn vec_tick(&mut self, e: usize)
        requires
            old(self).wf(),
        ensures
            final(self).wf(),
            e >= old(self).nodes.len() ==> *final(self) == *old(self),
            e < old(self).nodes.len() ==> final(self).vec_post(old(self), e as int),
    {
        if e >= self.nodes.len() {
            return ;
        }
        let result = match self.fetch_number(e, "x") {
            Err(err) => Err(err),
            Ok(x) => match self.fetch_number(e, "y") {
                Err(err) => Err(err),
                Ok(y) => Ok(Val::Vec(Vec2 { x, y })),
            },
        };
        self.finish(e, result);
    }

    /// What [`Board::vecneg_tick`] promises: whether `self` is what the
    /// evaluation of node `e` makes of `before`.
    pub open spec fn vecneg_post<F: Fn(Scalar) -> Scalar>(
        &self,
        before: &Board,
        e: int,
        neg: F,
    ) -> bool {
        &&& self.kept(before, e)
        &&& match vector_of(before.port_data(e, "vector"@)) {
            Err(err) => self.state(e) == StateView::Done(Err(err)),
            Ok(v) => self.state(e) matches StateView::Done(Ok(ValView::Vec(w))) && neg.ensures(
                (v.x,),
                w.x,
            ) && neg.ensures((v.y,), w.y),
        }
    }

    /// Evaluates the vector negation `e` with the negation `neg`: it ends
    /// with the vector at its port "vector", each component negated, or
    /// with the error of that port. Nothing happens when there is no node
    /// `e`.
    pub fn vecneg_tick<F: Fn(Scalar) -> Scalar>(&mut self, e: usize, neg: &F)
        requires
            old(self).wf(),
            forall|a: Scalar| neg.requires((a,)),
        ensures
            final(self).wf(),
            e >= old(self).nodes.len() ==> *final(self) == *old(self),
            e < old(self).nodes.len() ==> final(self).vecneg_post(old(self), e as int, *neg),
    {
        if e >= self.nodes.len() {
            return ;
        }
        let result = match self.fetch_vector(e, "vector") {
            Err(err) => Err(err),
            Ok(v) => Ok(Val::Vec(Vec2 { x: neg(v.x), y: neg(v.y) })),
        };
        self.finish(e, result);
    }

    /// What [`Board::veclen_tick`] promises: whether `self` is what the
    /// evaluation of node `e` makes of `before`.
    pub open spec fn veclen_post<F: Fn(Scalar, Scalar) -> Scalar>(
        &self,
        before: &Board,
        e: int,
        length: F,
    ) -> bool {
        &&& self.kept(before, e)
        &&& match vector_of(before.port_data(e, "vector"@)) {
            Err(err) => self.state(e) == StateView::Done(Err(err)),
            Ok(v) => self.state(e) matches StateView::Done(Ok(ValView::Number(l)))
                && length.ensures((v.x, v.y), l),
        }
    }

    /// Evaluates the vector length `e` with the magnitude `length`: it
    /// ends with the magnitude of the vector at its port "vector", or with
    /// the error of that port. Nothing happens when there is no node `e`.
    pub fn veclen_tick<F: Fn(Scalar, Scalar) -> Scalar>(&mut self, e: usize, length: &F)
        requires
            old(self).wf(),
            forall|a: Scalar, b: Scalar| length.requires((a, b)),
        ensures
            final(self).wf(),
            e >= old(self).nodes.len() ==> *final(self) == *old(self),
            e < old(self).nodes.len() ==> final(self).veclen_post(old(self), e as int, *length),
    {
        if e >= self.nodes.len() {
            return ;
        }
        let result = match self.fetch_vector(e, "vector") {
            Err(err) => Err(err),
            Ok(v) => Ok(Val::Number(length(v.x, v.y))),
        };
        self.finish(e, result);
    }

    /// What [`Board::numsub_tick`] promises: whether `self` is what the
    /// evaluation of node `e` makes of `before`.
    pub open spec fn numsub_post<F: Fn(Scalar, Scalar) -> Scalar>(
        &self,
        before: &Board,
        e: int,
        sub: F,
    ) -> bool {
        &&& self.kept(before, e)
        &&& self.state(e) matches StateView::Done(Ok(ValView::Number(r))) && reduced(
            sub,
            numbers_in(before.slot_data(e)),
            r,
        )
    }

    /// Evaluates the subtraction `e` with the difference `sub`: it ends
    /// with the numbers at its ports "a" to "e" folded from the left, the
    /// first less the second less the third and so on. Ports that hold no
    /// number are passed over; with no number at all it ends with zero.
    /// Nothing happens when there is no node `e`.
    pub fn numsub_tick<F: Fn(Scalar, Scalar) -> Scalar>(&mut self, e: usize, sub: &F)
        requires
            old(self).wf(),
            forall|a: Scalar, b: Scalar| sub.requires((a, b)),
        ensures
            final(self).wf(),
            e >= old(self).nodes.len() ==> *final(self) == *old(self),
            e < old(self).nodes.len() ==> final(self).numsub_post(old(self), e as int, *sub),
    {
        if e >= self.nodes.len() {
            return ;
        }
        let vals = self.slot_values(e);
        let numbers = numbers_of(&vals);
        let r = reduce_or_zero(&numbers, sub);
        self.finish(e, Ok(Val::Number(r)));
    }

    /// What [`Board::nummul_tick`] promises: whether `self` is what the
    /// evaluation of node `e` makes of `before`.
    pub open spec fn nummul_post<F: Fn(Scalar, Scalar) -> Scalar>(
        &self,
        before: &Board,
        e: int,
        mul: F,
    ) -> bool {
        &&& self.kept(before, e)
        &&& self.state(e) matches StateView::Done(Ok(ValView::Number(r))) && reduced(
            mul,
            numbers_in(before.slot_data(e)),
            r,
        )
    }

    /// Evaluates the product `e` with the product `mul`: it ends with the
    /// numbers at its ports "a" to "e" multiplied from the left. Ports
    /// that hold no number are passed over; with no number at all it ends
    /// with zero. Nothing happens when there is no node `e`.
    pub fn nummul_tick<F: Fn(Scalar, Scalar) -> Scalar>(&mut self, e: usize, mul: &F)
        requires
            old(self).wf(),
            forall|a: Scalar, b: Scalar| mul.requires((a, b)),
        ensures
            final(self).wf(),
            e >= old(self).nodes.len() ==> *final(self) == *old(self),
            e < old(self).nodes.len() ==> final(self).nummul_post(old(self), e as int, *mul),
    {
        if e >= self.nodes.len() {
            return ;
        }
        let vals = self.slot_values(e);
        let numbers = numbers_of(&vals);
        let r = reduce_or_zero(&numbers, mul);
        self.finish(e, Ok(Val::Number(r)));
    }

    /// What [`Board::vecmul_tick`] promises: whether `self` is what the
    /// evaluation of node `e` makes of `before`.
    pub open spec fn vecmul_post<F: Fn(Scalar, Scalar) -> Scalar>(
        &self,
        before: &Board,
        e: int,
        mul: F,
    ) -> bool {
        &&& self.kept(before, e)
        &&& self.state(e) matches StateView::Done(Ok(ValView::Vec(w))) && reduced(
            mul,
            xs_of(vectors_in(before.slot_data(e))),
            w.x,
        ) && reduced(mul, ys_of(vectors_in(before.slot_data(e))), w.y)
    }

    /// Evaluates the vector product `e` with the product `mul`: it ends
    /// with the vectors at its ports "a" to "e" multiplied component by
    /// component from the left. Ports that hold no vector are passed over;
    /// with no vector at all it ends with the zero vector. Nothing happens
    /// when there is no node `e`.
    pub fn vecmul_tick<F: Fn(Scalar, Scalar) -> Scalar>(&mut self, e: usize, mul: &F)
        requires
            old(self).wf(),
            forall|a: Scalar, b: Scalar| mul.requires((a, b)),
        ensures
            final(self).wf(),
            e >= old(self).nodes.len() ==> *final(self) == *old(self),
            e < old(self).nodes.len() ==> final(self).vecmul_post(old(self), e as int, *mul),
    {
        if e >= self.nodes.len() {
            return ;
        }
        let vals = self.slot_values(e);
        let (xs, ys) = vectors_of(&vals);
        let x = reduce_or_zero(&xs, mul);
        let y = reduce_or_zero(&ys, mul);
        self.finish(e, Ok(Val::Vec(Vec2 { x, y })));
    }
}

} // verus!
