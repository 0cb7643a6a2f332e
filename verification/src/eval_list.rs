//! The evaluators of the kinds that handle lists, and of the debug node.

use crate::board::Board;
use crate::effects::{effect_view, Effect, EffectView};
use crate::eval::list_of;
use crate::node::StateView;
use crate::value::{lemma_list_view, views_of, Scalar, Val, ValView};
use vstd::prelude::*;

verus! {

/// What an input adds to a constructed list: nothing if it is empty, its
/// items if it is a list, and else itself.
pub open spec fn spread(v: ValView) -> Seq<ValView> {
    match v {
        ValView::Empty => Seq::empty(),
        ValView::List(l) => l,
        _ => seq![v],
    }
}

/// `vals` with every list among them replaced by its items and every
/// empty value dropped. Lists inside those lists stay as they are.
pub open spec fn flattened(vals: Seq<ValView>) -> Seq<ValView>
    decreases vals.len(),
{
    if vals.len() == 0 {
        Seq::empty()
    } else {
        flattened(vals.drop_last()) + spread(vals.last())
    }
}

/// Appends copies of the items of `items` to `out`.
fn extend_with(out: &mut Vec<Val>, items: &Vec<Val>)
    ensures
        views_of(final(out)@) == views_of(old(out)@) + views_of(items@),
{
    let mut k: usize = 0;
    assert(views_of(out@) =~= views_of(old(out)@) + views_of(items@.take(0)));
    while k < items.len()
        invariant
            k <= items.len(),
            views_of(out@) == views_of(old(out)@) + views_of(items@.take(k as int)),
        decreases items.len() - k,
    {
        let ghost before = out@;
        out.push(items[k].duplicate());
        proof {
            assert(views_of(out@) =~= views_of(before).push(items[k as int]@));
            assert(views_of(items@.take(k + 1)) =~= views_of(items@.take(k as int)).push(
                items[k as int]@,
            ));
            assert(views_of(out@) =~= views_of(old(out)@) + views_of(items@.take(k + 1)));
        }
        k += 1;
    }
    assert(items@.take(items.len() as int) =~= items@);
}

/// The list of `vals` with lists among them flattened by one level and
/// empty values dropped.
pub fn flatten(vals: &Vec<Val>) -> (out: Vec<Val>)
    ensures
        views_of(out@) == flattened(views_of(vals@)),
{
    let mut out: Vec<Val> = Vec::new();
    let mut k: usize = 0;
    assert(views_of(vals@.take(0)) =~= Seq::<ValView>::empty());
    assert(views_of(out@) =~= Seq::<ValView>::empty());
    while k < vals.len()
        invariant
            k <= vals.len(),
            views_of(out@) == flattened(views_of(vals@.take(k as int))),
        decreases vals.len() - k,
    {
        proof {
            let longer = views_of(vals@.take(k + 1));
            assert(longer.drop_last() =~= views_of(vals@.take(k as int)));
            assert(longer.last() == vals[k as int]@);
        }
        let ghost before = out@;
        match &vals[k] {
            Val::Empty => {
                assert(views_of(out@) + Seq::<ValView>::empty() =~= views_of(out@));
            },
            Val::List(l) => {
                proof {
                    lemma_list_view(vals[k as int]);
                }
                extend_with(&mut out, l);
            },
            other => {
                out.push(other.duplicate());
                assert(views_of(out@) =~= views_of(before) + seq![vals[k as int]@]);
            },
        }
        k += 1;
    }
    assert(vals@.take(vals.len() as int) =~= vals@);
    out
}

impl Board {
    /// What [`Board::list_tick`] promises: whether `self` is what the
    /// evaluation of node `e` makes of `before`.
    pub open spec fn list_post(&self, before: &Board, e: int) -> bool {
        self.settled_with(before, e, Ok(ValView::List(flattened(before.slot_data(e)))))
    }

    /// Evaluates the list constructor `e`: it ends with the list of the
    /// values at its ports "a" to "e", in that order, where a list among
    /// them gives its items in its place and an empty value gives
    /// nothing. Nothing happens when there is no node `e`.
    pub fn list_tick(&mut self, e: usize)
        requires
            old(self).wf(),
        ensures
            final(self).wf(),
            e >= old(self).nodes.len() ==> *final(self) == *old(self),
            e < old(self).nodes.len() ==> final(self).list_post(old(self), e as int),
    {
        if e >= self.nodes.len() {
            return ;
        }
        let vals = self.slot_values(e);
        let out = flatten(&vals);
        let result = Val::List(out);
        proof {
            lemma_list_view(result);
        }
        self.finish(e, Ok(result));
    }

    /// What [`Board::listlen_tick`] promises: whether `self` is what the
    /// evaluation of node `e` makes of `before`.
    pub open spec fn listlen_post<F: Fn(usize) -> Scalar>(
        &self,
        before: &Board,
        e: int,
        from_count: F,
    ) -> bool {
        &&& self.kept(before, e)
        &&& match list_of(before.port_data(e, "list"@)) {
            Err(err) => self.state(e) == StateView::Done(Err(err)),
            Ok(l) => self.state(e) matches StateView::Done(Ok(ValView::Number(n)))
                && from_count.ensures((l.len() as usize,), n),
        }
    }

    /// Evaluates the list length `e` with the conversion `from_count` of
    /// a count to a number: it ends with the number of items of the list
    /// at its port "list", or with the error of that port. Nothing happens
    /// when there is no node `e`.
    pub fn listlen_tick<F: Fn(usize) -> Scalar>(&mut self, e: usize, from_count: &F)
        requires
            old(self).wf(),
            forall|n: usize| from_count.requires((n,)),
        ensures
            final(self).wf(),
            e >= old(self).nodes.len() ==> *final(self) == *old(self),
            e < old(self).nodes.len() ==> final(self).listlen_post(
                old(self),
                e as int,
                *from_count,
            ),
    {
        if e >= self.nodes.len() {
            return ;
        }
        let result = match self.fetch_list(e, "list") {
            Err(err) => Err(err),
            Ok(l) => Ok(Val::Number(from_count(l.len()))),
        };
        self.finish(e, result);
    }

    /// What [`Board::debug_tick`] promises: whether `self` is what the
    /// evaluation of node `e` makes of `before`.
    pub open spec fn debug_post(&self, before: &Board, e: int, fx: Option<Effect>) -> bool {
        &&& self.settled_with(before, e, Ok(ValView::Empty))
        &&& effect_view(fx) == Some(EffectView::Log(before.slot_data(e)))
    }

    /// Evaluates the debug node `e`: it ends with the empty value and asks
    /// for the values at its ports "a" to "e" to be shown. Nothing happens
    /// when there is no node `e`.
    pub fn debug_tick(&mut self, e: usize) -> (fx: Option<Effect>)
        requires
            old(self).wf(),
        ensures
            final(self).wf(),
            e >= old(self).nodes.len() ==> *final(self) == *old(self) && fx.is_none(),
            e < old(self).nodes.len() ==> final(self).debug_post(old(self), e as int, fx),
    {
        if e >= self.nodes.len() {
            return None;
        }
        let vals = self.slot_values(e);
        self.finish(e, Ok(Val::Empty));
        Some(Effect::Log(vals))
    }

    /// What [`Board::idle_tick`] promises: whether `self` is what the
    /// evaluation of node `e` makes of `before`.
    pub open spec fn idle_post(&self, before: &Board, e: int) -> bool {
        self.settled_with(before, e, Ok(ValView::Empty))
    }

    /// Evaluates a node of a kind that does nothing yet: it ends with the
    /// empty value. Nothing happens when there is no node `e`.
    pub fn idle_tick(&mut self, e: usize)
        requires
            old(self).wf(),
        ensures
            final(self).wf(),
            e >= old(self).nodes.len() ==> *final(self) == *old(self),
            e < old(self).nodes.len() ==> final(self).idle_post(old(self), e as int),
    {
        if e >= self.nodes.len() {
            return ;
        }
        self.finish(e, Ok(Val::Empty));
    }
}

} // verus!
