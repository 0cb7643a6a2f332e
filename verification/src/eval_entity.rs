//! The evaluators of the kinds that look at the entities of the world.

use crate::board::{lemma_within_in_range, Board};
use crate::effects::{find_target, target_named, TargetableEntity, SIGHT};
use crate::eval::{entity_of, number_of};
use crate::hex::{hex_distance, HexPos};
use crate::node::StateView;
use crate::value::{lemma_list_view, CyberError, Scalar, Val, ValView};
use vstd::prelude::*;

verus! {

/// Steps from `pos` to the cell of `t`.
pub open spec fn steps_to(pos: HexPos, t: TargetableEntity) -> int {
    hex_distance(t.cell.x as int, t.cell.y as int, pos.x as int, pos.y as int)
}

/// Whether a node at `pos` sees `t`: the cell of `t` is at most
/// [`SIGHT`] steps away.
pub open spec fn sees(pos: HexPos, t: TargetableEntity) -> bool {
    t.cell.in_range() && steps_to(pos, t) <= SIGHT
}

/// The position of the entity nearest to `pos` among the first `n` that a
/// node at `pos` sees, the first of them if several are equally near.
pub open spec fn closest(pos: HexPos, targets: Seq<TargetableEntity>, n: nat) -> Option<int>
    decreases n,
{
    if n == 0 {
        None
    } else {
        let k = (n - 1) as int;
        let before = closest(pos, targets, (n - 1) as nat);
        if !sees(pos, targets[k]) {
            before
        } else {
            match before {
                None => Some(k),
                Some(p) => if steps_to(pos, targets[k]) < steps_to(pos, targets[p]) {
                    Some(k)
                } else {
                    Some(p)
                },
            }
        }
    }
}

/// The entities among the first `n` that a node at `pos` sees, as values
/// and in order.
pub open spec fn nearby(pos: HexPos, targets: Seq<TargetableEntity>, n: nat) -> Seq<ValView>
    decreases n,
{
    if n == 0 {
        Seq::empty()
    } else {
        let k = (n - 1) as int;
        let before = nearby(pos, targets, (n - 1) as nat);
        if sees(pos, targets[k]) {
            before.push(ValView::Entity(targets[k].id))
        } else {
            before
        }
    }
}

/// Whether `out` lists the entities among the first `n` that a node at
/// `pos` sees and that `at_most` finds within `range`, as values and in
/// order.
pub open spec fn nearby_within<B: Fn(u32, Scalar) -> bool>(
    pos: HexPos,
    targets: Seq<TargetableEntity>,
    n: nat,
    range: Scalar,
    at_most: B,
    out: Seq<ValView>,
) -> bool
    decreases n,
{
    if n == 0 {
        out.len() == 0
    } else {
        let k = (n - 1) as int;
        if !sees(pos, targets[k]) {
            nearby_within(pos, targets, (n - 1) as nat, range, at_most, out)
        } else {
            let d = steps_to(pos, targets[k]) as u32;
            ||| (at_most.ensures((d, range), true) && out.len() > 0 && out.last()
                == ValView::Entity(targets[k].id) && nearby_within(
                pos,
                targets,
                (n - 1) as nat,
                range,
                at_most,
                out.drop_last(),
            ))
            ||| (at_most.ensures((d, range), false) && nearby_within(
                pos,
                targets,
                (n - 1) as nat,
                range,
                at_most,
                out,
            ))
        }
    }
}

/// What [`closest`] picks is seen, no entity that is seen is nearer, and
/// none that is equally near comes before it. It picks nothing only when
/// nothing is seen.
pub proof fn lemma_closest_is_nearest(pos: HexPos, targets: Seq<TargetableEntity>, n: nat)
    requires
        n <= targets.len(),
    ensures
        closest(pos, targets, n) matches Some(p) ==> 0 <= p < n && sees(pos, targets[p])
            && forall|j: int|
            0 <= j < n && sees(pos, #[trigger] targets[j]) ==> steps_to(pos, targets[p])
                <= steps_to(pos, targets[j]) && (steps_to(pos, targets[p]) == steps_to(
                pos,
                targets[j],
            ) ==> p <= j),
        closest(pos, targets, n).is_none() ==> forall|j: int|
            0 <= j < n ==> !sees(pos, #[trigger] targets[j]),
    decreases n,
{
    if n > 0 {
        lemma_closest_is_nearest(pos, targets, (n - 1) as nat);
    }
}

/// Whether a node at `pos` sees `t`.
pub fn in_sight(pos: HexPos, t: &TargetableEntity) -> (r: Option<i32>)
    requires
        pos.in_range(),
    ensures
        r.is_some() == sees(pos, *t),
        r matches Some(d) ==> d == steps_to(pos, *t),
{
    match t.cell.distance_to(pos) {
        Some(d) => if d <= SIGHT {
            Some(d)
        } else {
            None
        },
        None => None,
    }
}

impl Board {
    /// What an entity position node emits: where the entity at its port
    /// "target" is.
    pub open spec fn entity_pos_result(&self, e: int, targets: Seq<TargetableEntity>) -> Result<
        ValView,
        CyberError,
    > {
        match entity_of(self.port_data(e, "target"@)) {
            Err(err) => Err(err),
            Ok(id) => match target_named(targets, id) {
                None => Err(CyberError::TargetVanished),
                Some(t) => Ok(ValView::Vec(t.pos)),
            },
        }
    }

    /// What an entity direction node emits: where the entity at its port
    /// "target" is heading.
    pub open spec fn entity_dir_result(&self, e: int, targets: Seq<TargetableEntity>) -> Result<
        ValView,
        CyberError,
    > {
        match entity_of(self.port_data(e, "target"@)) {
            Err(err) => Err(err),
            Ok(id) => match target_named(targets, id) {
                None => Err(CyberError::TargetVanished),
                Some(t) => Ok(ValView::Vec(t.dir)),
            },
        }
    }

    /// What a closest entity node emits: the entity nearest to it that it
    /// sees.
    pub open spec fn closest_result(&self, e: int, targets: Seq<TargetableEntity>) -> Result<
        ValView,
        CyberError,
    > {
        match closest(self.nodes[e].pos, targets, targets.len()) {
            Some(p) => Ok(ValView::Entity(targets[p].id)),
            None => Err(CyberError::NothingInRange),
        }
    }

    /// What [`Board::closest_tick`] promises: whether `self` is what the
    /// evaluation of node `e` makes of `before`.
    pub open spec fn closest_post(
        &self,
        before: &Board,
        e: int,
        targets: Seq<TargetableEntity>,
    ) -> bool {
        self.settled_with(before, e, before.closest_result(e, targets))
    }

    /// Evaluates the closest entity node `e`: it ends with the entity
    /// nearest to it among those at most [`SIGHT`] steps away, the first
    /// in `targets` if several are equally near, or with an error when
    /// there is none. Nothing happens when there is no node `e`.
    pub fn closest_tick(&mut self, e: usize, targets: &Vec<TargetableEntity>)
        requires
            old(self).wf(),
        ensures
            final(self).wf(),
            e >= old(self).nodes.len() ==> *final(self) == *old(self),
            e < old(self).nodes.len() ==> final(self).closest_post(old(self), e as int, targets@),
    {
        if e >= self.nodes.len() {
            return ;
        }
        proof {
            assert(self.node_wf(e as int));
            lemma_within_in_range(self.radius(), self.nodes[e as int].pos);
        }
        let pos = self.nodes[e].pos;
        let mut best: Option<(usize, i32)> = None;
        let mut k: usize = 0;
        while k < targets.len()
            invariant
                k <= targets.len(),
                pos.in_range(),
                best.is_some() == closest(pos, targets@, k as nat).is_some(),
                best matches Some(b) ==> closest(pos, targets@, k as nat) == Some(b.0 as int)
                    && b.0 < k && b.1 == steps_to(pos, targets[b.0 as int]),
            decreases targets.len() - k,
        {
            if let Some(d) = in_sight(pos, &targets[k]) {
                best = match best {
                    None => Some((k, d)),
                    Some(b) => if d < b.1 {
                        Some((k, d))
                    } else {
                        Some(b)
                    },
                };
            }
            k += 1;
        }
        let result = match best {
            Some(b) => Ok(Val::Entity(targets[b.0].id)),
            None => Err(CyberError::NothingInRange),
        };
        self.finish(e, result);
    }

    /// What [`Board::nearby_tick`] promises: whether `self` is what the
    /// evaluation of node `e` makes of `before`.
    pub open spec fn nearby_post<B: Fn(u32, Scalar) -> bool>(
        &self,
        before: &Board,
        e: int,
        targets: Seq<TargetableEntity>,
        at_most: B,
    ) -> bool {
        &&& self.kept(before, e)
        &&& match number_of(before.port_data(e, "range"@)) {
            Err(_) => self.state(e) == StateView::Done(
                Ok(ValView::List(nearby(before.nodes[e].pos, targets, targets.len()))),
            ),
            Ok(range) => self.state(e) matches StateView::Done(Ok(ValView::List(l))) && nearby_within(
                before.nodes[e].pos,
                targets,
                targets.len(),
                range,
                at_most,
                l,
            ),
        }
    }

    /// Evaluates the nearby entities node `e`: it ends with the list of
    /// the entities at most [`SIGHT`] steps away, in the order of
    /// `targets`. With a number at its port "range", only those of them
    /// stay whose distance in steps is at most that number, as `at_most`
    /// tells. Nothing happens when there is no node `e`.
    pub fn nearby_tick<B: Fn(u32, Scalar) -> bool>(
        &mut self,
        e: usize,
        targets: &Vec<TargetableEntity>,
        at_most: &B,
    )
        requires
            old(self).wf(),
            forall|n: u32, t: Scalar| at_most.requires((n, t)),
        ensures
            final(self).wf(),
            e >= old(self).nodes.len() ==> *final(self) == *old(self),
            e < old(self).nodes.len() ==> final(self).nearby_post(
                old(self),
                e as int,
                targets@,
                *at_most,
            ),
    {
        if e >= self.nodes.len() {
            return ;
        }
        proof {
            assert(self.node_wf(e as int));
            lemma_within_in_range(self.radius(), self.nodes[e as int].pos);
        }
        let pos = self.nodes[e].pos;
        let limit = match self.fetch_number(e, "range") {
            Ok(range) => Some(range),
            Err(_) => None,
        };
        let mut seen: Vec<Val> = Vec::new();
        let mut k: usize = 0;
        assert(crate::value::views_of(seen@) =~= nearby(pos, targets@, 0));
        while k < targets.len()
            invariant
                k <= targets.len(),
                pos.in_range(),
                forall|n: u32, t: Scalar| at_most.requires((n, t)),
                limit.is_none() ==> crate::value::views_of(seen@) == nearby(pos, targets@, k as nat),
                limit matches Some(range) ==> nearby_within(
                    pos,
                    targets@,
                    k as nat,
                    range,
                    *at_most,
                    crate::value::views_of(seen@),
                ),
            decreases targets.len() - k,
        {
            if let Some(d) = in_sight(pos, &targets[k]) {
                let keep = match limit {
                    Some(range) => at_most(d as u32, range),
                    None => true,
                };
                if keep {
                    let ghost earlier = seen@;
                    seen.push(Val::Entity(targets[k].id));
                    assert(crate::value::views_of(seen@) =~= crate::value::views_of(earlier).push(
                        ValView::Entity(targets[k as int].id),
                    ));
                    assert(crate::value::views_of(seen@).drop_last() =~= crate::value::views_of(
                        earlier,
                    ));
                }
            }
            k += 1;
        }
        let result = Val::List(seen);
        proof {
            lemma_list_view(result);
        }
        self.finish(e, Ok(result));
    }

    /// What [`Board::entity_pos_tick`] promises: whether `self` is what the
    /// evaluation of node `e` makes of `before`.
    pub open spec fn entity_pos_post(
        &self,
        before: &Board,
        e: int,
        targets: Seq<TargetableEntity>,
    ) -> bool {
        self.settled_with(before, e, before.entity_pos_result(e, targets))
    }

    /// Evaluates the entity position node `e`: it ends with the place of
    /// the entity at its port "target", with the error of that port, or
    /// with an error when no such entity is left. Nothing happens when
    /// there is no node `e`.
    pub fn entity_pos_tick(&mut self, e: usize, targets: &Vec<TargetableEntity>)
        requires
            old(self).wf(),
        ensures
            final(self).wf(),
            e >= old(self).nodes.len() ==> *final(self) == *old(self),
            e < old(self).nodes.len() ==> final(self).entity_pos_post(
                old(self),
                e as int,
                targets@,
            ),
    {
        if e >= self.nodes.len() {
            return ;
        }
        let result = match self.fetch_entity(e, "target") {
            Err(err) => Err(err),
            Ok(id) => match find_target(targets, id) {
                None => Err(CyberError::TargetVanished),
                Some(t) => Ok(Val::Vec(t.pos)),
            },
        };
        self.finish(e, result);
    }

    /// What [`Board::entity_dir_tick`] promises: whether `self` is what the
    /// evaluation of node `e` makes of `before`.
    pub open spec fn entity_dir_post(
        &self,
        before: &Board,
        e: int,
        targets: Seq<TargetableEntity>,
    ) -> bool {
        self.settled_with(before, e, before.entity_dir_result(e, targets))
    }

    /// Evaluates the entity direction node `e`: it ends with the heading
    /// of the entity at its port "target", with the error of that port, or
    /// with an error when no such entity is left. Nothing happens when
    /// there is no node `e`.
    pub fn entity_dir_tick(&mut self, e: usize, targets: &Vec<TargetableEntity>)
        requires
            old(self).wf(),
        ensures
            final(self).wf(),
            e >= old(self).nodes.len() ==> *final(self) == *old(self),
            e < old(self).nodes.len() ==> final(self).entity_dir_post(
                old(self),
                e as int,
                targets@,
            ),
    {
        if e >= self.nodes.len() {
            return ;
        }
        let result = match self.fetch_entity(e, "target") {
            Err(err) => Err(err),
            Ok(id) => match find_target(targets, id) {
                None => Err(CyberError::TargetVanished),
                Some(t) => Ok(Val::Vec(t.dir)),
            },
        };
        self.finish(e, result);
    }
}

} // verus!
