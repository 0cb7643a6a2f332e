//! The evaluators of the kinds that act on the world: each ends with a
//! result and may hand back an effect for the world to carry out.

use crate::board::{lemma_layout_keeps_wf, lemma_within_in_range, Board};
use crate::effects::{
    effect_view, find_target, target_named, Effect, EffectView, TargetableEntity, LAZOR_DAMAGE,
    SHOCK_DAMAGE, TERRAIN_HEALTH,
};
use crate::eval::{entity_of, list_of, number_of, vector_of};
use crate::hex::HexPos;
use crate::node::{CyberState, StateView};
use crate::tile::{grid_set, TileType};
use crate::value::{views_of, CyberError, Scalar, Val, ValView, Vec2};
use vstd::prelude::*;

verus! {

/// The entities among `items` that are still in the world, in order.
pub open spec fn struck(items: Seq<ValView>, targets: Seq<TargetableEntity>) -> Seq<u64>
    decreases items.len(),
{
    if items.len() == 0 {
        Seq::empty()
    } else {
        let before = struck(items.drop_last(), targets);
        match items.last() {
            ValView::Entity(id) => if target_named(targets, id).is_some() {
                before.push(id)
            } else {
                before
            },
            _ => before,
        }
    }
}

/// The charge of a plasma cannon after one more heartbeat.
pub open spec fn charged(charge: u32) -> u32 {
    if charge == u32::MAX {
        charge
    } else {
        (charge + 1) as u32
    }
}

impl Board {
    /// What a lazor ends with.
    pub open spec fn lazor_result(&self, e: int, targets: Seq<TargetableEntity>) -> Result<
        ValView,
        CyberError,
    > {
        match entity_of(self.port_data(e, "target"@)) {
            Err(err) => Err(err),
            Ok(id) => match target_named(targets, id) {
                None => Err(CyberError::TargetVanished),
                Some(_) => Ok(ValView::Empty),
            },
        }
    }

    /// What a lazor asks of the world.
    pub open spec fn lazor_effect(&self, e: int, targets: Seq<TargetableEntity>) -> Option<
        EffectView,
    > {
        match entity_of(self.port_data(e, "target"@)) {
            Err(_) => None,
            Ok(id) => match target_named(targets, id) {
                None => None,
                Some(_) => Some(
                    EffectView::Lazor { from: self.nodes[e].pos, target: id, damage: LAZOR_DAMAGE },
                ),
            },
        }
    }

    /// Whether `self` came out of `before` by an evaluation of node `i`
    /// that may have occupied `cell` with `t`: no other cell and nothing
    /// about the nodes but state and charge of `i` changed.
    pub open spec fn evaluated_onto(
        &self,
        before: &Board,
        i: int,
        cell: HexPos,
        t: TileType,
    ) -> bool {
        &&& self.radius() == before.radius()
        &&& self.cells() == before.cells().insert((cell.x as int, cell.y as int), t)
        &&& self.registry == before.registry
        &&& self.nodes.len() == before.nodes.len()
        &&& forall|k: int|
            0 <= k < before.nodes.len() ==> (#[trigger] self.nodes[k]).meta == before.nodes[k].meta
                && self.nodes[k].cfg == before.nodes[k].cfg && self.nodes[k].pos
                == before.nodes[k].pos && self.nodes[k].charge == before.nodes[k].charge
        &&& forall|k: int|
            0 <= k < before.nodes.len() && k != i ==> (#[trigger] self.nodes[k]).state
                == before.nodes[k].state
    }

    /// What [`Board::lazor_tick`] promises: whether `self` is what the
    /// evaluation of node `e` makes of `before`.
    pub open spec fn lazor_post(
        &self,
        before: &Board,
        e: int,
        targets: Seq<TargetableEntity>,
        fx: Option<Effect>,
    ) -> bool {
        &&& self.settled_with(before, e, before.lazor_result(e, targets))
        &&& effect_view(fx) == before.lazor_effect(e, targets)
    }

    /// Evaluates the lazor `e`: with an entity at its port "target" that
    /// is still in the world, it ends with the empty value and asks for
    /// that entity to be hit; else it ends with an error and asks for
    /// nothing. Nothing happens when there is no node `e`.
    pub fn lazor_tick(&mut self, e: usize, targets: &Vec<TargetableEntity>) -> (fx: Option<Effect>)
        requires
            old(self).wf(),
        ensures
            final(self).wf(),
            e >= old(self).nodes.len() ==> *final(self) == *old(self) && fx.is_none(),
            e < old(self).nodes.len() ==> final(self).lazor_post(old(self), e as int, targets@, fx),
    {
        if e >= self.nodes.len() {
            return None;
        }
        let from = self.nodes[e].pos;
        match self.fetch_entity(e, "target") {
            Err(err) => {
                self.finish(e, Err(err));
                None
            },
            Ok(id) => match find_target(targets, id) {
                None => {
                    self.finish(e, Err(CyberError::TargetVanished));
                    None
                },
                Some(_) => {
                    self.finish(e, Ok(Val::Empty));
                    Some(Effect::Lazor { from, target: id, damage: LAZOR_DAMAGE })
                },
            },
        }
    }

    /// What [`Board::rocket_launcher_tick`] promises: whether `self` is what the
    /// evaluation of node `e` makes of `before`.
    pub open spec fn rocket_launcher_post(
        &self,
        before: &Board,
        e: int,
        fx: Option<Effect>,
    ) -> bool {
        &&& self.kept(before, e)
        &&& match vector_of(before.port_data(e, "direction"@)) {
            Err(err) => self.state(e) == StateView::Done(Err(err)) && fx.is_none(),
            Ok(v) => self.state(e) == StateView::Done(Ok(ValView::Empty)) && effect_view(fx)
                == Some(EffectView::Rocket { from: before.nodes[e].pos, direction: v }),
        }
    }

    /// Evaluates the rocket launcher `e`: with a vector at its port
    /// "direction" it ends with the empty value and asks for a rocket
    /// along that vector; else it ends with the error of that port and
    /// asks for nothing. Nothing happens when there is no node `e`.
    pub fn rocket_launcher_tick(&mut self, e: usize) -> (fx: Option<Effect>)
        requires
            old(self).wf(),
        ensures
            final(self).wf(),
            e >= old(self).nodes.len() ==> *final(self) == *old(self) && fx.is_none(),
            e < old(self).nodes.len() ==> final(self).rocket_launcher_post(old(self), e as int, fx),
    {
        if e >= self.nodes.len() {
            return None;
        }
        let from = self.nodes[e].pos;
        match self.fetch_vector(e, "direction") {
            Err(err) => {
                self.finish(e, Err(err));
                None
            },
            Ok(v) => {
                self.finish(e, Ok(Val::Empty));
                Some(Effect::Rocket { from, direction: v })
            },
        }
    }

    /// What [`Board::orbital_tick`] promises: whether `self` is what the
    /// evaluation of node `e` makes of `before`.
    pub open spec fn orbital_post<R: Fn(Vec2) -> HexPos>(
        &self,
        before: &Board,
        e: int,
        round: R,
        fx: Option<Effect>,
    ) -> bool {
        &&& self.kept(before, e)
        &&& match vector_of(before.port_data(e, "target"@)) {
            Err(err) => self.state(e) == StateView::Done(Err(err)) && fx.is_none(),
            Ok(v) => self.state(e) == StateView::Done(Ok(ValView::Empty)) && (effect_view(
                fx,
            ) matches Some(EffectView::Orbital { aim, cell }) && aim == v && round.ensures(
                (v,),
                cell,
            )),
        }
    }

    /// Evaluates the orbital strike `e` with the rounding `round` of a
    /// place to its cell: with a vector at its port "target" it ends with
    /// the empty value and asks for a strike there; else it ends with the
    /// error of that port and asks for nothing. Nothing happens when there
    /// is no node `e`.
    pub fn orbital_tick<R: Fn(Vec2) -> HexPos>(&mut self, e: usize, round: &R) -> (fx: Option<
        Effect,
    >)
        requires
            old(self).wf(),
            forall|v: Vec2| round.requires((v,)),
        ensures
            final(self).wf(),
            e >= old(self).nodes.len() ==> *final(self) == *old(self) && fx.is_none(),
            e < old(self).nodes.len() ==> final(self).orbital_post(old(self), e as int, *round, fx),
    {
        if e >= self.nodes.len() {
            return None;
        }
        match self.fetch_vector(e, "target") {
            Err(err) => {
                self.finish(e, Err(err));
                None
            },
            Ok(v) => {
                let cell = round(v);
                self.finish(e, Ok(Val::Empty));
                Some(Effect::Orbital { aim: v, cell })
            },
        }
    }

    /// What [`Board::plasma_tick`] promises: whether `self` is what the
    /// evaluation of node `e` makes of `before`.
    pub open spec fn plasma_post<A: Fn(u32, Scalar) -> bool, C: Fn(usize) -> Scalar, R: Fn(Vec2) -> HexPos>(
        &self,
        before: &Board,
        e: int,
        at_least: A,
        from_count: C,
        round: R,
        fx: Option<Effect>,
    ) -> bool {
        &&& self.evaluated(before, e)
        &&& match vector_of(before.port_data(e, "target"@)) {
            Err(err) => {
                &&& self.state(e) == StateView::Done(Err(err))
                &&& fx.is_none()
                &&& self.nodes[e].charge == before.nodes[e].charge
            },
            Ok(v) => {
                let count = charged(before.nodes[e].charge);
                let threshold = match number_of(before.port_data(e, "threshold"@)) {
                    Ok(t) => t,
                    Err(_) => Scalar { bits: 0 },
                };
                let fired = fx.is_some();
                let shown = if fired {
                    count as usize
                } else {
                    0usize
                };
                &&& at_least.ensures((count, threshold), fired)
                &&& self.nodes[e].charge == if fired {
                    0
                } else {
                    count
                }
                &&& self.state(e) matches StateView::Done(Ok(ValView::Number(n)))
                    && from_count.ensures((shown,), n)
                &&& fired ==> (effect_view(fx) matches Some(
                    EffectView::Plasma { aim, cell, charge },
                ) && aim == v && charge == count && round.ensures((v,), cell))
            },
        }
    }

    /// Evaluates the plasma cannon `e`.
    ///
    /// Without a vector at its port "target" it ends with the error of
    /// that port and keeps its charge. Else its charge grows by one
    /// heartbeat and is held against the number at its port "threshold",
    /// or against zero when that port holds no number, by `at_least`. If
    /// the charge suffices, the cannon asks for a zone of plasma of that
    /// charge at the target, ends with the charge as a number and starts
    /// again from no charge; if not, it ends with the number of a count
    /// of zero and asks for nothing. Nothing happens when there is no node
    /// `e`.
    pub fn plasma_tick<A: Fn(u32, Scalar) -> bool, C: Fn(usize) -> Scalar, R: Fn(Vec2) -> HexPos>(
        &mut self,
        e: usize,
        at_least: &A,
        from_count: &C,
        round: &R,
    ) -> (fx: Option<Effect>)
        requires
            old(self).wf(),
            forall|n: u32, t: Scalar| at_least.requires((n, t)),
            forall|n: usize| from_count.requires((n,)),
            forall|v: Vec2| round.requires((v,)),
        ensures
            final(self).wf(),
            e >= old(self).nodes.len() ==> *final(self) == *old(self) && fx.is_none(),
            e < old(self).nodes.len() ==> final(self).plasma_post(
                old(self),
                e as int,
                *at_least,
                *from_count,
                *round,
                fx,
            ),
    {
        if e >= self.nodes.len() {
            return None;
        }
        match self.fetch_vector(e, "target") {
            Err(err) => {
                self.finish(e, Err(err));
                None
            },
            Ok(v) => {
                let threshold = match self.fetch_number(e, "threshold") {
                    Ok(t) => t,
                    Err(_) => Scalar::zero(),
                };
                let charge = self.nodes[e].charge;
                let count = if charge == u32::MAX {
                    charge
                } else {
                    charge + 1
                };
                if at_least(count, threshold) {
                    let cell = round(v);
                    let n = from_count(count as usize);
                    self.finish(e, Ok(Val::Number(n)));
                    self.recharge(e, 0);
                    Some(Effect::Plasma { aim: v, cell, charge: count })
                } else {
                    let n = from_count(0);
                    self.finish(e, Ok(Val::Number(n)));
                    self.recharge(e, count);
                    None
                }
            },
        }
    }

    /// Sets the charge of node `e`.
    fn recharge(&mut self, e: usize, charge: u32)
        requires
            old(self).wf(),
            e < old(self).nodes.len(),
        ensures
            final(self).wf(),
            final(self).evaluated(old(self), e as int),
            final(self).nodes[e as int].state == old(self).nodes[e as int].state,
            final(self).nodes[e as int].charge == charge,
    {
        self.nodes[e].charge = charge;
        proof {
            assert forall|k: int| 0 <= k < self.nodes.len() && k != e implies #[trigger] self.nodes[k]
                == old(self).nodes[k] by {}
            lemma_layout_keeps_wf(old(self), self);
        }
    }

    /// The entities among `items` that are still in the world, in order.
    fn strike(items: &Vec<Val>, targets: &Vec<TargetableEntity>) -> (hit: Vec<u64>)
        ensures
            hit@ == struck(views_of(items@), targets@),
    {
        let mut hit: Vec<u64> = Vec::new();
        let mut k: usize = 0;
        assert(views_of(items@.take(0)) =~= Seq::<ValView>::empty());
        while k < items.len()
            invariant
                k <= items.len(),
                hit@ == struck(views_of(items@.take(k as int)), targets@),
            decreases items.len() - k,
        {
            proof {
                let longer = views_of(items@.take(k + 1));
                assert(longer.drop_last() =~= views_of(items@.take(k as int)));
                assert(longer.last() == items[k as int]@);
            }
            if let Val::Entity(id) = &items[k] {
                if find_target(targets, *id).is_some() {
                    hit.push(*id);
                }
            }
            k += 1;
        }
        assert(items@.take(items.len() as int) =~= items@);
        hit
    }

    /// What [`Board::tesla_tick`] promises: whether `self` is what the
    /// evaluation of node `e` makes of `before`.
    pub open spec fn tesla_post<C: Fn(usize) -> Scalar>(
        &self,
        before: &Board,
        e: int,
        targets: Seq<TargetableEntity>,
        from_count: C,
        fx: Option<Effect>,
    ) -> bool {
        &&& self.kept(before, e)
        &&& match list_of(before.port_data(e, "targets"@)) {
            Err(err) => self.state(e) == StateView::Done(Err(err)) && fx.is_none(),
            Ok(l) => {
                let hit = struck(l, targets);
                &&& effect_view(fx) == Some(
                    EffectView::Shock { from: before.nodes[e].pos, targets: hit, damage: SHOCK_DAMAGE },
                )
                &&& self.state(e) matches StateView::Done(Ok(ValView::Number(n)))
                    && from_count.ensures((hit.len() as usize,), n)
            },
        }
    }

    /// Evaluates the tesla coil `e` with the conversion `from_count` of a
    /// count to a number: with a list at its port "targets" it asks for
    /// every entity of the list that is still in the world to be hit, and
    /// ends with their count as a number; items that are no entity or
    /// that are gone are passed over. Else it ends with the error of that
    /// port and asks for nothing. Nothing happens when there is no node
    /// `e`.
    pub fn tesla_tick<C: Fn(usize) -> Scalar>(
        &mut self,
        e: usize,
        targets: &Vec<TargetableEntity>,
        from_count: &C,
    ) -> (fx: Option<Effect>)
        requires
            old(self).wf(),
            forall|n: usize| from_count.requires((n,)),
        ensures
            final(self).wf(),
            e >= old(self).nodes.len() ==> *final(self) == *old(self) && fx.is_none(),
            e < old(self).nodes.len() ==> final(self).tesla_post(
                old(self),
                e as int,
                targets@,
                *from_count,
                fx,
            ),
    {
        if e >= self.nodes.len() {
            return None;
        }
        let from = self.nodes[e].pos;
        match self.fetch_list(e, "targets") {
            Err(err) => {
                self.finish(e, Err(err));
                None
            },
            Ok(l) => {
                let hit = Self::strike(&l, targets);
                let n = from_count(hit.len());
                self.finish(e, Ok(Val::Number(n)));
                Some(Effect::Shock { from, targets: hit, damage: SHOCK_DAMAGE })
            },
        }
    }

    /// Whether `self` and `fx` are what a projection by node `e` onto
    /// `cell` makes of `before`.
    pub open spec fn projected(
        &self,
        before: &Board,
        e: int,
        cell: HexPos,
        terrain: u64,
        fx: Option<Effect>,
    ) -> bool {
        match before.tile_at(cell) {
            None => {
                &&& self.evaluated(before, e)
                &&& self.state(e) == StateView::Done(Err(CyberError::OutOfBounds))
                &&& fx.is_none()
            },
            Some(TileType::Unoccupied) => {
                &&& self.evaluated_onto(before, e, cell, TileType::Terrain(terrain))
                &&& self.state(e) == StateView::Done(Ok(ValView::Empty))
                &&& effect_view(fx) == Some(
                    EffectView::ProjectTile { cell, terrain, health: TERRAIN_HEALTH },
                )
            },
            Some(_) => {
                &&& self.evaluated(before, e)
                &&& self.state(e) == StateView::Done(Err(CyberError::OccupiedDestination))
                &&& fx.is_none()
            },
        }
    }

    /// What [`Board::project_tick`] promises: whether `self` is what the
    /// evaluation of node `e` makes of `before`.
    pub open spec fn project_post<R: Fn(Vec2) -> HexPos, T: Fn(HexPos) -> u64>(
        &self,
        before: &Board,
        e: int,
        round: R,
        spawn: T,
        fx: Option<Effect>,
    ) -> bool {
        &&& self.nodes[e].charge == before.nodes[e].charge
        &&& match vector_of(before.port_data(e, "target"@)) {
            Err(err) => {
                &&& self.evaluated(before, e)
                &&& self.state(e) == StateView::Done(Err(err))
                &&& fx.is_none()
            },
            Ok(v) => exists|cell: HexPos, terrain: u64|
                {
                    &&& round.ensures((v,), cell)
                    &&& before.tile_at(cell) == Some(TileType::Unoccupied) ==> spawn.ensures(
                        (cell,),
                        terrain,
                    )
                    &&& #[trigger] self.projected(before, e, cell, terrain, fx)
                },
        }
    }

    /// Evaluates the tile projector `e` with the rounding `round` of a
    /// place to its cell and with `spawn`, which makes the entity that is
    /// to stand for a projected tile on a cell.
    ///
    /// Without a vector at its port "target" the node ends with the error
    /// of that port. Else the vector is rounded to a cell: off the board
    /// the node ends with `OutOfBounds`, on an occupied cell with
    /// `OccupiedDestination`, and in both cases the board keeps its cells
    /// and no entity is made. On an unoccupied cell the node has an
    /// entity made, puts it there as terrain, ends with the empty value
    /// and asks for the entity to be fitted out. Nothing happens when
    /// there is no node `e`.
    pub fn project_tick<R: Fn(Vec2) -> HexPos, T: Fn(HexPos) -> u64>(
        &mut self,
        e: usize,
        round: &R,
        spawn: &T,
    ) -> (fx: Option<Effect>)
        requires
            old(self).wf(),
            forall|v: Vec2| round.requires((v,)),
            forall|c: HexPos| spawn.requires((c,)),
        ensures
            final(self).wf(),
            e >= old(self).nodes.len() ==> *final(self) == *old(self) && fx.is_none(),
            e < old(self).nodes.len() ==> final(self).project_post(
                old(self),
                e as int,
                *round,
                *spawn,
                fx,
            ),
    {
        if e >= self.nodes.len() {
            return None;
        }
        match self.fetch_vector(e, "target") {
            Err(err) => {
                self.finish(e, Err(err));
                None
            },
            Ok(v) => {
                let cell = round(v);
                match self.tile(cell) {
                    None => {
                        self.finish(e, Err(CyberError::OutOfBounds));
                        assert(self.projected(old(self), e as int, cell, 0, None));
                        None
                    },
                    Some(TileType::Unoccupied) => {
                        proof {
                            lemma_within_in_range(self.radius(), cell);
                        }
                        let terrain = spawn(cell);
                        grid_set(&mut self.storage, cell, TileType::Terrain(terrain));
                        self.nodes[e].state = CyberState::Done(Ok(Val::Empty));
                        proof {
                            assert forall|k: int|
                                0 <= k < self.nodes.len() && k != e implies #[trigger] self.nodes[k]
                                == old(self).nodes[k] by {}
                            assert forall|k: int| 0 <= k < self.nodes.len() implies #[trigger] self.node_wf(
                                k,
                            ) by {
                                assert(old(self).node_wf(k));
                            }
                        }
                        let fx = Some(Effect::ProjectTile { cell, terrain, health: TERRAIN_HEALTH });
                        assert(self.projected(old(self), e as int, cell, terrain, fx));
                        fx
                    },
                    Some(_) => {
                        self.finish(e, Err(CyberError::OccupiedDestination));
                        assert(self.projected(old(self), e as int, cell, 0, None));
                        None
                    },
                }
            },
        }
    }
}

} // verus!
