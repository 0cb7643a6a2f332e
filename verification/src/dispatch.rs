//! The dispatch of an evaluation order to the evaluator of its kind, and
//! the frame that runs a scheduler pass and every evaluation it orders.

use crate::board::Board;
use crate::effects::{Effect, TargetableEntity};
use crate::hex::HexPos;
use crate::kinds::CyberNodes;
use crate::sched::TickNode;
use crate::value::{Scalar, Vec2};
use vstd::prelude::*;

verus! {

/// The arithmetic on numbers that the evaluators draw on, one function
/// for each operation.
pub struct Host<S, M, N, L, C, A, B, R, T> {
    /// The difference of two numbers.
    pub sub: S,
    /// The product of two numbers.
    pub mul: M,
    /// The negation of a number.
    pub neg: N,
    /// The magnitude of the vector with the two components.
    pub length: L,
    /// A count as a number.
    pub from_count: C,
    /// Whether a count, taken as a number, is at least a number.
    pub at_least: A,
    /// Whether a count, taken as a number, is at most a number.
    pub at_most: B,
    /// The cell that a place in fractional grid coordinates lies in.
    pub round: R,
    /// A new entity to stand for the terrain on a cell.
    pub spawn: T,
}

impl<
    S: Fn(Scalar, Scalar) -> Scalar,
    M: Fn(Scalar, Scalar) -> Scalar,
    N: Fn(Scalar) -> Scalar,
    L: Fn(Scalar, Scalar) -> Scalar,
    C: Fn(usize) -> Scalar,
    A: Fn(u32, Scalar) -> bool,
    B: Fn(u32, Scalar) -> bool,
    R: Fn(Vec2) -> HexPos,
    T: Fn(HexPos) -> u64,
> Host<S, M, N, L, C, A, B, R, T> {
    /// Whether every function accepts every argument.
    pub open spec fn total(&self) -> bool {
        &&& forall|a: Scalar, b: Scalar| self.sub.requires((a, b))
        &&& forall|a: Scalar, b: Scalar| self.mul.requires((a, b))
        &&& forall|a: Scalar| self.neg.requires((a,))
        &&& forall|a: Scalar, b: Scalar| self.length.requires((a, b))
        &&& forall|n: usize| self.from_count.requires((n,))
        &&& forall|n: u32, t: Scalar| self.at_least.requires((n, t))
        &&& forall|n: u32, t: Scalar| self.at_most.requires((n, t))
        &&& forall|v: Vec2| self.round.requires((v,))
        &&& forall|c: HexPos| self.spawn.requires((c,))
    }
}

/// The board that the `k`-th of a row of evaluations starts from: `start`
/// for the first, and else the board that the evaluation before it ended
/// with.
pub open spec fn board_before(start: Board, ends: Seq<Board>, k: int) -> Board {
    if k <= 0 {
        start
    } else {
        ends[k - 1]
    }
}

/// The effects among `fxs` that are there, in order.
pub open spec fn asked(fxs: Seq<Option<Effect>>) -> Seq<Effect>
    decreases fxs.len(),
{
    if fxs.len() == 0 {
        Seq::empty()
    } else {
        match fxs.last() {
            Some(f) => asked(fxs.drop_last()).push(f),
            None => asked(fxs.drop_last()),
        }
    }
}

impl Board {
    /// Whether `self` and `fx` are what carrying out `tick` makes of
    /// `before`: what the evaluator of the kind that `tick` names makes of
    /// it. Kinds that ask nothing of the world leave `fx` empty.
    #[verifier::opaque]
    pub open spec fn dispatched<
        S: Fn(Scalar, Scalar) -> Scalar,
        M: Fn(Scalar, Scalar) -> Scalar,
        N: Fn(Scalar) -> Scalar,
        L: Fn(Scalar, Scalar) -> Scalar,
        C: Fn(usize) -> Scalar,
        A: Fn(u32, Scalar) -> bool,
        B: Fn(u32, Scalar) -> bool,
        R: Fn(Vec2) -> HexPos,
        T: Fn(HexPos) -> u64,
    >(
        &self,
        before: &Board,
        tick: TickNode,
        targets: Seq<TargetableEntity>,
        host: Host<S, M, N, L, C, A, B, R, T>,
        fx: Option<Effect>,
    ) -> bool {
        let e = tick.e as int;
        match tick.node {
            CyberNodes::WIP | CyberNodes::Storage => self.idle_post(before, e) && fx.is_none(),
            CyberNodes::Lazor => self.lazor_post(before, e, targets, fx),
            CyberNodes::List => self.list_post(before, e) && fx.is_none(),
            CyberNodes::Debug => self.debug_post(before, e, fx),
            CyberNodes::Project => self.project_post(before, e, host.round, host.spawn, fx),
            CyberNodes::Shock => self.tesla_post(before, e, targets, host.from_count, fx),
            CyberNodes::Plasma => self.plasma_post(
                before,
                e,
                host.at_least,
                host.from_count,
                host.round,
                fx,
            ),
            CyberNodes::Orbital => self.orbital_post(before, e, host.round, fx),
            CyberNodes::RocketLauncher => self.rocket_launcher_post(before, e, fx),
            CyberNodes::ClosestEntity => self.closest_post(before, e, targets) && fx.is_none(),
            CyberNodes::EntityDirection => self.entity_dir_post(before, e, targets)
                && fx.is_none(),
            CyberNodes::NearbyEntities => self.nearby_post(before, e, targets, host.at_most)
                && fx.is_none(),
            CyberNodes::EntityPos => self.entity_pos_post(before, e, targets) && fx.is_none(),
            CyberNodes::ConstantNumber => self.constant_post(before, e) && fx.is_none(),
            CyberNodes::NumberSub => self.numsub_post(before, e, host.sub) && fx.is_none(),
            CyberNodes::NumberMul => self.nummul_post(before, e, host.mul) && fx.is_none(),
            CyberNodes::VectorMul => self.vecmul_post(before, e, host.mul) && fx.is_none(),
            CyberNodes::VectorNeg => self.vecneg_post(before, e, host.neg) && fx.is_none(),
            CyberNodes::ListLength => self.listlen_post(before, e, host.from_count)
                && fx.is_none(),
            CyberNodes::VectorLen => self.veclen_post(before, e, host.length) && fx.is_none(),
            CyberNodes::Vector => self.vec_post(before, e) && fx.is_none(),
        }
    }

    /// Carries out `tick`: evaluates the node it names as the kind it
    /// names, so that the node ends the frame with a result, and hands
    /// back what the node asks of the world. Nothing happens when there is
    /// no such node.
    pub fn evaluate<
        S: Fn(Scalar, Scalar) -> Scalar,
        M: Fn(Scalar, Scalar) -> Scalar,
        N: Fn(Scalar) -> Scalar,
        L: Fn(Scalar, Scalar) -> Scalar,
        C: Fn(usize) -> Scalar,
        A: Fn(u32, Scalar) -> bool,
        B: Fn(u32, Scalar) -> bool,
        R: Fn(Vec2) -> HexPos,
        T: Fn(HexPos) -> u64,
    >(
        &mut self,
        tick: TickNode,
        targets: &Vec<TargetableEntity>,
        host: &Host<S, M, N, L, C, A, B, R, T>,
    ) -> (fx: Option<Effect>)
        requires
            old(self).wf(),
            host.total(),
        ensures
            final(self).wf(),
            tick.e >= old(self).nodes.len() ==> *final(self) == *old(self) && fx.is_none(),
            tick.e < old(self).nodes.len() ==> final(self).dispatched(
                old(self),
                tick,
                targets@,
                *host,
                fx,
            ),
    {
        let e = tick.e;
        proof {
            reveal(Board::dispatched);
        }
        match tick.node {
            CyberNodes::WIP | CyberNodes::Storage => {
                self.idle_tick(e);
                None
            },
            CyberNodes::Lazor => self.lazor_tick(e, targets),
            CyberNodes::List => {
                self.list_tick(e);
                None
            },
            CyberNodes::Debug => self.debug_tick(e),
            CyberNodes::Project => self.project_tick(e, &host.round, &host.spawn),
            CyberNodes::Shock => self.tesla_tick(e, targets, &host.from_count),
            CyberNodes::Plasma => self.plasma_tick(
                e,
                &host.at_least,
                &host.from_count,
                &host.round,
            ),
            CyberNodes::Orbital => self.orbital_tick(e, &host.round),
            CyberNodes::RocketLauncher => self.rocket_launcher_tick(e),
            CyberNodes::ClosestEntity => {
                self.closest_tick(e, targets);
                None
            },
            CyberNodes::EntityDirection => {
                self.entity_dir_tick(e, targets);
                None
            },
            CyberNodes::NearbyEntities => {
                self.nearby_tick(e, targets, &host.at_most);
                None
            },
            CyberNodes::EntityPos => {
                self.entity_pos_tick(e, targets);
                None
            },
            CyberNodes::ConstantNumber => {
                self.constant_tick(e);
                None
            },
            CyberNodes::NumberSub => {
                self.numsub_tick(e, &host.sub);
                None
            },
            CyberNodes::NumberMul => {
                self.nummul_tick(e, &host.mul);
                None
            },
            CyberNodes::VectorMul => {
                self.vecmul_tick(e, &host.mul);
                None
            },
            CyberNodes::VectorNeg => {
                self.vecneg_tick(e, &host.neg);
                None
            },
            CyberNodes::ListLength => {
                self.listlen_tick(e, &host.from_count);
                None
            },
            CyberNodes::VectorLen => {
                self.veclen_tick(e, &host.length);
                None
            },
            CyberNodes::Vector => {
                self.vec_tick(e);
                None
            },
        }
    }

    /// Whether carrying out the first `n` of `ticks` one after the other
    /// led from `start` through the boards `ends` with the effects `fxs`:
    /// the `k`-th board and effect are what carrying out the `k`-th order
    /// makes of the board before it.
    pub open spec fn carried_out<
        S: Fn(Scalar, Scalar) -> Scalar,
        M: Fn(Scalar, Scalar) -> Scalar,
        N: Fn(Scalar) -> Scalar,
        L: Fn(Scalar, Scalar) -> Scalar,
        C: Fn(usize) -> Scalar,
        A: Fn(u32, Scalar) -> bool,
        B: Fn(u32, Scalar) -> bool,
        R: Fn(Vec2) -> HexPos,
        T: Fn(HexPos) -> u64,
    >(
        start: Board,
        ends: Seq<Board>,
        ticks: Seq<TickNode>,
        fxs: Seq<Option<Effect>>,
        n: int,
        targets: Seq<TargetableEntity>,
        host: Host<S, M, N, L, C, A, B, R, T>,
    ) -> bool {
        &&& 0 <= n <= ticks.len()
        &&& ends.len() == n
        &&& fxs.len() == n
        &&& forall|k: int|
            0 <= k < n ==> (#[trigger] ends[k]).dispatched(
                &board_before(start, ends, k),
                ticks[k],
                targets,
                host,
                fxs[k],
            )
    }

    /// Whether `self`, `ticks` and `effects` are what a frame makes of
    /// `before`, by way of the board `passed` that the scheduler pass
    /// left, the boards `ends` that the evaluations ended with, and what
    /// each of them asked for, `fxs`.
    pub open spec fn framed<
        S: Fn(Scalar, Scalar) -> Scalar,
        M: Fn(Scalar, Scalar) -> Scalar,
        N: Fn(Scalar) -> Scalar,
        L: Fn(Scalar, Scalar) -> Scalar,
        C: Fn(usize) -> Scalar,
        A: Fn(u32, Scalar) -> bool,
        B: Fn(u32, Scalar) -> bool,
        R: Fn(Vec2) -> HexPos,
        T: Fn(HexPos) -> u64,
    >(
        &self,
        before: &Board,
        ticks: Seq<TickNode>,
        effects: Seq<Effect>,
        passed: Board,
        ends: Seq<Board>,
        fxs: Seq<Option<Effect>>,
        targets: Seq<TargetableEntity>,
        host: Host<S, M, N, L, C, A, B, R, T>,
    ) -> bool {
        &&& passed.ticked(before, ticks)
        &&& Board::carried_out(passed, ends, ticks, fxs, ticks.len() as int, targets, host)
        &&& *self == board_before(passed, ends, ticks.len() as int)
        &&& effects == asked(fxs)
    }

    /// One frame of the scheduler: a scheduler pass, and then the
    /// evaluation of every node that the pass ordered, in the order of
    /// the pass. Returns the orders of the pass and what the nodes asked
    /// of the world.
    ///
    /// Every node that was ready holds a result when the frame ends, and
    /// every other node is in the state it was in. A node that became
    /// ready through a result of this frame fires in the next.
    pub fn frame<
        S: Fn(Scalar, Scalar) -> Scalar,
        M: Fn(Scalar, Scalar) -> Scalar,
        N: Fn(Scalar) -> Scalar,
        L: Fn(Scalar, Scalar) -> Scalar,
        C: Fn(usize) -> Scalar,
        A: Fn(u32, Scalar) -> bool,
        B: Fn(u32, Scalar) -> bool,
        R: Fn(Vec2) -> HexPos,
        T: Fn(HexPos) -> u64,
    >(
        &mut self,
        targets: &Vec<TargetableEntity>,
        host: &Host<S, M, N, L, C, A, B, R, T>,
    ) -> (out: (Vec<TickNode>, Vec<Effect>))
        requires
            old(self).wf(),
            host.total(),
        ensures
            final(self).wf(),
            exists|passed: Board, ends: Seq<Board>, fxs: Seq<Option<Effect>>| #[trigger]
                final(self).framed(old(self), out.0@, out.1@, passed, ends, fxs, targets@, *host),
            final(self).nodes.len() == old(self).nodes.len(),
            forall|i: int|
                0 <= i < old(self).nodes.len() && old(self).ready(i) ==> #[trigger] final(self).state(i) is Done,
            forall|i: int|
                0 <= i < old(self).nodes.len() && !old(self).ready(i) ==> #[trigger] final(self).state(i) == old(self).state(i),
    {
        let ticks = self.tick_nodes();
        let ghost passed = *self;
        let ghost mut ends: Seq<Board> = Seq::empty();
        let ghost mut fxs: Seq<Option<Effect>> = Seq::empty();
        let mut effects: Vec<Effect> = Vec::new();
        let mut k: usize = 0;
        proof {
            assert forall|j: int| 0 <= j < ticks.len() implies (#[trigger] ticks[j]).e
                < passed.nodes.len() by {
                crate::laws::law_ticks_are_the_ready_nodes(
                    old(self),
                    old(self).nodes.len() as nat,
                    ticks[j],
                );
                assert(ticks@.contains(ticks[j]));
            }
        }
        while k < ticks.len()
            invariant
                k <= ticks.len(),
                self.wf(),
                host.total(),
                self.nodes.len() == passed.nodes.len(),
                forall|j: int| 0 <= j < ticks.len() ==> (#[trigger] ticks[j]).e < passed.nodes.len(),
                passed.ticked(old(self), ticks@),
                Board::carried_out(passed, ends, ticks@, fxs, k as int, targets@, *host),
                *self == board_before(passed, ends, k as int),
                effects@ == asked(fxs),
            decreases ticks.len() - k,
        {
            let ghost before = *self;
            let ghost ends_before = ends;
            let ghost fxs_before = fxs;
            let fx = self.evaluate(ticks[k], targets, host);
            proof {
                crate::laws::law_evaluation_ends_in_done(
                    &before,
                    self,
                    ticks[k as int],
                    targets@,
                    *host,
                    fx,
                );
                ends = ends.push(*self);
                fxs = fxs.push(fx);
                assert forall|j: int| 0 <= j < k + 1 implies (#[trigger] ends[j]).dispatched(
                    &board_before(passed, ends, j),
                    ticks[j],
                    targets@,
                    *host,
                    fxs[j],
                ) by {
                    if j < k {
                        assert(ends[j] == ends_before[j]);
                        assert(fxs[j] == fxs_before[j]);
                        assert(board_before(passed, ends, j) == board_before(
                            passed,
                            ends_before,
                            j,
                        ));
                    } else {
                        assert(board_before(passed, ends, j) == before);
                    }
                }
                assert(fxs.drop_last() =~= fxs_before);
            }
            match fx {
                Some(f) => {
                    effects.push(f);
                },
                None => {},
            }
            k += 1;
        }
        proof {
            crate::laws::law_frame_settles_the_ready_nodes(
                old(self),
                passed,
                ends,
                ticks@,
                fxs,
                targets@,
                *host,
            );
        }
        let out = (ticks, effects);
        assert(self.framed(old(self), out.0@, out.1@, passed, ends, fxs, targets@, *host));
        out
    }
}

} // verus!
