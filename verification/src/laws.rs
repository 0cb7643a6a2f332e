//! What holds of the scheduler as a whole: statements that relate a
//! heartbeat, the scheduler passes, the evaluations and the pruning to one
//! another.

use crate::arith::{fold_trace, folds_to};
use crate::board::Board;
use crate::dispatch::{board_before, Host};
use crate::effects::{Effect, TargetableEntity};
use crate::eval_math::{numbers_in, vectors_in, xs_of, ys_of};
use crate::hex::HexPos;
use crate::kinds::CyberNodes;
use crate::node::StateView;
use crate::sched::TickNode;
use crate::tile::TileType;
use crate::value::{CyberError, Scalar, ValView, Vec2};
use vstd::prelude::*;

verus! {

impl Board {
    /// The kind of node `i`.
    pub open spec fn kind_of(&self, i: int) -> CyberNodes {
        self.registry.items[self.nodes[i].meta.0 as int].node
    }

    /// Whether nodes `a` and `b` feed each other: each has wired a
    /// direction in which the other stands, and both wait to run.
    pub open spec fn stalled(&self, a: int, b: int) -> bool {
        &&& 0 <= a < self.nodes.len()
        &&& 0 <= b < self.nodes.len()
        &&& self.state(a) == StateView::ActivationRequest
        &&& self.state(b) == StateView::ActivationRequest
        &&& exists|d: int|
            0 <= d < 6 && (#[trigger] self.nodes[a].cfg.bound(d)).is_some() && self.node_on(
                self.nodes[a].pos.step(d),
            ) == Some(b as usize)
        &&& exists|d: int|
            0 <= d < 6 && (#[trigger] self.nodes[b].cfg.bound(d)).is_some() && self.node_on(
                self.nodes[b].pos.step(d),
            ) == Some(a as usize)
    }
}

/// A scheduler pass orders exactly the ready nodes to be evaluated, each
/// as the kind the registry gives it.
pub proof fn law_ticks_are_the_ready_nodes(board: &Board, n: nat, t: TickNode)
    requires
        n <= board.nodes.len(),
    ensures
        board.ready_ticks(n).contains(t) <==> t.e < n && board.ready(t.e as int) && t.node
            == board.kind_of(t.e as int),
    decreases n,
{
    if n > 0 {
        let i = (n - 1) as int;
        let rest = board.ready_ticks((n - 1) as nat);
        law_ticks_are_the_ready_nodes(board, (n - 1) as nat, t);
        if board.ready(i) {
            let last = TickNode { e: i as usize, node: board.kind_of(i) };
            assert(board.ready_ticks(n) == rest.push(last));
            if rest.push(last).contains(t) {
                let w = choose|w: int| 0 <= w < rest.push(last).len() && rest.push(last)[w] == t;
                if w < rest.len() {
                    assert(rest[w] == t);
                }
            }
            if rest.contains(t) {
                let w = choose|w: int| 0 <= w < rest.len() && rest[w] == t;
                assert(rest.push(last)[w] == t);
            }
            assert(rest.push(last)[rest.len() as int] == last);
        }
    }
}

/// A node without wired inputs has all its inputs resolved, so it fires
/// in the first scheduler pass after a heartbeat asked it to run: the pass
/// triggers it and orders its evaluation.
pub proof fn law_unwired_node_fires(before: &Board, after: &Board, ticks: Seq<TickNode>, i: int)
    requires
        before.wf(),
        0 <= i < before.nodes.len(),
        before.nodes[i].cfg.unwired(),
        before.state(i) == StateView::ActivationRequest,
        after.ticked(before, ticks),
    ensures
        before.satisfied(i),
        after.state(i) == StateView::Triggered,
        ticks.contains(TickNode { e: i as usize, node: before.kind_of(i) }),
{
    assert(before.satisfied(i));
    law_ticks_are_the_ready_nodes(
        before,
        before.nodes.len() as nat,
        TickNode { e: i as usize, node: before.kind_of(i) },
    );
}

/// A node that waits to run fires in the scheduler pass that finds a
/// value at every input it wired.
pub proof fn law_fed_node_fires(before: &Board, after: &Board, ticks: Seq<TickNode>, i: int)
    requires
        0 <= i < before.nodes.len(),
        before.state(i) == StateView::ActivationRequest,
        forall|d: int|
            0 <= d < 6 && (#[trigger] before.nodes[i].cfg.bound(d)).is_some()
                ==> before.input_resolved(i, d),
        after.ticked(before, ticks),
    ensures
        after.state(i) == StateView::Triggered,
        ticks.contains(TickNode { e: i as usize, node: before.kind_of(i) }),
{
    law_ticks_are_the_ready_nodes(
        before,
        before.nodes.len() as nat,
        TickNode { e: i as usize, node: before.kind_of(i) },
    );
}

/// A node without wired inputs that is not disabled holds a result at the
/// end of the frame of a heartbeat: the heartbeat asks it to run, the
/// scheduler pass orders its evaluation, and the evaluation ends in
/// `Done`.
pub proof fn law_unwired_node_is_done_after_a_frame<
    S: Fn(Scalar, Scalar) -> Scalar,
    M: Fn(Scalar, Scalar) -> Scalar,
    N: Fn(Scalar) -> Scalar,
    L: Fn(Scalar, Scalar) -> Scalar,
    C: Fn(usize) -> Scalar,
    A: Fn(u32, Scalar) -> bool,
    B: Fn(u32, Scalar) -> bool,
    R: Fn(Vec2) -> HexPos,
    T: Fn(HexPos) -> u64,
>(
    start: &Board,
    asked: &Board,
    passed: &Board,
    ticks: Seq<TickNode>,
    ended: &Board,
    targets: Seq<TargetableEntity>,
    host: Host<S, M, N, L, C, A, B, R, T>,
    fx: Option<Effect>,
    i: int,
)
    requires
        start.wf(),
        0 <= i < start.nodes.len(),
        start.nodes[i].cfg.unwired(),
        start.state(i) != StateView::Disabled,
        asked.requested(start),
        passed.ticked(asked, ticks),
        ended.dispatched(
            passed,
            TickNode { e: i as usize, node: asked.kind_of(i) },
            targets,
            host,
            fx,
        ),
    ensures
        ticks.contains(TickNode { e: i as usize, node: asked.kind_of(i) }),
        ended.state(i) is Done,
{
    crate::board::lemma_layout_keeps_wf(start, asked);
    crate::board::lemma_layout_keeps_wf(asked, passed);
    law_unwired_node_fires(asked, passed, ticks, i);
    law_evaluation_ends_in_done(
        passed,
        ended,
        TickNode { e: i as usize, node: asked.kind_of(i) },
        targets,
        host,
        fx,
    );
}

/// The wavefront: a node `b` that wired an input to a node `a` which
/// holds no value when a scheduler pass begins does not fire in that pass,
/// whether or not `a` fires in it. The pass leaves `b` as it was and
/// orders no evaluation of it.
pub proof fn law_wavefront(
    before: &Board,
    after: &Board,
    ticks: Seq<TickNode>,
    a: int,
    b: int,
    d: int,
)
    requires
        before.wf(),
        0 <= a < before.nodes.len(),
        0 <= b < before.nodes.len(),
        0 <= d < 6,
        before.nodes[b].cfg.bound(d).is_some(),
        before.node_on(before.nodes[b].pos.step(d)) == Some(a as usize),
        !before.state(a).has_value(),
        after.ticked(before, ticks),
    ensures
        !before.ready(b),
        after.state(b) == before.state(b),
        forall|k: int| 0 <= k < ticks.len() ==> (#[trigger] ticks[k]).e != b,
        !after.state(a).has_value(),
{
    assert(!before.input_resolved(b, d));
    assert forall|k: int| 0 <= k < ticks.len() implies (#[trigger] ticks[k]).e != b by {
        law_ticks_are_the_ready_nodes(before, before.nodes.len() as nat, ticks[k]);
        assert(ticks.contains(ticks[k]));
    }
}

/// Carrying out an order gives the node a result and leaves every other
/// node, every wiring and every cell that holds a node as it was.
pub proof fn law_evaluation_ends_in_done<
    S: Fn(Scalar, Scalar) -> Scalar,
    M: Fn(Scalar, Scalar) -> Scalar,
    N: Fn(Scalar) -> Scalar,
    L: Fn(Scalar, Scalar) -> Scalar,
    C: Fn(usize) -> Scalar,
    A: Fn(u32, Scalar) -> bool,
    B: Fn(u32, Scalar) -> bool,
    R: Fn(Vec2) -> HexPos,
    T: Fn(HexPos) -> u64,
>(
    before: &Board,
    after: &Board,
    tick: TickNode,
    targets: Seq<TargetableEntity>,
    host: Host<S, M, N, L, C, A, B, R, T>,
    fx: Option<Effect>,
)
    requires
        tick.e < before.nodes.len(),
        after.dispatched(before, tick, targets, host, fx),
    ensures
        after.state(tick.e as int) is Done,
        frame_kept(before, after, tick.e as int),
{
    reveal(Board::dispatched);
    let e = tick.e as int;
    match tick.node {
        CyberNodes::Project => {
            lemma_projection_frame(before, after, e, host.round, host.spawn, fx);
        },
        CyberNodes::WIP | CyberNodes::Storage => {
            assert(after.idle_post(before, e));
            lemma_evaluation_frame(before, after, e);
        },
        CyberNodes::Lazor => {
            assert(after.lazor_post(before, e, targets, fx));
            lemma_evaluation_frame(before, after, e);
        },
        CyberNodes::List => {
            assert(after.list_post(before, e));
            lemma_evaluation_frame(before, after, e);
        },
        CyberNodes::Debug => {
            assert(after.debug_post(before, e, fx));
            lemma_evaluation_frame(before, after, e);
        },
        CyberNodes::Shock => {
            assert(after.tesla_post(before, e, targets, host.from_count, fx));
            lemma_evaluation_frame(before, after, e);
        },
        CyberNodes::Plasma => {
            assert(after.plasma_post(
                before,
                e,
                host.at_least,
                host.from_count,
                host.round,
                fx,
            ));
            lemma_evaluation_frame(before, after, e);
        },
        CyberNodes::Orbital => {
            assert(after.orbital_post(before, e, host.round, fx));
            lemma_evaluation_frame(before, after, e);
        },
        CyberNodes::RocketLauncher => {
            assert(after.rocket_launcher_post(before, e, fx));
            lemma_evaluation_frame(before, after, e);
        },
        CyberNodes::ClosestEntity => {
            assert(after.closest_post(before, e, targets));
            lemma_evaluation_frame(before, after, e);
        },
        CyberNodes::EntityDirection => {
            assert(after.entity_dir_post(before, e, targets));
            lemma_evaluation_frame(before, after, e);
        },
        CyberNodes::NearbyEntities => {
            assert(after.nearby_post(before, e, targets, host.at_most));
            lemma_evaluation_frame(before, after, e);
        },
        CyberNodes::EntityPos => {
            assert(after.entity_pos_post(before, e, targets));
            lemma_evaluation_frame(before, after, e);
        },
        CyberNodes::ConstantNumber => {
            assert(after.constant_post(before, e));
            lemma_evaluation_frame(before, after, e);
        },
        CyberNodes::NumberSub => {
            assert(after.numsub_post(before, e, host.sub));
            lemma_evaluation_frame(before, after, e);
        },
        CyberNodes::NumberMul => {
            assert(after.nummul_post(before, e, host.mul));
            lemma_evaluation_frame(before, after, e);
        },
        CyberNodes::VectorMul => {
            assert(after.vecmul_post(before, e, host.mul));
            lemma_evaluation_frame(before, after, e);
        },
        CyberNodes::VectorNeg => {
            assert(after.vecneg_post(before, e, host.neg));
            lemma_evaluation_frame(before, after, e);
        },
        CyberNodes::ListLength => {
            assert(after.listlen_post(before, e, host.from_count));
            lemma_evaluation_frame(before, after, e);
        },
        CyberNodes::VectorLen => {
            assert(after.veclen_post(before, e, host.length));
            lemma_evaluation_frame(before, after, e);
        },
        CyberNodes::Vector => {
            assert(after.vec_post(before, e));
            lemma_evaluation_frame(before, after, e);
        },
    }
}

/// At the end of a frame every node that was ready when it began holds a
/// result, and every other node is in the state it was in.
pub proof fn law_frame_settles_the_ready_nodes<
    S: Fn(Scalar, Scalar) -> Scalar,
    M: Fn(Scalar, Scalar) -> Scalar,
    N: Fn(Scalar) -> Scalar,
    L: Fn(Scalar, Scalar) -> Scalar,
    C: Fn(usize) -> Scalar,
    A: Fn(u32, Scalar) -> bool,
    B: Fn(u32, Scalar) -> bool,
    R: Fn(Vec2) -> HexPos,
    T: Fn(HexPos) -> u64,
>(
    before: &Board,
    passed: Board,
    ends: Seq<Board>,
    ticks: Seq<TickNode>,
    fxs: Seq<Option<Effect>>,
    targets: Seq<TargetableEntity>,
    host: Host<S, M, N, L, C, A, B, R, T>,
)
    requires
        passed.ticked(before, ticks),
        Board::carried_out(passed, ends, ticks, fxs, ticks.len() as int, targets, host),
    ensures
        ({
            let after = board_before(passed, ends, ticks.len() as int);
            &&& after.nodes.len() == before.nodes.len()
            &&& forall|i: int|
                0 <= i < before.nodes.len() && before.ready(i) ==> #[trigger] after.state(i) is Done
            &&& forall|i: int|
                0 <= i < before.nodes.len() && !before.ready(i) ==> #[trigger] after.state(i)
                    == before.state(i)
        }),
{
    lemma_frame_so_far(before, passed, ends, ticks, fxs, targets, host, ticks.len() as int);
    let after = board_before(passed, ends, ticks.len() as int);
    assert forall|i: int| 0 <= i < before.nodes.len() && before.ready(i) implies #[trigger] after.state(
        i,
    ) is Done by {
        let t = TickNode { e: i as usize, node: before.kind_of(i) };
        law_ticks_are_the_ready_nodes(before, before.nodes.len() as nat, t);
        let j = choose|j: int| 0 <= j < ticks.len() && ticks[j] == t;
        assert(ticks[j].e == i);
    }
    assert forall|i: int| 0 <= i < before.nodes.len() && !before.ready(i) implies #[trigger] after.state(
        i,
    ) == before.state(i) by {
        assert forall|j: int| 0 <= j < ticks.len() implies (#[trigger] ticks[j]).e != i by {
            law_ticks_are_the_ready_nodes(before, before.nodes.len() as nat, ticks[j]);
            assert(ticks.contains(ticks[j]));
        }
    }
}

/// After the first `n` evaluations of a frame, every node whose order is
/// among them holds a result, and every node whose order is not is in the
/// state the scheduler pass left it in.
proof fn lemma_frame_so_far<
    S: Fn(Scalar, Scalar) -> Scalar,
    M: Fn(Scalar, Scalar) -> Scalar,
    N: Fn(Scalar) -> Scalar,
    L: Fn(Scalar, Scalar) -> Scalar,
    C: Fn(usize) -> Scalar,
    A: Fn(u32, Scalar) -> bool,
    B: Fn(u32, Scalar) -> bool,
    R: Fn(Vec2) -> HexPos,
    T: Fn(HexPos) -> u64,
>(
    before: &Board,
    passed: Board,
    ends: Seq<Board>,
    ticks: Seq<TickNode>,
    fxs: Seq<Option<Effect>>,
    targets: Seq<TargetableEntity>,
    host: Host<S, M, N, L, C, A, B, R, T>,
    n: int,
)
    requires
        passed.ticked(before, ticks),
        0 <= n <= ticks.len(),
        Board::carried_out(passed, ends, ticks, fxs, ticks.len() as int, targets, host),
    ensures
        ({
            let now = board_before(passed, ends, n);
            &&& now.nodes.len() == before.nodes.len()
            &&& forall|i: int|
                0 <= i < before.nodes.len() ==> if exists|j: int|
                    0 <= j < n && (#[trigger] ticks[j]).e == i {
                    #[trigger] now.state(i) is Done
                } else {
                    now.state(i) == passed.state(i)
                }
        }),
    decreases n,
{
    if n > 0 {
        lemma_frame_so_far(before, passed, ends, ticks, fxs, targets, host, n - 1);
        let earlier = board_before(passed, ends, n - 1);
        let now = board_before(passed, ends, n);
        assert(now == ends[n - 1]);
        assert(ends[n - 1].dispatched(
            &board_before(passed, ends, n - 1),
            ticks[n - 1],
            targets,
            host,
            fxs[n - 1],
        ));
        law_ticks_are_the_ready_nodes(before, before.nodes.len() as nat, ticks[n - 1]);
        assert(ticks.contains(ticks[n - 1]));
        law_evaluation_ends_in_done(&earlier, &now, ticks[n - 1], targets, host, fxs[n - 1]);
        assert forall|i: int| 0 <= i < before.nodes.len() implies if exists|j: int|
            0 <= j < n && (#[trigger] ticks[j]).e == i {
            #[trigger] now.state(i) is Done
        } else {
            now.state(i) == passed.state(i)
        } by {
            if i == ticks[n - 1].e {
                assert(ticks[n - 1].e == i);
            } else {
                assert(now.nodes[i].state == earlier.nodes[i].state);
                if exists|j: int| 0 <= j < n - 1 && (#[trigger] ticks[j]).e == i {
                    let j = choose|j: int| 0 <= j < n - 1 && (#[trigger] ticks[j]).e == i;
                    assert(0 <= j < n && ticks[j].e == i);
                } else {
                    if exists|j: int| 0 <= j < n && (#[trigger] ticks[j]).e == i {
                        let j = choose|j: int| 0 <= j < n && (#[trigger] ticks[j]).e == i;
                        assert(j == n - 1);
                    }
                }
            }
        }
    }
}

/// What an evaluation leaves alone.
pub open spec fn frame_kept(before: &Board, after: &Board, e: int) -> bool {
    &&& after.radius() == before.radius()
    &&& after.nodes.len() == before.nodes.len()
    &&& forall|k: int|
        0 <= k < before.nodes.len() ==> (#[trigger] after.nodes[k]).cfg == before.nodes[k].cfg
            && after.nodes[k].pos == before.nodes[k].pos && after.nodes[k].meta
            == before.nodes[k].meta
    &&& forall|k: int|
        0 <= k < before.nodes.len() && k != e ==> (#[trigger] after.nodes[k]).state
            == before.nodes[k].state
    &&& forall|cell: HexPos|
        (#[trigger] before.node_on(cell)).is_some() ==> after.node_on(cell) == before.node_on(cell)
}

/// An evaluation that keeps the layout leaves every other node, every
/// wiring and every cell as it was.
proof fn lemma_evaluation_frame(before: &Board, after: &Board, e: int)
    requires
        after.evaluated(before, e),
    ensures
        frame_kept(before, after, e),
{
}

/// A projection gives the projector a result and leaves every other
/// node, every wiring and every cell that holds a node as it was.
proof fn lemma_projection_frame<R: Fn(Vec2) -> HexPos, T: Fn(HexPos) -> u64>(
    before: &Board,
    after: &Board,
    e: int,
    round: R,
    spawn: T,
    fx: Option<Effect>,
)
    requires
        0 <= e < before.nodes.len(),
        after.project_post(before, e, round, spawn, fx),
    ensures
        frame_kept(before, after, e),
        after.state(e) is Done,
{
    match crate::eval::vector_of(before.port_data(e, "target"@)) {
        Err(_) => {
            lemma_evaluation_frame(before, after, e);
        },
        Ok(v) => {
            let (cell, terrain) = choose|cell: HexPos, terrain: u64|
                {
                    &&& round.ensures((v,), cell)
                    &&& before.tile_at(cell) == Some(TileType::Unoccupied) ==> spawn.ensures(
                        (cell,),
                        terrain,
                    )
                    &&& #[trigger] after.projected(before, e, cell, terrain, fx)
                };
            match before.tile_at(cell) {
                Some(TileType::Unoccupied) => {
                    assert forall|c: HexPos| (#[trigger] before.node_on(c)).is_some() implies after.node_on(
                        c,
                    ) == before.node_on(c) by {
                        assert(c != cell);
                    }
                },
                _ => {
                    lemma_evaluation_frame(before, after, e);
                },
            }
        },
    }
}

/// Only a node that stands on the board is reached, so pruning disables
/// every node whose cell was cleared.
pub proof fn law_reached_nodes_are_placed(board: &Board, hearts: Seq<HexPos>, i: int)
    requires
        board.wf(),
        0 <= i < board.nodes.len(),
        board.reachable(hearts, i),
    ensures
        board.placed(i),
{
    let path = choose|path: Seq<HexPos>|
        #[trigger] board.is_walk(hearts, path) && path.len() >= 2 && board.node_on(path.last())
            == Some(i as usize);
    assert(board.on_board(path.last()));
}

/// Without a heart no node is reached.
pub proof fn law_no_heart_reaches_nothing(board: &Board, i: int)
    ensures
        !board.reachable(Seq::<HexPos>::empty(), i),
{
    assert forall|path: Seq<HexPos>| !#[trigger] board.is_walk(Seq::<HexPos>::empty(), path) by {
        if path.len() >= 1 {
            assert(!Seq::<HexPos>::empty().contains(path[0]));
        }
    }
}

/// A heart reaches the node on a cell next to it.
pub proof fn law_heart_reaches_its_neighbours(
    board: &Board,
    hearts: Seq<HexPos>,
    h: int,
    d: int,
    i: int,
)
    requires
        0 <= h < hearts.len(),
        0 <= d < 6,
        hearts[h].in_range(),
        board.node_on(hearts[h].step(d)) == Some(i as usize),
    ensures
        board.reachable(hearts, i),
{
    let path = seq![hearts[h], hearts[h].step(d)];
    assert(crate::reach::is_step(hearts[h], d, hearts[h].step(d)));
    assert(crate::reach::touches(path[0], path[1]));
    assert(board.walk_step(path, 1));
    assert(board.is_walk(hearts, path));
    assert(path.last() == hearts[h].step(d));
}

/// A heart that reaches a node reaches the nodes on the cells next to it.
pub proof fn law_reach_spreads(board: &Board, hearts: Seq<HexPos>, i: int, d: int, j: int)
    requires
        board.wf(),
        0 <= i < board.nodes.len(),
        board.reachable(hearts, i),
        0 <= d < 6,
        board.node_on(board.nodes[i].pos.step(d)) == Some(j as usize),
    ensures
        board.reachable(hearts, j),
{
    let path = choose|path: Seq<HexPos>|
        #[trigger] board.is_walk(hearts, path) && path.len() >= 2 && board.node_on(path.last())
            == Some(i as usize);
    let from = path.last();
    assert(board.on_board(from));
    assert(board.nodes[i].pos == from);
    crate::board::lemma_within_in_range(board.radius(), from);
    let next = from.step(d);
    let longer = path.push(next);
    assert(crate::reach::is_step(from, d, next));
    assert(crate::reach::touches(from, next));
    assert forall|k: int| 1 <= k < longer.len() implies #[trigger] board.walk_step(longer, k) by {
        if k < path.len() {
            assert(board.walk_step(path, k));
            assert(longer[k] == path[k]);
            assert(longer[k - 1] == path[k - 1]);
        } else {
            assert(longer[k - 1] == from);
            assert(longer[k] == next);
        }
    }
    assert(longer[0] == path[0]);
    assert(board.is_walk(hearts, longer));
    assert(longer.last() == next);
}

/// Pruning takes the value from a node that no heart reaches: the node
/// is disabled. When a later pruning finds it reached again it is idle,
/// not done; a scheduler pass leaves it idle and orders no evaluation of
/// it, and only the next heartbeat asks it to run.
pub proof fn law_pruned_node_waits_for_heartbeat(
    before: &Board,
    cut: &Board,
    hearts: Seq<HexPos>,
    mended: &Board,
    back: &Board,
    hearts_then: Seq<HexPos>,
    passed: &Board,
    ticks: Seq<TickNode>,
    woken: &Board,
    i: int,
)
    requires
        before.wf(),
        0 <= i < before.nodes.len(),
        !before.reachable(hearts, i),
        cut.pruned(before, hearts),
        0 <= i < mended.nodes.len(),
        mended.state(i) == cut.state(i),
        mended.reachable(hearts_then, i),
        back.pruned(mended, hearts_then),
        passed.ticked(back, ticks),
        woken.requested(back),
    ensures
        cut.state(i) == StateView::Disabled,
        back.state(i) == StateView::Idle,
        passed.state(i) == StateView::Idle,
        forall|k: int| 0 <= k < ticks.len() ==> (#[trigger] ticks[k]).e != i,
        woken.state(i) == StateView::ActivationRequest,
{
    assert forall|k: int| 0 <= k < ticks.len() implies (#[trigger] ticks[k]).e != i by {
        law_ticks_are_the_ready_nodes(back, back.nodes.len() as nat, ticks[k]);
        assert(ticks.contains(ticks[k]));
    }
}

/// Two nodes that feed each other stay as they are through a scheduler
/// pass: neither is ready, neither is ordered to be evaluated, and they
/// feed each other afterwards as before.
pub proof fn law_cycle_stalls(before: &Board, after: &Board, ticks: Seq<TickNode>, a: int, b: int)
    requires
        before.wf(),
        before.stalled(a, b),
        after.ticked(before, ticks),
    ensures
        !before.ready(a),
        !before.ready(b),
        after.stalled(a, b),
        forall|k: int| 0 <= k < ticks.len() ==> (#[trigger] ticks[k]).e != a && ticks[k].e != b,
{
    let da = choose|d: int|
        0 <= d < 6 && (#[trigger] before.nodes[a].cfg.bound(d)).is_some() && before.node_on(
            before.nodes[a].pos.step(d),
        ) == Some(b as usize);
    let db = choose|d: int|
        0 <= d < 6 && (#[trigger] before.nodes[b].cfg.bound(d)).is_some() && before.node_on(
            before.nodes[b].pos.step(d),
        ) == Some(a as usize);
    law_wavefront(before, after, ticks, b, a, da);
    law_wavefront(before, after, ticks, a, b, db);
    assert(after.nodes[a].cfg.bound(da).is_some());
    assert(after.node_on(after.nodes[a].pos.step(da)) == Some(b as usize));
    assert(after.nodes[b].cfg.bound(db).is_some());
    assert(after.node_on(after.nodes[b].pos.step(db)) == Some(a as usize));
}

/// Two nodes that feed each other stay as they are while any other node
/// is evaluated.
pub proof fn law_cycle_outlasts_evaluations<
    S: Fn(Scalar, Scalar) -> Scalar,
    M: Fn(Scalar, Scalar) -> Scalar,
    N: Fn(Scalar) -> Scalar,
    L: Fn(Scalar, Scalar) -> Scalar,
    C: Fn(usize) -> Scalar,
    A: Fn(u32, Scalar) -> bool,
    B: Fn(u32, Scalar) -> bool,
    R: Fn(Vec2) -> HexPos,
    T: Fn(HexPos) -> u64,
>(
    before: &Board,
    after: &Board,
    tick: TickNode,
    targets: Seq<TargetableEntity>,
    host: Host<S, M, N, L, C, A, B, R, T>,
    fx: Option<Effect>,
    a: int,
    b: int,
)
    requires
        before.wf(),
        before.stalled(a, b),
        tick.e < before.nodes.len(),
        tick.e != a,
        tick.e != b,
        after.dispatched(before, tick, targets, host, fx),
    ensures
        after.stalled(a, b),
{
    law_evaluation_ends_in_done(before, after, tick, targets, host, fx);
    let da = choose|d: int|
        0 <= d < 6 && (#[trigger] before.nodes[a].cfg.bound(d)).is_some() && before.node_on(
            before.nodes[a].pos.step(d),
        ) == Some(b as usize);
    let db = choose|d: int|
        0 <= d < 6 && (#[trigger] before.nodes[b].cfg.bound(d)).is_some() && before.node_on(
            before.nodes[b].pos.step(d),
        ) == Some(a as usize);
    assert(after.nodes[a].cfg.bound(da).is_some());
    assert(before.node_on(before.nodes[a].pos.step(da)).is_some());
    assert(after.node_on(after.nodes[a].pos.step(da)) == Some(b as usize));
    assert(after.nodes[b].cfg.bound(db).is_some());
    assert(before.node_on(before.nodes[b].pos.step(db)).is_some());
    assert(after.node_on(after.nodes[b].pos.step(db)) == Some(a as usize));
}

/// The next heartbeat asks both nodes of a cycle to run again, together:
/// they feed each other and wait, as after the heartbeat before.
pub proof fn law_cycle_resets_on_heartbeat(before: &Board, after: &Board, a: int, b: int)
    requires
        before.wf(),
        before.stalled(a, b),
        after.requested(before),
    ensures
        after.stalled(a, b),
{
    let da = choose|d: int|
        0 <= d < 6 && (#[trigger] before.nodes[a].cfg.bound(d)).is_some() && before.node_on(
            before.nodes[a].pos.step(d),
        ) == Some(b as usize);
    let db = choose|d: int|
        0 <= d < 6 && (#[trigger] before.nodes[b].cfg.bound(d)).is_some() && before.node_on(
            before.nodes[b].pos.step(d),
        ) == Some(a as usize);
    assert(after.nodes[a].cfg.bound(da).is_some());
    assert(after.node_on(after.nodes[a].pos.step(da)) == Some(b as usize));
    assert(after.nodes[b].cfg.bound(db).is_some());
    assert(after.node_on(after.nodes[b].pos.step(db)) == Some(a as usize));
}

/// A second heartbeat in the same frame changes no state.
pub proof fn law_heartbeat_is_idempotent(before: &Board, once: &Board, twice: &Board)
    requires
        once.requested(before),
        twice.requested(once),
    ensures
        forall|i: int| 0 <= i < before.nodes.len() ==> #[trigger] twice.state(i) == once.state(i),
{
}

/// A node without wired inputs receives nothing at any port.
pub proof fn law_unwired_ports_are_unconfigured(board: &Board, i: int, name: Seq<char>)
    requires
        0 <= i < board.nodes.len(),
        board.nodes[i].cfg.unwired(),
    ensures
        board.port_data(i, name) == Err::<ValView, CyberError>(CyberError::UnconfiguredPort),
        board.slot_data(i) == Seq::<ValView>::empty(),
{
    assert forall|n: Seq<char>| board.port_direction(i, n, 0) == None::<int> by {
        reveal_with_fuel(Board::port_direction, 7);
        assert(board.nodes[i].cfg.bound(0).is_none());
        assert(board.nodes[i].cfg.bound(1).is_none());
        assert(board.nodes[i].cfg.bound(2).is_none());
        assert(board.nodes[i].cfg.bound(3).is_none());
        assert(board.nodes[i].cfg.bound(4).is_none());
        assert(board.nodes[i].cfg.bound(5).is_none());
    }
    assert(board.slot_data(i) =~= Seq::<ValView>::empty());
}

/// With no input wired, a reduction has nothing to reduce: a subtraction
/// and a product end with zero, and a vector product with the zero
/// vector.
pub proof fn law_reduction_of_nothing_is_zero<F: Fn(Scalar, Scalar) -> Scalar>(
    before: &Board,
    after: &Board,
    e: int,
    op: F,
)
    requires
        0 <= e < before.nodes.len(),
        before.nodes[e].cfg.unwired(),
    ensures
        after.numsub_post(before, e, op) ==> after.state(e) == StateView::Done(
            Ok(ValView::Number(Scalar { bits: 0 })),
        ),
        after.nummul_post(before, e, op) ==> after.state(e) == StateView::Done(
            Ok(ValView::Number(Scalar { bits: 0 })),
        ),
        after.vecmul_post(before, e, op) ==> after.state(e) == StateView::Done(
            Ok(ValView::Vec(Vec2 { x: Scalar { bits: 0 }, y: Scalar { bits: 0 } })),
        ),
{
    law_unwired_ports_are_unconfigured(before, e, "a"@);
    assert(numbers_in(Seq::<ValView>::empty()) =~= Seq::<Scalar>::empty());
    assert(vectors_in(Seq::<ValView>::empty()) =~= Seq::<Vec2>::empty());
    assert(xs_of(Seq::<Vec2>::empty()) =~= Seq::<Scalar>::empty());
    assert(ys_of(Seq::<Vec2>::empty()) =~= Seq::<Scalar>::empty());
}

/// A fold over one number is that number, whatever the operation.
pub proof fn law_fold_of_one<F: Fn(Scalar, Scalar) -> Scalar>(op: F, x: Scalar, r: Scalar)
    ensures
        folds_to(op, seq![x], r) <==> r == x,
{
    if r == x {
        assert(fold_trace(op, seq![x], seq![x]));
        assert(seq![x].last() == r);
    }
}

/// A fold goes from the left: the result for a list and one more number
/// is what the operation gives for the result of the list and that
/// number.
pub proof fn law_fold_goes_left<F: Fn(Scalar, Scalar) -> Scalar>(
    op: F,
    xs: Seq<Scalar>,
    x: Scalar,
    r: Scalar,
)
    requires
        xs.len() > 0,
    ensures
        folds_to(op, xs.push(x), r) <==> exists|acc: Scalar|
            folds_to(op, xs, acc) && #[trigger] op.ensures((acc, x), r),
{
    let longer = xs.push(x);
    if folds_to(op, longer, r) {
        let accs = choose|accs: Seq<Scalar>| #[trigger]
            fold_trace(op, longer, accs) && accs.last() == r;
        let shorter = accs.drop_last();
        assert forall|i: int| 1 <= i < xs.len() implies op.ensures(
            (shorter[i - 1], xs[i]),
            #[trigger] shorter[i],
        ) by {
            assert(op.ensures((accs[i - 1], longer[i]), accs[i]));
        }
        assert(fold_trace(op, xs, shorter));
        let acc = shorter.last();
        assert(op.ensures((accs[xs.len() - 1], longer[xs.len() as int]), accs[xs.len() as int]));
        assert(folds_to(op, xs, acc) && op.ensures((acc, x), r));
    }
    if exists|acc: Scalar| folds_to(op, xs, acc) && #[trigger] op.ensures((acc, x), r) {
        let acc = choose|acc: Scalar| folds_to(op, xs, acc) && #[trigger] op.ensures((acc, x), r);
        let shorter = choose|accs: Seq<Scalar>| #[trigger]
            fold_trace(op, xs, accs) && accs.last() == acc;
        let accs = shorter.push(r);
        assert forall|i: int| 1 <= i < longer.len() implies op.ensures(
            (accs[i - 1], longer[i]),
            #[trigger] accs[i],
        ) by {
            if i < xs.len() {
                assert(op.ensures((shorter[i - 1], xs[i]), shorter[i]));
            }
        }
        assert(fold_trace(op, longer, accs));
        assert(accs.last() == r);
    }
}

} // verus!
