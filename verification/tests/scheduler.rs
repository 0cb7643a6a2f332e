use cybernodes::board::{Board, PickedItem};
use cybernodes::dispatch::Host;
use std::cell::Cell;
use cybernodes::effects::{Effect, TargetableEntity};
use cybernodes::hex::{Direction, HexPos};
use cybernodes::kinds::CyberNodes;
use cybernodes::node::CyberState;
use cybernodes::registry::Registry;
use cybernodes::sched::TickNode;
use cybernodes::tile::TileType;
use cybernodes::value::{CyberError, Scalar, Val, Vec2};

fn num(x: f32) -> Scalar {
    Scalar { bits: x.to_bits() }
}

fn float(s: Scalar) -> f32 {
    f32::from_bits(s.bits)
}

fn vec2(x: f32, y: f32) -> Vec2 {
    Vec2 { x: num(x), y: num(y) }
}

fn round(v: Vec2) -> HexPos {
    let h = hexx::Hex::round([float(v.x), float(v.y)]);
    HexPos::new(h.x, h.y)
}

fn board(radius: u32) -> Board {
    let mut b = Board::new(radius, Registry::standard()).expect("radius within limit");
    assert!(b.occupy(HexPos::new(0, 0), TileType::Heart(1)));
    b
}

fn hearts() -> Vec<HexPos> {
    vec![HexPos::new(0, 0)]
}

fn place(b: &mut Board, kind: CyberNodes, x: i32, y: i32) -> usize {
    let item = b.registry.find_kind(kind).expect("kind in the registry");
    b.tile_purchased(PickedItem { item, tile: HexPos::new(x, y) }).expect("free cell on the board")
}

fn wire(b: &mut Board, node: usize, dir: Direction, name: &str) -> bool {
    let item = b.nodes[node].meta.0;
    let port = b.registry.find_input(item, name).expect("port of the kind");
    b.grid_pick(node, dir, port)
}

fn constant(b: &mut Board, x: i32, y: i32, v: Val) -> usize {
    let n = place(b, CyberNodes::ConstantNumber, x, y);
    assert!(b.set_constant(n, v));
    n
}

/// One frame with ordinary single-precision arithmetic. Terrain entities
/// are numbered from 1000 on.
fn frame(b: &mut Board, targets: &Vec<TargetableEntity>) -> (Vec<TickNode>, Vec<Effect>) {
    let next = Cell::new(1000u64);
    let host = Host {
        sub: |a: Scalar, c: Scalar| num(float(a) - float(c)),
        mul: |a: Scalar, c: Scalar| num(float(a) * float(c)),
        neg: |a: Scalar| num(-float(a)),
        length: |x: Scalar, y: Scalar| num(glam::Vec2::new(float(x), float(y)).length()),
        from_count: |n: usize| num(n as f32),
        at_least: |n: u32, t: Scalar| n as f32 >= float(t),
        at_most: |n: u32, t: Scalar| n as f32 <= float(t),
        round: round,
        spawn: |_: HexPos| {
            let id = next.get();
            next.set(id + 1);
            id
        },
    };
    b.frame(targets, &host)
}

fn done(v: Val) -> CyberState {
    CyberState::Done(Ok(v))
}

fn failed(e: CyberError) -> CyberState {
    CyberState::Done(Err(e))
}

fn enemy(id: u64, x: i32, y: i32) -> TargetableEntity {
    TargetableEntity {
        id,
        cell: HexPos::new(x, y),
        pos: vec2(x as f32 + 0.25, y as f32 - 0.25),
        dir: vec2(0.6, -0.8),
    }
}

#[test]
fn unwired_node_fires_on_first_pass() {
    let mut b = board(3);
    let c = constant(&mut b, 1, 0, Val::Number(num(7.0)));
    b.disable_disconnected(&hearts());
    assert_eq!(b.nodes[c].state, CyberState::Idle);
    b.request_nodes();
    assert_eq!(b.nodes[c].state, CyberState::ActivationRequest);
    let (ticks, effects) = frame(&mut b, &vec![]);
    assert_eq!(ticks, vec![TickNode::new(c, CyberNodes::ConstantNumber)]);
    assert!(effects.is_empty());
    assert_eq!(b.nodes[c].state, done(Val::Number(num(7.0))));
}

#[test]
fn scheduler_pass_only_triggers() {
    let mut b = board(3);
    let c = constant(&mut b, 1, 0, Val::Number(num(7.0)));
    b.disable_disconnected(&hearts());
    b.request_nodes();
    let ticks = b.tick_nodes();
    assert_eq!(ticks.len(), 1);
    assert_eq!(b.nodes[c].state, CyberState::Triggered);
    let again = b.tick_nodes();
    assert!(again.is_empty());
    assert_eq!(b.nodes[c].state, CyberState::Triggered);
}

#[test]
fn consumer_fires_one_frame_after_producer() {
    let mut b = board(3);
    // A at (1, 0); B at (2, 0) takes A from its left as "x" and "y" is
    // fed from (2, 1).
    let a = constant(&mut b, 1, 0, Val::Number(num(3.0)));
    let y = constant(&mut b, 2, 1, Val::Number(num(4.0)));
    let v = place(&mut b, CyberNodes::Vector, 2, 0);
    assert!(wire(&mut b, v, Direction::TopLeft, "x"));
    assert!(wire(&mut b, v, Direction::Bottom, "y"));
    let len = place(&mut b, CyberNodes::VectorLen, 3, 0);
    assert!(wire(&mut b, len, Direction::TopLeft, "vector"));
    b.disable_disconnected(&hearts());
    b.request_nodes();

    let (ticks, _) = frame(&mut b, &vec![]);
    assert_eq!(ticks.iter().map(|t| t.e).collect::<Vec<_>>(), vec![a, y]);
    assert_eq!(b.nodes[a].state, done(Val::Number(num(3.0))));
    assert_eq!(b.nodes[v].state, CyberState::ActivationRequest);
    assert_eq!(b.nodes[len].state, CyberState::ActivationRequest);

    let (ticks, _) = frame(&mut b, &vec![]);
    assert_eq!(ticks, vec![TickNode::new(v, CyberNodes::Vector)]);
    assert_eq!(b.nodes[v].state, done(Val::Vec(vec2(3.0, 4.0))));
    assert_eq!(b.nodes[len].state, CyberState::ActivationRequest);

    let (ticks, _) = frame(&mut b, &vec![]);
    assert_eq!(ticks, vec![TickNode::new(len, CyberNodes::VectorLen)]);
    assert_eq!(b.nodes[len].state, done(Val::Number(num(5.0))));

    let (ticks, _) = frame(&mut b, &vec![]);
    assert!(ticks.is_empty());
}

#[test]
fn producer_with_higher_index_does_not_feed_same_pass() {
    let mut b = board(3);
    // the consumer is placed first, so the pass reaches it before the
    // producer; it must wait all the same
    let neg = place(&mut b, CyberNodes::VectorLen, 1, 0);
    let a = constant(&mut b, 2, 0, Val::Vec(vec2(0.0, -2.0)));
    assert!(wire(&mut b, neg, Direction::BottomRight, "vector"));
    b.disable_disconnected(&hearts());
    b.request_nodes();
    let (ticks, _) = frame(&mut b, &vec![]);
    assert_eq!(ticks, vec![TickNode::new(a, CyberNodes::ConstantNumber)]);
    assert_eq!(b.nodes[neg].state, CyberState::ActivationRequest);
    let (ticks, _) = frame(&mut b, &vec![]);
    assert_eq!(ticks, vec![TickNode::new(neg, CyberNodes::VectorLen)]);
    assert_eq!(b.nodes[neg].state, done(Val::Number(num(2.0))));
}

#[test]
fn rebinding_a_port_removes_the_older_binding() {
    let mut b = board(3);
    let n = place(&mut b, CyberNodes::NumberSub, 1, 0);
    let item = b.nodes[n].meta.0;
    let pa = b.registry.find_input(item, "a").unwrap();
    let pb = b.registry.find_input(item, "b").unwrap();
    assert!(b.grid_pick(n, Direction::Top, pa));
    assert_eq!(b.nodes[n].cfg.inputs[Direction::Top.index()], Some(pa));
    assert!(b.grid_pick(n, Direction::Bottom, pa));
    assert_eq!(b.nodes[n].cfg.inputs[Direction::Top.index()], None);
    assert_eq!(b.nodes[n].cfg.inputs[Direction::Bottom.index()], Some(pa));
    assert_eq!(b.nodes[n].cfg.direction_of(pa), Some(Direction::Bottom));
    assert_eq!(b.nodes[n].cfg.inputs.iter().filter(|s| **s == Some(pa)).count(), 1);

    // a taken direction turns the request down, and the port loses the
    // binding it had
    assert!(b.grid_pick(n, Direction::Top, pb));
    assert!(!b.grid_pick(n, Direction::Top, pa));
    assert_eq!(b.nodes[n].cfg.inputs[Direction::Top.index()], Some(pb));
    assert_eq!(b.nodes[n].cfg.direction_of(pa), None);

    // no such node, no such port
    assert!(!b.grid_pick(n + 1, Direction::Top, pa));
    assert!(!b.grid_pick(n, Direction::Top, b.registry.ports.len()));
}

#[test]
fn pruning_disables_unreached_nodes_and_keeps_reached_ones() {
    let mut b = board(4);
    let near = constant(&mut b, 1, 0, Val::Number(num(1.0)));
    let next = constant(&mut b, 2, 0, Val::Number(num(2.0)));
    let far = constant(&mut b, 0, 3, Val::Number(num(3.0)));
    b.disable_disconnected(&hearts());
    assert_eq!(b.nodes[near].state, CyberState::Idle);
    assert_eq!(b.nodes[next].state, CyberState::Idle);
    assert_eq!(b.nodes[far].state, CyberState::Disabled);

    b.request_nodes();
    assert_eq!(b.nodes[far].state, CyberState::Disabled);
    frame(&mut b, &vec![]);
    assert_eq!(b.nodes[next].state, done(Val::Number(num(2.0))));

    // pruning leaves a reached node's result alone
    b.disable_disconnected(&hearts());
    assert_eq!(b.nodes[next].state, done(Val::Number(num(2.0))));

    // cutting the chain takes the result from the node behind the cut
    assert_eq!(
        b.remove_node(HexPos::new(1, 0)),
        Some(TileType::CyberNode { meta: b.nodes[near].meta.0, e: near })
    );
    assert_eq!(b.nodes[near].state, CyberState::Disabled);
    b.disable_disconnected(&hearts());
    assert_eq!(b.nodes[next].state, CyberState::Disabled);

    // mending it makes the node idle, and only a heartbeat runs it again
    let mend = constant(&mut b, 1, 0, Val::Number(num(9.0)));
    b.disable_disconnected(&hearts());
    assert_eq!(b.nodes[mend].state, CyberState::Idle);
    assert_eq!(b.nodes[next].state, CyberState::Idle);
    let (ticks, _) = frame(&mut b, &vec![]);
    assert!(ticks.is_empty());
    assert_eq!(b.nodes[next].state, CyberState::Idle);
    b.request_nodes();
    frame(&mut b, &vec![]);
    assert_eq!(b.nodes[next].state, done(Val::Number(num(2.0))));
}

#[test]
fn pruning_without_hearts_disables_everything() {
    let mut b = board(3);
    let c = constant(&mut b, 1, 0, Val::Number(num(1.0)));
    b.disable_disconnected(&vec![]);
    assert_eq!(b.nodes[c].state, CyberState::Disabled);
    // a heart far off the board reaches nothing either
    b.disable_disconnected(&vec![HexPos::new(i32::MAX, i32::MIN)]);
    assert_eq!(b.nodes[c].state, CyberState::Disabled);
}

#[test]
fn pruning_reaches_around_corners_and_from_two_hearts() {
    let mut b = board(4);
    assert!(b.occupy(HexPos::new(-3, 0), TileType::Heart(2)));
    let a = constant(&mut b, 1, 0, Val::Empty);
    let c = constant(&mut b, 1, 1, Val::Empty);
    let d = constant(&mut b, 0, 2, Val::Empty);
    let e = constant(&mut b, -4, 0, Val::Empty);
    let lone = constant(&mut b, 3, -3, Val::Empty);
    b.disable_disconnected(&vec![HexPos::new(0, 0), HexPos::new(-3, 0)]);
    assert_eq!(b.nodes[a].state, CyberState::Idle);
    assert_eq!(b.nodes[c].state, CyberState::Idle);
    assert_eq!(b.nodes[d].state, CyberState::Idle);
    assert_eq!(b.nodes[e].state, CyberState::Idle);
    assert_eq!(b.nodes[lone].state, CyberState::Disabled);
    b.disable_disconnected(&hearts());
    assert_eq!(b.nodes[e].state, CyberState::Disabled);
    assert_eq!(b.nodes[d].state, CyberState::Idle);
}

fn subtraction(operands: &[(Direction, &str, HexPos, f32)]) -> CyberState {
    let mut b = board(3);
    let n = place(&mut b, CyberNodes::NumberSub, 1, 0);
    for (dir, name, at, value) in operands {
        constant(&mut b, at.x, at.y, Val::Number(num(*value)));
        assert!(wire(&mut b, n, *dir, name));
    }
    b.disable_disconnected(&hearts());
    b.request_nodes();
    frame(&mut b, &vec![]);
    frame(&mut b, &vec![]);
    let mut copy = Board::new(0, Registry::new()).unwrap();
    std::mem::swap(&mut copy, &mut b);
    copy.nodes.swap_remove(n).state
}

#[test]
fn number_subtract_folds_in_port_order() {
    // the ports are wired against their clockwise order on purpose
    let got = subtraction(&[
        (Direction::Top, "a", HexPos::new(1, -1), 10.0),
        (Direction::BottomRight, "c", HexPos::new(2, 0), 2.0),
        (Direction::TopRight, "b", HexPos::new(2, -1), 3.0),
    ]);
    assert_eq!(got, done(Val::Number(num(5.0))));
}

#[test]
fn number_subtract_with_one_input_yields_it() {
    let got = subtraction(&[(Direction::Top, "a", HexPos::new(1, -1), 10.0)]);
    assert_eq!(got, done(Val::Number(num(10.0))));
}

#[test]
fn number_subtract_starts_with_first_present_port() {
    let got = subtraction(&[
        (Direction::Top, "d", HexPos::new(1, -1), 1.5),
        (Direction::TopRight, "b", HexPos::new(2, -1), 4.0),
    ]);
    assert_eq!(got, done(Val::Number(num(2.5))));
}

#[test]
fn reducers_without_inputs_yield_zero() {
    let mut b = board(3);
    let sub = place(&mut b, CyberNodes::NumberSub, 1, 0);
    let mul = place(&mut b, CyberNodes::NumberMul, 0, 1);
    let vmul = place(&mut b, CyberNodes::VectorMul, -1, 1);
    b.disable_disconnected(&hearts());
    b.request_nodes();
    let (ticks, _) = frame(&mut b, &vec![]);
    assert_eq!(ticks.len(), 3);
    assert_eq!(b.nodes[sub].state, done(Val::Number(num(0.0))));
    assert_eq!(b.nodes[mul].state, done(Val::Number(num(0.0))));
    assert_eq!(b.nodes[vmul].state, done(Val::Vec(vec2(0.0, 0.0))));
}

#[test]
fn products_multiply_what_is_present_and_pass_over_other_types() {
    let mut b = board(3);
    let mul = place(&mut b, CyberNodes::NumberMul, 1, 0);
    constant(&mut b, 1, -1, Val::Number(num(1.5)));
    constant(&mut b, 2, -1, Val::Vec(vec2(9.0, 9.0)));
    constant(&mut b, 2, 0, Val::Number(num(-4.0)));
    assert!(wire(&mut b, mul, Direction::Top, "a"));
    assert!(wire(&mut b, mul, Direction::TopRight, "b"));
    assert!(wire(&mut b, mul, Direction::BottomRight, "e"));
    let vmul = place(&mut b, CyberNodes::VectorMul, -1, 0);
    constant(&mut b, -1, -1, Val::Vec(vec2(2.0, 3.0)));
    constant(&mut b, -2, 0, Val::Vec(vec2(-0.5, 4.0)));
    constant(&mut b, -2, 1, Val::Number(num(100.0)));
    assert!(wire(&mut b, vmul, Direction::Top, "b"));
    assert!(wire(&mut b, vmul, Direction::TopLeft, "c"));
    assert!(wire(&mut b, vmul, Direction::BottomLeft, "d"));
    b.disable_disconnected(&hearts());
    b.request_nodes();
    frame(&mut b, &vec![]);
    frame(&mut b, &vec![]);
    assert_eq!(b.nodes[mul].state, done(Val::Number(num(-6.0))));
    assert_eq!(b.nodes[vmul].state, done(Val::Vec(vec2(-1.0, 12.0))));
}

#[test]
fn two_cycle_stalls_and_resets_on_heartbeat() {
    let mut b = board(3);
    let a = place(&mut b, CyberNodes::VectorNeg, 1, 0);
    let c = place(&mut b, CyberNodes::VectorNeg, 2, 0);
    let free = constant(&mut b, 0, 1, Val::Number(num(1.0)));
    assert!(wire(&mut b, a, Direction::BottomRight, "vector"));
    assert!(wire(&mut b, c, Direction::TopLeft, "vector"));
    b.disable_disconnected(&hearts());
    b.request_nodes();
    for pass in 0..5 {
        let (ticks, _) = frame(&mut b, &vec![]);
        assert_eq!(ticks.len(), if pass == 0 { 1 } else { 0 });
        assert_eq!(b.nodes[a].state, CyberState::ActivationRequest);
        assert_eq!(b.nodes[c].state, CyberState::ActivationRequest);
    }
    assert_eq!(b.nodes[free].state, done(Val::Number(num(1.0))));
    b.request_nodes();
    assert_eq!(b.nodes[a].state, CyberState::ActivationRequest);
    assert_eq!(b.nodes[c].state, CyberState::ActivationRequest);
    assert_eq!(b.nodes[free].state, CyberState::ActivationRequest);
    let (ticks, _) = frame(&mut b, &vec![]);
    assert_eq!(ticks, vec![TickNode::new(free, CyberNodes::ConstantNumber)]);
}

#[test]
fn heartbeat_twice_is_heartbeat_once() {
    let mut b = board(3);
    let c = constant(&mut b, 1, 0, Val::Number(num(1.0)));
    let far = constant(&mut b, 3, -3, Val::Number(num(1.0)));
    b.disable_disconnected(&hearts());
    b.request_nodes();
    frame(&mut b, &vec![]);
    assert_eq!(b.nodes[c].state, done(Val::Number(num(1.0))));
    b.request_nodes();
    b.request_nodes();
    assert_eq!(b.nodes[c].state, CyberState::ActivationRequest);
    assert_eq!(b.nodes[far].state, CyberState::Disabled);
}

#[test]
fn plasma_fires_on_third_heartbeat() {
    let mut b = board(3);
    let p = place(&mut b, CyberNodes::Plasma, 1, 0);
    constant(&mut b, 2, 0, Val::Vec(vec2(2.4, -1.3)));
    constant(&mut b, 1, 1, Val::Number(num(3.0)));
    assert!(wire(&mut b, p, Direction::BottomRight, "target"));
    assert!(wire(&mut b, p, Direction::Bottom, "threshold"));
    b.disable_disconnected(&hearts());
    let mut outputs = Vec::new();
    let mut fired = Vec::new();
    for _ in 0..4 {
        b.request_nodes();
        frame(&mut b, &vec![]);
        let (_, effects) = frame(&mut b, &vec![]);
        match &b.nodes[p].state {
            CyberState::Done(Ok(Val::Number(n))) => outputs.push(float(*n)),
            other => panic!("plasma ended with {:?}", other),
        }
        fired.push((effects, b.nodes[p].charge));
    }
    assert_eq!(outputs, vec![0.0, 0.0, 3.0, 0.0]);
    assert_eq!(fired[0], (vec![], 1));
    assert_eq!(fired[1], (vec![], 2));
    assert_eq!(
        fired[2],
        (vec![Effect::Plasma { aim: vec2(2.4, -1.3), cell: HexPos::new(2, -1), charge: 3 }], 0)
    );
    assert_eq!(fired[3], (vec![], 1));
}

#[test]
fn plasma_without_threshold_fires_every_heartbeat() {
    let mut b = board(3);
    let p = place(&mut b, CyberNodes::Plasma, 1, 0);
    constant(&mut b, 2, 0, Val::Vec(vec2(0.0, 0.0)));
    assert!(wire(&mut b, p, Direction::BottomRight, "target"));
    b.disable_disconnected(&hearts());
    for _ in 0..2 {
        b.request_nodes();
        frame(&mut b, &vec![]);
        let (_, effects) = frame(&mut b, &vec![]);
        assert_eq!(
            effects,
            vec![Effect::Plasma { aim: vec2(0.0, 0.0), cell: HexPos::new(0, 0), charge: 1 }]
        );
        assert_eq!(b.nodes[p].state, done(Val::Number(num(1.0))));
        assert_eq!(b.nodes[p].charge, 0);
    }
}

#[test]
fn plasma_without_target_keeps_its_charge() {
    let mut b = board(3);
    let p = place(&mut b, CyberNodes::Plasma, 1, 0);
    b.disable_disconnected(&hearts());
    b.request_nodes();
    let (_, effects) = frame(&mut b, &vec![]);
    assert!(effects.is_empty());
    assert_eq!(b.nodes[p].state, failed(CyberError::UnconfiguredPort));
    assert_eq!(b.nodes[p].charge, 0);
}

#[test]
fn list_construct_flattens_one_level() {
    let mut b = board(3);
    let l = place(&mut b, CyberNodes::List, 1, 0);
    constant(&mut b, 1, -1, Val::Number(num(1.0)));
    constant(&mut b, 2, -1, Val::List(vec![Val::Number(num(2.0)), Val::Number(num(3.0))]));
    assert!(wire(&mut b, l, Direction::Top, "a"));
    assert!(wire(&mut b, l, Direction::TopRight, "b"));
    b.disable_disconnected(&hearts());
    b.request_nodes();
    frame(&mut b, &vec![]);
    frame(&mut b, &vec![]);
    assert_eq!(
        b.nodes[l].state,
        done(Val::List(vec![Val::Number(num(1.0)), Val::Number(num(2.0)), Val::Number(num(3.0))]))
    );
}

#[test]
fn list_construct_drops_empty_and_keeps_inner_lists() {
    let mut b = board(3);
    let l = place(&mut b, CyberNodes::List, 1, 0);
    constant(&mut b, 1, -1, Val::Empty);
    constant(
        &mut b,
        2, -1,
        Val::List(vec![Val::List(vec![Val::Entity(4)]), Val::Empty, Val::Text("x".to_string())]),
    );
    constant(&mut b, 2, 0, Val::Entity(9));
    assert!(wire(&mut b, l, Direction::Top, "c"));
    assert!(wire(&mut b, l, Direction::TopRight, "e"));
    assert!(wire(&mut b, l, Direction::BottomRight, "a"));
    b.disable_disconnected(&hearts());
    b.request_nodes();
    frame(&mut b, &vec![]);
    frame(&mut b, &vec![]);
    assert_eq!(
        b.nodes[l].state,
        done(Val::List(vec![
            Val::Entity(9),
            Val::List(vec![Val::Entity(4)]),
            Val::Empty,
            Val::Text("x".to_string()),
        ]))
    );
}

#[test]
fn list_length_counts_items() {
    let mut b = board(3);
    let n = place(&mut b, CyberNodes::ListLength, 1, 0);
    constant(&mut b, 2, 0, Val::List(vec![Val::Empty, Val::Entity(1), Val::Entity(1)]));
    assert!(wire(&mut b, n, Direction::BottomRight, "list"));
    let wrong = place(&mut b, CyberNodes::ListLength, 0, 1);
    constant(&mut b, 0, 2, Val::Number(num(3.0)));
    assert!(wire(&mut b, wrong, Direction::Bottom, "list"));
    b.disable_disconnected(&hearts());
    b.request_nodes();
    frame(&mut b, &vec![]);
    frame(&mut b, &vec![]);
    assert_eq!(b.nodes[n].state, done(Val::Number(num(3.0))));
    assert_eq!(b.nodes[wrong].state, failed(CyberError::TypeMismatch));
}

#[test]
fn vector_nodes_compute() {
    let mut b = board(3);
    let neg = place(&mut b, CyberNodes::VectorNeg, 1, 0);
    constant(&mut b, 2, 0, Val::Vec(vec2(1.5, -2.0)));
    assert!(wire(&mut b, neg, Direction::BottomRight, "vector"));
    let v = place(&mut b, CyberNodes::Vector, 0, 1);
    constant(&mut b, 0, 2, Val::Number(num(8.0)));
    assert!(wire(&mut b, v, Direction::Bottom, "x"));
    b.disable_disconnected(&hearts());
    b.request_nodes();
    frame(&mut b, &vec![]);
    frame(&mut b, &vec![]);
    assert_eq!(b.nodes[neg].state, done(Val::Vec(vec2(-1.5, 2.0))));
    // "y" is not wired
    assert_eq!(b.nodes[v].state, failed(CyberError::UnconfiguredPort));
}

#[test]
fn constant_without_value_fails() {
    let mut b = board(3);
    let c = place(&mut b, CyberNodes::ConstantNumber, 1, 0);
    b.disable_disconnected(&hearts());
    b.request_nodes();
    frame(&mut b, &vec![]);
    assert_eq!(b.nodes[c].state, failed(CyberError::MissingConstant));
}

#[test]
fn input_from_empty_cell_never_resolves() {
    let mut b = board(3);
    let n = place(&mut b, CyberNodes::VectorNeg, 1, 0);
    assert!(wire(&mut b, n, Direction::BottomRight, "vector"));
    b.disable_disconnected(&hearts());
    b.request_nodes();
    let (ticks, _) = frame(&mut b, &vec![]);
    assert!(ticks.is_empty());
    assert_eq!(b.nodes[n].state, CyberState::ActivationRequest);
    // evaluated all the same, the node reports the neighbour
    assert_eq!(b.fetch_port_data(n, "vector"), Err(CyberError::UnresolvedNeighbor));
    assert_eq!(b.fetch_port_data(n, "other"), Err(CyberError::UnconfiguredPort));
    assert_eq!(b.port_by_name(n, "vector"), None);
    b.vecneg_tick(n, &|a: Scalar| a);
    assert_eq!(b.nodes[n].state, failed(CyberError::UnresolvedNeighbor));
}

#[test]
fn input_from_failed_neighbour_is_not_resolved() {
    let mut b = board(3);
    let bad = place(&mut b, CyberNodes::ConstantNumber, 2, 0);
    let n = place(&mut b, CyberNodes::VectorNeg, 1, 0);
    assert!(wire(&mut b, n, Direction::BottomRight, "vector"));
    b.disable_disconnected(&hearts());
    b.request_nodes();
    frame(&mut b, &vec![]);
    assert_eq!(b.nodes[bad].state, failed(CyberError::MissingConstant));
    let (ticks, _) = frame(&mut b, &vec![]);
    assert!(ticks.is_empty());
    assert_eq!(b.port_by_name(n, "vector"), Some(bad));
    assert_eq!(b.fetch_port_data(n, "vector"), Err(CyberError::UpstreamNotDone));
}

#[test]
fn lazor_hits_its_target() {
    let mut b = board(3);
    let l = place(&mut b, CyberNodes::Lazor, 1, 0);
    constant(&mut b, 2, 0, Val::Entity(77));
    assert!(wire(&mut b, l, Direction::BottomRight, "target"));
    b.disable_disconnected(&hearts());
    b.request_nodes();
    let targets = vec![enemy(5, 0, 2), enemy(77, 2, 2)];
    frame(&mut b, &targets);
    let (_, effects) = frame(&mut b, &targets);
    assert_eq!(effects, vec![Effect::Lazor { from: HexPos::new(1, 0), target: 77, damage: 15 }]);
    assert_eq!(b.nodes[l].state, done(Val::Empty));

    b.request_nodes();
    frame(&mut b, &vec![enemy(5, 0, 2)]);
    let (_, effects) = frame(&mut b, &vec![enemy(5, 0, 2)]);
    assert!(effects.is_empty());
    assert_eq!(b.nodes[l].state, failed(CyberError::TargetVanished));
}

#[test]
fn closest_entity_is_the_nearest_in_sight() {
    let mut b = board(3);
    let c = place(&mut b, CyberNodes::ClosestEntity, 1, 0);
    let near = place(&mut b, CyberNodes::NearbyEntities, 0, 1);
    b.disable_disconnected(&hearts());
    b.request_nodes();
    let targets = vec![enemy(1, 9, 0), enemy(2, 4, 0), enemy(3, 10, 0), enemy(4, 1, 3), enemy(5, 2, -1)];
    frame(&mut b, &targets);
    // from (1, 0): 8, 3, 9, 3, 1 steps
    assert_eq!(b.nodes[c].state, done(Val::Entity(5)));
    // from (0, 1): 9, 4, 10, 3, 2 steps
    assert_eq!(
        b.nodes[near].state,
        done(Val::List(vec![Val::Entity(2), Val::Entity(4), Val::Entity(5)]))
    );

    b.request_nodes();
    let targets = vec![enemy(1, 10, 0), enemy(2, 4, 0), enemy(4, 1, 3)];
    frame(&mut b, &targets);
    assert_eq!(b.nodes[c].state, done(Val::Entity(2)));

    b.request_nodes();
    frame(&mut b, &vec![enemy(1, 10, 0), enemy(9, i32::MAX, 0)]);
    assert_eq!(b.nodes[c].state, failed(CyberError::NothingInRange));
    assert_eq!(b.nodes[near].state, done(Val::List(vec![])));
}

#[test]
fn entity_position_and_direction_come_from_the_world() {
    let mut b = board(3);
    let p = place(&mut b, CyberNodes::EntityPos, 1, 0);
    let d = place(&mut b, CyberNodes::EntityDirection, 2, -1);
    constant(&mut b, 2, 0, Val::Entity(3));
    assert!(wire(&mut b, p, Direction::BottomRight, "target"));
    assert!(wire(&mut b, d, Direction::Bottom, "target"));
    b.disable_disconnected(&hearts());
    b.request_nodes();
    let targets = vec![enemy(3, 5, -2)];
    frame(&mut b, &targets);
    frame(&mut b, &targets);
    assert_eq!(b.nodes[p].state, done(Val::Vec(vec2(5.25, -2.25))));
    assert_eq!(b.nodes[d].state, done(Val::Vec(vec2(0.6, -0.8))));
    b.request_nodes();
    frame(&mut b, &vec![]);
    frame(&mut b, &vec![]);
    assert_eq!(b.nodes[p].state, failed(CyberError::TargetVanished));
    assert_eq!(b.nodes[d].state, failed(CyberError::TargetVanished));
}

#[test]
fn rocket_and_orbital_ask_for_their_effects() {
    let mut b = board(3);
    let r = place(&mut b, CyberNodes::RocketLauncher, 1, 0);
    let o = place(&mut b, CyberNodes::Orbital, 2, -1);
    constant(&mut b, 2, 0, Val::Vec(vec2(3.0, -4.0)));
    assert!(wire(&mut b, r, Direction::BottomRight, "direction"));
    assert!(wire(&mut b, o, Direction::Bottom, "target"));
    b.disable_disconnected(&hearts());
    b.request_nodes();
    frame(&mut b, &vec![]);
    let (_, effects) = frame(&mut b, &vec![]);
    assert_eq!(
        effects,
        vec![
            Effect::Rocket { from: HexPos::new(1, 0), direction: vec2(3.0, -4.0) },
            Effect::Orbital { aim: vec2(3.0, -4.0), cell: HexPos::new(3, -4) },
        ]
    );
    assert_eq!(b.nodes[r].state, done(Val::Empty));
    assert_eq!(b.nodes[o].state, done(Val::Empty));
}

#[test]
fn tesla_counts_the_targets_it_hits() {
    let mut b = board(3);
    let t = place(&mut b, CyberNodes::Shock, 1, 0);
    constant(
        &mut b,
        2, 0,
        Val::List(vec![Val::Entity(1), Val::Number(num(2.0)), Val::Entity(8), Val::Entity(3)]),
    );
    assert!(wire(&mut b, t, Direction::BottomRight, "targets"));
    b.disable_disconnected(&hearts());
    b.request_nodes();
    let targets = vec![enemy(3, 0, 0), enemy(1, 1, 1)];
    frame(&mut b, &targets);
    let (_, effects) = frame(&mut b, &targets);
    assert_eq!(
        effects,
        vec![Effect::Shock { from: HexPos::new(1, 0), targets: vec![1, 3], damage: 5 }]
    );
    assert_eq!(b.nodes[t].state, done(Val::Number(num(2.0))));
}

fn projection(aim: Vec2) -> (Board, usize, Vec<Effect>) {
    let mut b = board(3);
    let p = place(&mut b, CyberNodes::Project, 1, 0);
    constant(&mut b, 2, 0, Val::Vec(aim));
    assert!(wire(&mut b, p, Direction::BottomRight, "target"));
    b.disable_disconnected(&hearts());
    b.request_nodes();
    frame(&mut b, &vec![]);
    let (_, effects) = frame(&mut b, &vec![]);
    (b, p, effects)
}

#[test]
fn project_tile_places_terrain_on_a_free_cell() {
    let (b, p, effects) = projection(vec2(-1.2, 2.1));
    assert_eq!(effects, vec![Effect::ProjectTile { cell: HexPos::new(-1, 2), terrain: 1000, health: 10 }]);
    assert_eq!(b.nodes[p].state, done(Val::Empty));
    assert_eq!(b.tile(HexPos::new(-1, 2)), Some(TileType::Terrain(1000)));
}

#[test]
fn project_tile_refuses_occupied_cells() {
    let (b, p, effects) = projection(vec2(0.1, -0.1));
    assert!(effects.is_empty());
    assert_eq!(b.nodes[p].state, failed(CyberError::OccupiedDestination));
    assert_eq!(b.tile(HexPos::new(0, 0)), Some(TileType::Heart(1)));
    let (b, p, _) = projection(vec2(2.0, 0.0));
    assert_eq!(b.nodes[p].state, failed(CyberError::OccupiedDestination));
}

#[test]
fn project_tile_refuses_cells_off_the_board() {
    let (b, p, effects) = projection(vec2(3.0, 1.0));
    assert!(effects.is_empty());
    assert_eq!(b.nodes[p].state, failed(CyberError::OutOfBounds));
    let (b, p, _) = projection(vec2(-3.0, -3.0));
    assert_eq!(b.nodes[p].state, failed(CyberError::OutOfBounds));
    assert_eq!(b.tile(HexPos::new(-3, -3)), None);
}

#[test]
fn debug_logs_its_inputs() {
    let mut b = board(3);
    let d = place(&mut b, CyberNodes::Debug, 1, 0);
    constant(&mut b, 2, 0, Val::Text("hello".to_string()));
    constant(&mut b, 1, 1, Val::Entity(2));
    assert!(wire(&mut b, d, Direction::BottomRight, "d"));
    assert!(wire(&mut b, d, Direction::Bottom, "b"));
    b.disable_disconnected(&hearts());
    b.request_nodes();
    frame(&mut b, &vec![]);
    let (_, effects) = frame(&mut b, &vec![]);
    assert_eq!(effects, vec![Effect::Log(vec![Val::Entity(2), Val::Text("hello".to_string())])]);
    assert_eq!(b.nodes[d].state, done(Val::Empty));
}

#[test]
fn placeholder_kinds_end_empty() {
    let mut b = board(3);
    let s = place(&mut b, CyberNodes::Storage, 1, 0);
    let w = place(&mut b, CyberNodes::WIP, 0, 1);
    b.disable_disconnected(&hearts());
    b.request_nodes();
    let (ticks, effects) = frame(&mut b, &vec![]);
    assert_eq!(ticks.len(), 2);
    assert!(effects.is_empty());
    assert_eq!(b.nodes[s].state, done(Val::Empty));
    assert_eq!(b.nodes[w].state, done(Val::Empty));
}

#[test]
fn evaluating_a_missing_node_changes_nothing() {
    let mut b = board(3);
    let c = constant(&mut b, 1, 0, Val::Number(num(1.0)));
    b.constant_tick(c + 1);
    assert_eq!(b.lazor_tick(c + 1, &vec![]), None);
    assert_eq!(b.nodes.len(), 1);
    assert_eq!(b.nodes[c].state, CyberState::Idle);
}

#[test]
fn nearby_entities_honour_a_wired_range() {
    let mut b = board(3);
    let near = place(&mut b, CyberNodes::NearbyEntities, 0, 1);
    constant(&mut b, 0, 2, Val::Number(num(3.5)));
    assert!(wire(&mut b, near, Direction::Bottom, "range"));
    b.disable_disconnected(&hearts());
    b.request_nodes();
    // from (0, 1): 9, 4, 3, 2 steps
    let targets = vec![enemy(1, 9, 0), enemy(2, 4, 0), enemy(4, 1, 3), enemy(5, 2, -1)];
    frame(&mut b, &targets);
    frame(&mut b, &targets);
    assert_eq!(b.nodes[near].state, done(Val::List(vec![Val::Entity(4), Val::Entity(5)])));
}

#[test]
fn nearby_entities_pass_over_a_range_that_is_no_number() {
    let mut b = board(3);
    let near = place(&mut b, CyberNodes::NearbyEntities, 0, 1);
    constant(&mut b, 0, 2, Val::Text("far".to_string()));
    assert!(wire(&mut b, near, Direction::Bottom, "range"));
    b.disable_disconnected(&hearts());
    b.request_nodes();
    let targets = vec![enemy(1, 9, 0), enemy(2, 4, 0)];
    frame(&mut b, &targets);
    frame(&mut b, &targets);
    assert_eq!(b.nodes[near].state, done(Val::List(vec![Val::Entity(2)])));
}

fn minus(a: Scalar, c: Scalar) -> Scalar {
    num(float(a) - float(c))
}

fn times(a: Scalar, c: Scalar) -> Scalar {
    num(float(a) * float(c))
}

fn negated(a: Scalar) -> Scalar {
    num(-float(a))
}

fn magnitude(x: Scalar, y: Scalar) -> Scalar {
    num(glam::Vec2::new(float(x), float(y)).length())
}

fn counted(n: usize) -> Scalar {
    num(n as f32)
}

fn reaches(n: u32, t: Scalar) -> bool {
    n as f32 >= float(t)
}

fn within(n: u32, t: Scalar) -> bool {
    n as f32 <= float(t)
}

fn entity(_: HexPos) -> u64 {
    7
}

fn plain() -> Host<
    fn(Scalar, Scalar) -> Scalar,
    fn(Scalar, Scalar) -> Scalar,
    fn(Scalar) -> Scalar,
    fn(Scalar, Scalar) -> Scalar,
    fn(usize) -> Scalar,
    fn(u32, Scalar) -> bool,
    fn(u32, Scalar) -> bool,
    fn(Vec2) -> HexPos,
    fn(HexPos) -> u64,
> {
    Host {
        sub: minus,
        mul: times,
        neg: negated,
        length: magnitude,
        from_count: counted,
        at_least: reaches,
        at_most: within,
        round,
        spawn: entity,
    }
}

#[test]
fn host_can_be_plain_functions() {
    let mut b = board(3);
    let len = place(&mut b, CyberNodes::VectorLen, 1, 0);
    constant(&mut b, 2, 0, Val::Vec(vec2(-6.0, 8.0)));
    assert!(wire(&mut b, len, Direction::BottomRight, "vector"));
    b.disable_disconnected(&hearts());
    b.request_nodes();
    for _ in 0..2 {
        for tick in b.tick_nodes() {
            assert_eq!(b.evaluate(tick, &vec![], &plain()), None);
        }
    }
    assert_eq!(b.nodes[len].state, done(Val::Number(num(10.0))));
    // no such node
    assert_eq!(b.evaluate(TickNode::new(99, CyberNodes::Lazor), &vec![], &plain()), None);
    assert_eq!(b.nodes.len(), 2);
}

#[test]
fn projections_of_one_frame_get_entities_of_their_own() {
    let mut b = board(3);
    let p = place(&mut b, CyberNodes::Project, 1, 0);
    let q = place(&mut b, CyberNodes::Project, 1, 1);
    let r = place(&mut b, CyberNodes::Project, 0, 2);
    constant(&mut b, 2, 0, Val::Vec(vec2(-2.0, 0.0)));
    constant(&mut b, 2, 1, Val::Vec(vec2(9.0, 9.0)));
    constant(&mut b, 1, 2, Val::Vec(vec2(-2.0, 1.0)));
    assert!(wire(&mut b, p, Direction::BottomRight, "target"));
    assert!(wire(&mut b, q, Direction::BottomRight, "target"));
    assert!(wire(&mut b, r, Direction::BottomRight, "target"));
    b.disable_disconnected(&hearts());
    b.request_nodes();
    frame(&mut b, &vec![]);
    let (ticks, effects) = frame(&mut b, &vec![]);
    assert_eq!(ticks.iter().map(|t| t.e).collect::<Vec<_>>(), vec![p, q, r]);
    // the projection off the board takes no entity
    assert_eq!(
        effects,
        vec![
            Effect::ProjectTile { cell: HexPos::new(-2, 0), terrain: 1000, health: 10 },
            Effect::ProjectTile { cell: HexPos::new(-2, 1), terrain: 1001, health: 10 },
        ]
    );
    assert_eq!(b.nodes[q].state, failed(CyberError::OutOfBounds));
    assert_eq!(b.tile(HexPos::new(-2, 1)), Some(TileType::Terrain(1001)));
}

#[test]
fn a_frame_without_requests_does_nothing() {
    let mut b = board(3);
    let c = constant(&mut b, 1, 0, Val::Number(num(1.0)));
    b.disable_disconnected(&hearts());
    let (ticks, effects) = frame(&mut b, &vec![]);
    assert!(ticks.is_empty());
    assert!(effects.is_empty());
    assert_eq!(b.nodes[c].state, CyberState::Idle);
}
