use cybernodes::arith::reduce;
use cybernodes::board::{Board, PickedItem};
use cybernodes::effects::{find_target, TargetableEntity};
use cybernodes::eval_entity::in_sight;
use cybernodes::eval_list::flatten;
use cybernodes::eval_math::{numbers_of, vectors_of};
use cybernodes::hex::{Direction, HexPos};
use cybernodes::kinds::CyberNodes;
use cybernodes::node::{CyberState, MetaLink, NodeBundle};
use cybernodes::ports::{PortCfg, PortMeta};
use cybernodes::registry::{has_result, listed_kinds, Registry};
use cybernodes::tile::TileType;
use cybernodes::value::{CyberError, Scalar, Val, ValType, Vec2};

fn num(x: f32) -> Scalar {
    Scalar { bits: x.to_bits() }
}

fn float(s: Scalar) -> f32 {
    f32::from_bits(s.bits)
}

fn target(id: u64, x: i32, y: i32) -> TargetableEntity {
    let zero = Vec2 { x: Scalar::zero(), y: Scalar::zero() };
    TargetableEntity { id, cell: HexPos::new(x, y), pos: zero, dir: zero }
}

#[test]
fn zero_is_positive_zero() {
    assert_eq!(float(Scalar::zero()), 0.0);
    assert!(float(Scalar::zero()).is_sign_positive());
}

#[test]
fn reduce_folds_from_the_left() {
    let sub = |a: Scalar, b: Scalar| num(float(a) - float(b));
    assert_eq!(reduce(&vec![], &sub), None);
    assert_eq!(reduce(&vec![num(4.0)], &sub), Some(num(4.0)));
    assert_eq!(reduce(&vec![num(10.0), num(3.0), num(2.0)], &sub), Some(num(5.0)));
    assert_eq!(reduce(&vec![num(2.0), num(3.0), num(10.0)], &sub), Some(num(-11.0)));
    let div = |a: Scalar, b: Scalar| num(float(a) / float(b));
    assert_eq!(reduce(&vec![num(64.0), num(4.0), num(2.0), num(2.0)], &div), Some(num(4.0)));
}

#[test]
fn numbers_and_vectors_are_picked_in_order() {
    let vals = vec![
        Val::Number(num(1.0)),
        Val::Text("2".to_string()),
        Val::Vec(Vec2 { x: num(3.0), y: num(4.0) }),
        Val::Number(num(5.0)),
        Val::List(vec![Val::Number(num(6.0))]),
        Val::Vec(Vec2 { x: num(7.0), y: num(8.0) }),
    ];
    assert_eq!(numbers_of(&vals), vec![num(1.0), num(5.0)]);
    assert_eq!(vectors_of(&vals), (vec![num(3.0), num(7.0)], vec![num(4.0), num(8.0)]));
    assert_eq!(numbers_of(&vec![]), vec![]);
}

#[test]
fn flatten_spreads_lists_by_one_level() {
    let vals = vec![
        Val::Number(num(1.0)),
        Val::List(vec![Val::Number(num(2.0)), Val::Number(num(3.0))]),
    ];
    assert_eq!(
        flatten(&vals),
        vec![Val::Number(num(1.0)), Val::Number(num(2.0)), Val::Number(num(3.0))]
    );
    assert_eq!(flatten(&vec![Val::Empty, Val::List(vec![]), Val::Empty]), vec![]);
    assert_eq!(
        flatten(&vec![Val::List(vec![Val::Empty, Val::List(vec![Val::Empty])])]),
        vec![Val::Empty, Val::List(vec![Val::Empty])]
    );
}

#[test]
fn values_copy_deeply_and_name_their_type() {
    let v = Val::List(vec![
        Val::Text("deep".to_string()),
        Val::List(vec![Val::Entity(3), Val::Vec(Vec2 { x: num(1.0), y: num(2.0) })]),
    ]);
    assert_eq!(v.duplicate(), v);
    assert_eq!(v.val_type(), ValType::List);
    assert_eq!(Val::Empty.val_type(), ValType::Empty);
    assert_eq!(Val::Entity(1).val_type(), ValType::Entity);
    assert_eq!(Val::Number(num(1.0)).val_type(), ValType::Number);
    assert_eq!(Val::Text(String::new()).val_type(), ValType::Text);
    assert_eq!(Val::Vec(Vec2 { x: num(0.0), y: num(0.0) }).val_type(), ValType::Vec);
    let labels: Vec<String> = [
        ValType::Empty,
        ValType::Any,
        ValType::Entity,
        ValType::Vec,
        ValType::Number,
        ValType::Text,
        ValType::List,
    ]
    .iter()
    .map(|t| t.label())
    .collect();
    assert_eq!(labels, vec!["Empty", "Any", "Entity", "Vec", "Number", "Text", "List"]);
}

#[test]
fn states_tell_what_they_hold() {
    assert!(CyberState::Disabled.is_disabled());
    assert!(!CyberState::Idle.is_disabled());
    assert!(CyberState::ActivationRequest.is_requested());
    assert!(!CyberState::Triggered.is_requested());
    assert!(CyberState::Done(Ok(Val::Empty)).has_value());
    assert!(!CyberState::Done(Err(CyberError::TypeMismatch)).has_value());
    assert_eq!(CyberState::Done(Ok(Val::Entity(4))).value(), Some(Val::Entity(4)));
    assert_eq!(CyberState::Done(Err(CyberError::OutOfBounds)).value(), None);
    assert_eq!(CyberState::Triggered.value(), None);
}

#[test]
fn new_node_is_idle_and_unwired() {
    let n = NodeBundle::new(MetaLink(4), HexPos::new(1, -1));
    assert_eq!(n.meta, MetaLink(4));
    assert_eq!(n.pos, HexPos::new(1, -1));
    assert_eq!(n.state, CyberState::Idle);
    assert_eq!(n.charge, 0);
    assert_eq!(n.cfg.inputs, vec![None; 6]);
}

#[test]
fn wiring_table_binds_and_unbinds() {
    let mut cfg = PortCfg::new();
    assert_eq!(cfg.inputs.len(), 6);
    assert_eq!(cfg.constant, None);
    assert!(cfg.bind(Direction::Top, 7));
    assert!(cfg.bind(Direction::BottomLeft, 8));
    assert_eq!(cfg.input(Direction::Top), Some(7));
    assert_eq!(cfg.input(Direction::Bottom), None);
    assert_eq!(cfg.direction_of(8), Some(Direction::BottomLeft));
    assert_eq!(cfg.direction_of(9), None);
    // moving a port frees the direction it had
    assert!(cfg.bind(Direction::TopRight, 7));
    assert_eq!(cfg.input(Direction::Top), None);
    assert_eq!(cfg.input(Direction::TopRight), Some(7));
    // a taken direction stays with its port
    assert!(!cfg.bind(Direction::BottomLeft, 7));
    assert_eq!(cfg.input(Direction::BottomLeft), Some(8));
    assert_eq!(cfg.direction_of(7), None);
    // binding a port where it is keeps it there
    assert!(cfg.bind(Direction::BottomLeft, 8));
    assert_eq!(cfg.input(Direction::BottomLeft), Some(8));
    cfg.set_constant(Val::Number(num(2.0)));
    assert_eq!(cfg.constant, Some(Val::Number(num(2.0))));
}

#[test]
fn port_meta_keeps_its_parts() {
    let p = PortMeta::new_meta("x".to_string(), "first number".to_string(), ValType::Number, true);
    assert_eq!(p.name, "x");
    assert_eq!(p.desc, "first number");
    assert_eq!(p.vt, ValType::Number);
    assert!(p.constant);
    assert!(p.is_named("x"));
    assert!(!p.is_named("y"));
    assert!(!p.is_named(""));
}

#[test]
fn every_kind_has_its_texts_and_ports() {
    let kinds = listed_kinds();
    assert_eq!(kinds.len(), 22);
    assert_eq!(kinds[0], CyberNodes::Lazor);
    assert_eq!(kinds[21], CyberNodes::WIP);
    for kind in kinds {
        assert!(!kind.display_name().is_empty());
        assert!(!kind.description().is_empty());
        assert_eq!(has_result(kind), kind.output_port().name != "nothing");
    }
    assert_eq!(CyberNodes::Shock.display_name(), "tesla coil");
    assert_eq!(CyberNodes::Shock.description(), "shoot lightning at all targets");
    let ports = CyberNodes::Storage.input_ports();
    let names: Vec<&str> = ports.iter().map(|p| p.name.as_str()).collect();
    assert_eq!(names, vec!["0", "1", "2", "3", "slot"]);
    assert_eq!(ports[4].vt, ValType::Number);
    assert_eq!(CyberNodes::Vector.output_port().vt, ValType::Vec);
    assert_eq!(CyberNodes::ListLength.input_ports()[0].vt, ValType::List);
    assert_eq!(CyberNodes::ListLength.output_port().vt, ValType::Number);
    assert!(CyberNodes::ClosestEntity.input_ports().is_empty());
}

#[test]
fn targets_are_found_by_name_and_by_distance() {
    let targets = vec![target(4, 0, 0), target(9, 8, 0), target(4, 5, 5), target(2, 9, 0)];
    assert_eq!(find_target(&targets, 4), Some(targets[0]));
    assert_eq!(find_target(&targets, 2), Some(targets[3]));
    assert_eq!(find_target(&targets, 5), None);
    let at = HexPos::new(0, 0);
    assert_eq!(in_sight(at, &targets[0]), Some(0));
    assert_eq!(in_sight(at, &targets[1]), Some(8));
    assert_eq!(in_sight(at, &targets[2]), None);
    assert_eq!(in_sight(at, &targets[3]), None);
    assert_eq!(in_sight(at, &target(1, i32::MIN, 0)), None);
}

#[test]
fn tiles_tell_their_cost() {
    assert_eq!(TileType::default(), TileType::Unoccupied);
    assert_eq!(TileType::Unoccupied.walk_cost(), 0);
    assert_eq!(TileType::Heart(3).walk_cost(), 1);
    assert_eq!(TileType::Terrain(3).walk_cost(), 10);
    assert_eq!(TileType::CyberNode { meta: 1, e: 2 }.walk_cost(), 50);
}

#[test]
fn shop_opens_next_to_hearts_and_live_nodes() {
    let mut b = Board::new(4, Registry::standard()).unwrap();
    assert!(b.occupy(HexPos::new(0, 0), TileType::Heart(1)));
    assert!(b.occupy(HexPos::new(3, 0), TileType::Terrain(2)));
    let item = b.registry.find_kind(CyberNodes::Debug).unwrap();
    // none next to anything yet but the cells around the heart
    assert!(b.open_shop(HexPos::new(1, 0)));
    assert!(b.open_shop(HexPos::new(-1, 1)));
    assert!(!b.open_shop(HexPos::new(2, 0)));
    assert!(!b.open_shop(HexPos::new(0, 0)));
    assert!(!b.open_shop(HexPos::new(5, 0)));
    // terrain anchors nothing
    assert!(!b.open_shop(HexPos::new(3, 1)));
    let n = b.tile_purchased(PickedItem { item, tile: HexPos::new(1, 0) }).unwrap();
    assert!(b.open_shop(HexPos::new(2, 0)));
    assert!(!b.open_shop(HexPos::new(1, 0)));
    // a disabled node anchors nothing
    let far = b.tile_purchased(PickedItem { item, tile: HexPos::new(-3, 0) }).unwrap();
    assert!(b.open_shop(HexPos::new(-4, 0)));
    b.disable_disconnected(&vec![HexPos::new(0, 0)]);
    assert_eq!(b.nodes[far].state, CyberState::Disabled);
    assert_eq!(b.nodes[n].state, CyberState::Idle);
    assert!(!b.open_shop(HexPos::new(-4, 0)));
    assert!(b.open_shop(HexPos::new(2, 0)));
}
