use cybernodes::board::{Board, PickedItem};
use cybernodes::hex::{Direction, HexPos};
use cybernodes::kinds::CyberNodes;
use cybernodes::node::{CyberState, MetaLink};
use cybernodes::registry::{ItemMetaBundle, Registry};
use cybernodes::tile::{TileType, MAX_RADIUS};
use cybernodes::value::ValType;

#[test]
fn new_board_is_unoccupied_within_its_radius() {
    let b = Board::new(2, Registry::standard()).unwrap();
    let mut cells = 0;
    for x in -4i32..=4 {
        for y in -4i32..=4 {
            let inside = x.abs().max(y.abs()).max((x + y).abs()) <= 2;
            let t = b.tile(HexPos::new(x, y));
            assert_eq!(t, if inside { Some(TileType::Unoccupied) } else { None }, "cell {x} {y}");
            if inside {
                cells += 1;
            }
        }
    }
    assert_eq!(cells, 19);
    assert_eq!(b.tile(HexPos::new(i32::MIN, i32::MAX)), None);
    assert_eq!(b.tile(HexPos::new(i32::MAX, i32::MAX)), None);
}

#[test]
fn board_radius_is_limited() {
    assert!(Board::new(MAX_RADIUS + 1, Registry::new()).is_none());
    assert!(Board::new(0, Registry::new()).is_some());
}

#[test]
fn cells_keep_what_is_put_on_them() {
    let mut b = Board::new(3, Registry::standard()).unwrap();
    assert!(b.occupy(HexPos::new(-3, 1), TileType::Heart(7)));
    assert!(b.occupy(HexPos::new(0, -3), TileType::Terrain(8)));
    assert!(!b.occupy(HexPos::new(0, -3), TileType::Terrain(9)));
    assert!(!b.occupy(HexPos::new(0, -4), TileType::Terrain(9)));
    assert_eq!(b.tile(HexPos::new(-3, 1)), Some(TileType::Heart(7)));
    assert_eq!(b.tile(HexPos::new(0, -3)), Some(TileType::Terrain(8)));
    assert_eq!(b.tile(HexPos::new(-3, 0)), Some(TileType::Unoccupied));
    assert_eq!(b.tile(HexPos::new(-2, 1)), Some(TileType::Unoccupied));
}

#[test]
fn purchase_places_an_idle_unwired_node() {
    let mut b = Board::new(3, Registry::standard()).unwrap();
    let item = b.registry.find_kind(CyberNodes::Plasma).unwrap();
    let n = b.tile_purchased(PickedItem { item, tile: HexPos::new(-1, 2) }).unwrap();
    assert_eq!(n, 0);
    assert_eq!(b.nodes[n].meta, MetaLink(item));
    assert_eq!(b.nodes[n].pos, HexPos::new(-1, 2));
    assert_eq!(b.nodes[n].state, CyberState::Idle);
    assert_eq!(b.nodes[n].charge, 0);
    assert_eq!(b.nodes[n].cfg.inputs, vec![None; 6]);
    assert_eq!(b.nodes[n].cfg.constant, None);
    assert_eq!(b.tile(HexPos::new(-1, 2)), Some(TileType::CyberNode { meta: item, e: 0 }));
    assert_eq!(b.node_at(HexPos::new(-1, 2)), Some(0));
    assert_eq!(b.node_at(HexPos::new(-1, 1)), None);
}

#[test]
fn purchase_is_refused_off_board_on_occupied_cells_and_for_unknown_kinds() {
    let mut b = Board::new(3, Registry::standard()).unwrap();
    assert!(b.occupy(HexPos::new(0, 0), TileType::Heart(1)));
    let item = b.registry.find_kind(CyberNodes::Lazor).unwrap();
    assert_eq!(b.tile_purchased(PickedItem { item, tile: HexPos::new(0, 0) }), None);
    assert_eq!(b.tile_purchased(PickedItem { item, tile: HexPos::new(4, 0) }), None);
    let unknown = b.registry.items.len();
    assert_eq!(b.tile_purchased(PickedItem { item: unknown, tile: HexPos::new(1, 0) }), None);
    assert_eq!(b.tile_purchased(PickedItem { item, tile: HexPos::new(1, 0) }), Some(0));
    assert_eq!(b.tile_purchased(PickedItem { item, tile: HexPos::new(1, 0) }), None);
    assert_eq!(b.nodes.len(), 1);
}

#[test]
fn removal_clears_the_cell() {
    let mut b = Board::new(3, Registry::standard()).unwrap();
    assert!(b.occupy(HexPos::new(0, 0), TileType::Heart(1)));
    assert_eq!(b.remove_node(HexPos::new(0, 0)), Some(TileType::Heart(1)));
    assert_eq!(b.tile(HexPos::new(0, 0)), Some(TileType::Unoccupied));
    assert_eq!(b.remove_node(HexPos::new(0, 0)), Some(TileType::Unoccupied));
    assert_eq!(b.remove_node(HexPos::new(9, 9)), None);
}

#[test]
fn neighbour_lookup_follows_the_direction() {
    let mut b = Board::new(3, Registry::standard()).unwrap();
    let item = b.registry.find_kind(CyberNodes::Debug).unwrap();
    let mid = b.tile_purchased(PickedItem { item, tile: HexPos::new(0, 0) }).unwrap();
    let below = b.tile_purchased(PickedItem { item, tile: HexPos::new(0, 1) }).unwrap();
    let edge = b.tile_purchased(PickedItem { item, tile: HexPos::new(3, 0) }).unwrap();
    assert_eq!(b.neighbor_node(mid, Direction::Bottom), Some(below));
    assert_eq!(b.neighbor_node(below, Direction::Top), Some(mid));
    assert_eq!(b.neighbor_node(mid, Direction::Top), None);
    assert_eq!(b.neighbor_node(edge, Direction::BottomRight), None);
}

#[test]
fn standard_registry_declares_every_kind() {
    let r = Registry::standard();
    assert_eq!(r.items.len(), 22);
    assert_eq!(r.ports[0].name, "nothing");
    let plasma = r.find_kind(CyberNodes::Plasma).unwrap();
    assert_eq!(r.items[plasma].name.0, "plasma cannon");
    let names: Vec<&str> =
        r.items[plasma].ports.0.iter().map(|p| r.ports[*p].name.as_str()).collect();
    assert_eq!(names, vec!["target", "threshold"]);
    assert_eq!(r.ports[r.items[plasma].output.0].name, "fired");
    assert_eq!(r.ports[r.items[plasma].output.0].vt, ValType::Number);

    let lazor = r.find_kind(CyberNodes::Lazor).unwrap();
    assert_eq!(lazor, 0);
    assert_eq!(r.items[lazor].output.0, 0);
    let pos = r.find_kind(CyberNodes::EntityPos).unwrap();
    let a = r.find_input(lazor, "target").unwrap();
    let b = r.find_input(pos, "target").unwrap();
    assert_ne!(a, b);
    assert_eq!(r.ports[a].vt, ValType::Entity);
    assert_eq!(r.find_input(lazor, "direction"), None);
    assert_eq!(r.find_input(99, "target"), None);

    let constant = r.find_kind(CyberNodes::ConstantNumber).unwrap();
    assert!(r.items[constant].ports.0.is_empty());
    assert!(r.ports[r.items[constant].output.0].constant);
    for kind in [CyberNodes::NumberSub, CyberNodes::NumberMul, CyberNodes::VectorMul, CyberNodes::List, CyberNodes::Debug] {
        let k = r.find_kind(kind).unwrap();
        let names: Vec<&str> =
            r.items[k].ports.0.iter().map(|p| r.ports[*p].name.as_str()).collect();
        assert_eq!(names, vec!["a", "b", "c", "d", "e"]);
    }
}

#[test]
fn registry_refuses_items_with_unknown_ports() {
    let mut r = Registry::new();
    assert_eq!(r.find_kind(CyberNodes::Lazor), None);
    let item = ItemMetaBundle::new("x".to_string(), "y".to_string(), vec![0], 0, CyberNodes::WIP);
    assert_eq!(r.add_item(item), None);
    let p = r.add_port(CyberNodes::Lazor.output_port());
    assert_eq!(p, 0);
    let item = ItemMetaBundle::new("x".to_string(), "y".to_string(), vec![0, 1], 0, CyberNodes::WIP);
    assert_eq!(r.add_item(item), None);
    let item = ItemMetaBundle::new("x".to_string(), "y".to_string(), vec![0], 0, CyberNodes::WIP);
    assert_eq!(r.add_item(item), Some(0));
    assert_eq!(r.items.len(), 1);
}
