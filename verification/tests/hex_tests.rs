use cybernodes::hex::{Direction, HexPos};

#[test]
fn neighbor_steps_by_offset() {
    let p = HexPos::new(3, -2);
    assert_eq!(p.neighbor(Direction::BottomRight), HexPos::new(4, -2));
    assert_eq!(p.neighbor(Direction::Bottom), HexPos::new(3, -1));
    assert_eq!(p.neighbor(Direction::BottomLeft), HexPos::new(2, -1));
    assert_eq!(p.neighbor(Direction::TopLeft), HexPos::new(2, -2));
    assert_eq!(p.neighbor(Direction::Top), HexPos::new(3, -3));
    assert_eq!(p.neighbor(Direction::TopRight), HexPos::new(4, -3));
}

#[test]
fn distance_counts_steps() {
    assert_eq!(HexPos::new(0, 0).distance_to(HexPos::new(3, -1)), Some(3));
    assert_eq!(HexPos::new(2, 2).distance_to(HexPos::new(-1, -1)), Some(6));
    assert_eq!(HexPos::new(i32::MAX, 0).distance_to(HexPos::new(0, 0)), None);
}

#[test]
fn direction_to_finds_the_shared_edge() {
    let p = HexPos::new(-2, 5);
    for i in 0..6 {
        let d = Direction::from_index(i).unwrap();
        assert_eq!(d.index(), i);
        assert_eq!(p.direction_to(p.neighbor(d)), Some(d));
        assert_eq!(HexPos::new(p.x + d.offset().x, p.y + d.offset().y), p.neighbor(d));
    }
    assert_eq!(Direction::from_index(6), None);
    assert_eq!(p.direction_to(p), None);
    assert_eq!(p.direction_to(HexPos::new(0, 5)), None);
    assert_eq!(HexPos::new(i32::MAX, 0).direction_to(HexPos::new(i32::MAX, 1)), None);
    // the cell in the middle of a wiring grid, seen from a cell around it
    assert_eq!(HexPos::new(1, -1).direction_to(HexPos::new(0, 0)), Some(Direction::BottomLeft));
}
