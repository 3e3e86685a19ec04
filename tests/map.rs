use pas_cman_ipl::components::{Direction, Position};
use pas_cman_ipl::utils::next_position;
use pas_cman_ipl::resources::{GameMap, Point, TileType};

#[test]
fn index_round_trip() {
    let m = GameMap::new(30, 20);
    assert_eq!(m.tiles.len(), 600);
    assert_eq!(m.point2d_to_index(Point { x: 3, y: 2 }), 63);
    assert_eq!(m.index_to_point2d(63), Point { x: 3, y: 2 });
    assert_eq!(m.index_to_point2d(599), Point { x: 29, y: 19 });
    assert_eq!(m.dimensions(), Point { x: 30, y: 20 });
}

#[test]
fn bounds_and_walls() {
    let mut m = GameMap::new(4, 3);
    assert!(m.in_bounds(Point { x: 0, y: 0 }));
    assert!(!m.in_bounds(Point { x: -1, y: 0 }));
    assert!(!m.in_bounds(Point { x: 4, y: 0 }));
    assert!(!m.in_bounds(Point { x: 0, y: 3 }));
    m.set_tile(Position { x: 1, y: 2 }, TileType::Wall);
    assert!(m.is_opaque(9));
    assert!(!m.is_opaque(8));
    assert!(!m.can_enter(Point { x: 1, y: 2 }));
    assert!(m.can_enter(Point { x: 2, y: 2 }));
    assert!(!m.can_enter(Point { x: 2, y: -1 }));
}

#[test]
fn screen_validity() {
    assert!(Position { x: 29, y: 19 }.is_valid());
    assert!(!Position { x: 30, y: 0 }.is_valid());
    assert!(!Position { x: 0, y: 20 }.is_valid());
}

#[test]
fn exits_in_order_up_down_left_right() {
    let mut m = GameMap::new(3, 3);
    assert_eq!(m.get_available_exits(4), vec![1, 7, 3, 5]);
    m.set_tile(Position { x: 1, y: 0 }, TileType::Wall);
    m.set_tile(Position { x: 2, y: 1 }, TileType::Wall);
    assert_eq!(m.get_available_exits(4), vec![7, 3]);
    assert_eq!(m.get_available_exits(0), vec![3]);
}

#[test]
fn pathing_distance_is_squared() {
    let m = GameMap::new(30, 20);
    assert_eq!(m.get_pathing_distance(0, 0), 0);
    assert_eq!(m.get_pathing_distance(0, 3 + 4 * 30), 25);
    assert_eq!(m.get_pathing_distance(3 + 4 * 30, 0), 25);
}

#[test]
fn next_position_steps_or_stays() {
    let mut m = GameMap::new(3, 3);
    m.set_tile(Position { x: 2, y: 1 }, TileType::Wall);
    let c = Position { x: 1, y: 1 };
    assert_eq!(next_position(&m, c, Direction::Up), Position { x: 1, y: 0 });
    assert_eq!(next_position(&m, c, Direction::Down), Position { x: 1, y: 2 });
    assert_eq!(next_position(&m, c, Direction::Left), Position { x: 0, y: 1 });
    assert_eq!(next_position(&m, c, Direction::Right), c);
    let corner = Position { x: 0, y: 0 };
    assert_eq!(next_position(&m, corner, Direction::Up), corner);
    assert_eq!(next_position(&m, corner, Direction::Left), corner);
}

#[test]
fn position_as_point() {
    assert_eq!(Position { x: 7, y: 9 }.into_point(), Point { x: 7, y: 9 });
}
