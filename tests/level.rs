use pas_cman_ipl::components::{Direction, IntendsToMove, Position};
use pas_cman_ipl::game_state::{GameStatus, State};
use pas_cman_ipl::level::{Level, MapError};
use pas_cman_ipl::pascman_protocol::{self as proto, Item, Message};
use pas_cman_ipl::resources::TileType;

fn grid(lines: &[&str]) -> Vec<Vec<char>> {
    lines.iter().map(|l| l.chars().collect()).collect()
}

#[test]
fn empty_grid_is_refused() {
    assert_eq!(Level::from_grid(&vec![]).err(), Some(MapError::Empty));
    assert_eq!(Level::from_grid(&vec![vec![]]).err(), Some(MapError::Empty));
}

#[test]
fn ragged_grid_is_refused() {
    assert_eq!(Level::from_grid(&grid(&["###", "#.", "###"])).err(), Some(MapError::Ragged));
}

#[test]
fn grid_glyphs() {
    let level = Level::from_grid(&grid(&["#@.", "*!x"])).unwrap();
    assert_eq!(level.map.width, 3);
    assert_eq!(level.map.height, 2);
    assert_eq!(
        level.map.tiles,
        vec![TileType::Wall, TileType::Floor, TileType::Floor, TileType::Floor, TileType::Floor, TileType::Floor]
    );
    let spawns: Vec<(u32, Item, u32, u32)> = level
        .spawns
        .iter()
        .map(|m| match m {
            Message::Spawn(s) => (s.id, s.item, s.pos.x, s.pos.y),
            other => panic!("unexpected {:?}", other),
        })
        .collect();
    assert_eq!(
        spawns,
        vec![(0, Item::PLAYER1, 1, 0), (1, Item::FOOD, 2, 0), (2, Item::SUPERFOOD, 0, 1), (3, Item::PLAYER2, 1, 1)]
    );
}

#[test]
fn level_starts_with_autonomous_villains() {
    let level = Level::from_grid(&grid(&["@..!"])).unwrap();
    let mut s = State::new();
    s.start_level(level, 0, 100);
    assert_eq!(s.status, GameStatus::Running);
    assert_eq!(s.map.width, 4);
    let villain = s.ecs.get(s.ecs.find_by_id(3).unwrap()).unwrap();
    assert!(villain.villain && villain.hunter);
    assert_eq!(villain.autopilot.map(|a| (a.next_move_at, a.interval)), Some((0, 100)));
    let hero = s.ecs.get(s.ecs.find_by_id(0).unwrap()).unwrap();
    assert!(hero.autopilot.is_none());
    s.tick(&vec![], None, 0);
    let villain = s.ecs.get(s.ecs.find_by_id(3).unwrap()).unwrap();
    assert_eq!(villain.position, Some(Position { x: 2, y: 0 }));
}

#[test]
fn steering_moves_heroes_next_tick() {
    let level = Level::from_grid(&grid(&["#@.", "..."])).unwrap();
    let mut s = State::new();
    s.start_level(level, 0, 100);
    s.steer_heroes(Direction::Down);
    let hero = s.ecs.get(s.ecs.find_by_id(0).unwrap()).unwrap();
    assert_eq!(hero.intends, Some(IntendsToMove(Position { x: 1, y: 1 })));
    s.tick(&vec![], None, 0);
    let hero = s.ecs.get(s.ecs.find_by_id(0).unwrap()).unwrap();
    assert_eq!(hero.position, Some(Position { x: 1, y: 1 }));
    // a step off the top of the map is not asked for
    s.steer_heroes(Direction::Up);
    s.tick(&vec![], None, 1);
    s.steer_heroes(Direction::Up);
    let hero = s.ecs.get(s.ecs.find_by_id(0).unwrap()).unwrap();
    assert_eq!(hero.position, Some(Position { x: 1, y: 0 }));
    assert_eq!(hero.intends, None);
    let _ = proto::FRAME_SIZE;
}
