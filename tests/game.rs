use pas_cman_ipl::components::{Direction, IntendsToMove, Position};
use pas_cman_ipl::game_state::{GameStatus, Key, State};
use pas_cman_ipl::pascman_protocol::{
    self as proto, EatFood, GameOver, Item, KillVictim, LeftGame, Message, MessageType, Movement,
    Registration, Spawn,
};
use pas_cman_ipl::resources::{GameMap, TileType};
use pas_cman_ipl::spawn::spawn_bot;

fn registration(player: u32) -> Message {
    Message::Registration(Registration { msgt: MessageType::REGISTRATION, player })
}

fn spawn(id: u32, item: Item, x: u32, y: u32) -> Message {
    Message::Spawn(Spawn { msgt: MessageType::SPAWN, id, item, pos: proto::Position { x, y } })
}

fn movement(id: u32, x: u32, y: u32) -> Message {
    Message::Movement(Movement { msgt: MessageType::MOVEMENT, id, pos: proto::Position { x, y } })
}

fn started(width: usize, height: usize, msgs: Vec<Message>) -> State {
    let mut s = State::new();
    s.map = GameMap::new(width, height);
    let mut all = vec![registration(1)];
    all.extend(msgs);
    s.process_messages(&all);
    s
}

fn live_ids(s: &State) -> Vec<u32> {
    s.ecs
        .slots
        .iter()
        .filter_map(|r| r.and_then(|r| r.id.map(|i| i.0)))
        .collect()
}

fn record_of(s: &State, id: u32) -> pas_cman_ipl::world::EntityRecord {
    s.ecs.get(s.ecs.find_by_id(id).expect("no such entity")).unwrap()
}

#[test]
fn single_food_eaten_wins() {
    let mut s = started(3, 3, vec![spawn(1, Item::PLAYER1, 1, 1), spawn(2, Item::FOOD, 1, 1)]);
    assert_eq!(s.status, GameStatus::Running);
    s.tick(&vec![], None, 0);
    assert!(s.ecs.find_by_id(2).is_none());
    assert_eq!(s.status, GameStatus::Won);
    // the terminal phase waits for a key, then restarts
    s.tick(&vec![], None, 10);
    assert_eq!(s.status, GameStatus::Won);
    s.tick(&vec![], Some(Key::Other), 20);
    assert_eq!(s.status, GameStatus::NotStarted);
}

#[test]
fn hunter_on_hero_loses() {
    let mut s = started(
        3,
        3,
        vec![spawn(1, Item::PLAYER1, 0, 0), spawn(2, Item::PLAYER2, 0, 0), spawn(3, Item::FOOD, 2, 2)],
    );
    s.tick(&vec![], None, 0);
    assert!(s.ecs.find_by_id(1).is_none());
    assert!(s.ecs.find_by_id(2).is_some());
    assert_eq!(s.status, GameStatus::Lost);
}

#[test]
fn eating_leaves_other_food() {
    let mut s = started(
        5,
        5,
        vec![spawn(1, Item::PLAYER1, 2, 2), spawn(2, Item::FOOD, 2, 2), spawn(3, Item::FOOD, 4, 4)],
    );
    let before = record_of(&s, 3);
    s.tick(&vec![], None, 0);
    assert!(s.ecs.find_by_id(2).is_none());
    let after = record_of(&s, 3);
    assert_eq!(after.position, before.position);
    assert_eq!(after.food.map(|f| f.0), Some('.'));
    assert_eq!(s.status, GameStatus::Running);
}

#[test]
fn move_onto_floor() {
    let mut s = started(5, 5, vec![spawn(1, Item::PLAYER1, 2, 2), spawn(9, Item::FOOD, 4, 4)]);
    s.tick(&vec![movement(1, 3, 2)], None, 0);
    let r = record_of(&s, 1);
    assert_eq!(r.position, Some(Position { x: 3, y: 2 }));
    assert_eq!(r.direction, Some(Direction::Right));
    assert!(r.intends.is_none());
}

#[test]
fn move_into_wall_turns_only() {
    let mut s = started(
        5,
        5,
        vec![spawn(1, Item::PLAYER1, 2, 2), spawn(0, Item::WALL, 2, 1), spawn(9, Item::FOOD, 4, 4)],
    );
    assert_eq!(s.map.tile_at(Position { x: 2, y: 1 }), TileType::Wall);
    s.tick(&vec![movement(1, 2, 1)], None, 0);
    let r = record_of(&s, 1);
    assert_eq!(r.position, Some(Position { x: 2, y: 2 }));
    assert_eq!(r.direction, Some(Direction::Up));
    assert!(r.intends.is_none());
}

#[test]
fn move_out_of_map_turns_only() {
    let mut s = started(5, 5, vec![spawn(1, Item::PLAYER1, 4, 2), spawn(9, Item::FOOD, 0, 0)]);
    s.tick(&vec![movement(1, 5, 2)], None, 0);
    let r = record_of(&s, 1);
    assert_eq!(r.position, Some(Position { x: 4, y: 2 }));
    assert_eq!(r.direction, Some(Direction::Right));
    assert!(r.intends.is_none());
}

#[test]
fn movement_reaches_only_its_entity() {
    let mut s = started(
        5,
        5,
        vec![spawn(7, Item::PLAYER1, 1, 1), spawn(8, Item::PLAYER2, 1, 1), spawn(9, Item::FOOD, 4, 4)],
    );
    s.process_messages(&vec![movement(8, 1, 2)]);
    assert_eq!(record_of(&s, 8).intends, Some(IntendsToMove(Position { x: 1, y: 2 })));
    assert_eq!(record_of(&s, 7).intends, None);
}

#[test]
fn empty_drain_changes_nothing() {
    let mut s = started(5, 5, vec![spawn(1, Item::PLAYER1, 1, 1)]);
    let before = live_ids(&s);
    let status = s.status;
    s.process_messages(&vec![]);
    assert_eq!(live_ids(&s), before);
    assert_eq!(s.status, status);
}

#[test]
fn unknown_id_is_ignored() {
    let mut s = started(5, 5, vec![spawn(1, Item::PLAYER1, 1, 1)]);
    s.process_messages(&vec![
        movement(42, 1, 2),
        Message::EatFood(EatFood { msgt: MessageType::EAT_FOOD, eater: 1, food: 42 }),
    ]);
    assert_eq!(live_ids(&s), vec![1]);
    assert_eq!(record_of(&s, 1).intends, None);
}

#[test]
fn eat_kill_and_leave_messages() {
    let mut s = started(
        5,
        5,
        vec![
            spawn(1, Item::PLAYER1, 1, 1),
            spawn(2, Item::FOOD, 2, 2),
            spawn(3, Item::PLAYER2, 3, 3),
            spawn(4, Item::SUPERFOOD, 4, 4),
        ],
    );
    s.process_messages(&vec![
        Message::EatFood(EatFood { msgt: MessageType::EAT_FOOD, eater: 1, food: 2 }),
        Message::Kill(KillVictim { msgt: MessageType::KILL, killer: 1, killed: 3 }),
        Message::LeftGame(LeftGame { msgt: MessageType::LEFT_GAME, id: 1 }),
    ]);
    assert_eq!(live_ids(&s), vec![1, 4]);
    assert!(record_of(&s, 1).left_game);
    s.tick(&vec![], None, 0);
    assert_eq!(live_ids(&s), vec![4]);
    assert_eq!(s.status, GameStatus::Lost);
}

#[test]
fn spawn_outside_map_is_dropped() {
    let s = started(5, 5, vec![spawn(1, Item::PLAYER1, 5, 0), spawn(2, Item::WALL, 0, 9)]);
    assert!(live_ids(&s).is_empty());
    assert!(s.map.tiles.iter().all(|t| *t == TileType::Floor));
}

#[test]
fn game_over_message_and_restart() {
    let mut s = started(5, 5, vec![spawn(1, Item::PLAYER1, 1, 1)]);
    s.tick(&vec![Message::GameOver(GameOver { msgt: MessageType::GAME_OVER, winner: 1 })], None, 0);
    assert_eq!(s.status, GameStatus::Over { winner: 1 });
    s.tick(&vec![], Some(Key::Return), 1);
    assert_eq!(s.status, GameStatus::NotStarted);
    s.tick(&vec![registration(2)], None, 2);
    assert_eq!(s.status, GameStatus::Running);
    assert!(live_ids(&s).is_empty());
    assert_eq!(s.player.0, 2);
}

#[test]
fn arrows_are_reported_while_running() {
    let mut s = State::new();
    assert_eq!(s.status, GameStatus::Running);
    s.status = GameStatus::NotStarted;
    assert_eq!(s.tick(&vec![], Some(Key::Left), 0), None);
    s.process_messages(&vec![registration(1), spawn(1, Item::PLAYER1, 1, 1)]);
    assert_eq!(s.tick(&vec![], Some(Key::Left), 0), Some(Direction::Left));
    assert_eq!(s.tick(&vec![], Some(Key::Up), 0), Some(Direction::Up));
    assert_eq!(s.tick(&vec![], Some(Key::Other), 0), None);
}

#[test]
fn powerup_swaps_roles_for_its_duration() {
    let mut s = started(
        7,
        1,
        vec![
            spawn(1, Item::PLAYER1, 0, 0),
            spawn(2, Item::SUPERFOOD, 0, 0),
            spawn(3, Item::PLAYER2, 6, 0),
            spawn(4, Item::FOOD, 3, 0),
        ],
    );
    s.tick(&vec![], None, 1000);
    assert!(s.ecs.find_by_id(2).is_none());
    let hero = record_of(&s, 1);
    let villain = record_of(&s, 3);
    assert!(hero.hunter && !hero.victim);
    assert!(villain.victim && !villain.hunter);
    assert_eq!(hero.delayed_swap.map(|d| d.fire_at), Some(6000));
    s.tick(&vec![], None, 5999);
    assert!(record_of(&s, 1).hunter);
    assert!(record_of(&s, 3).victim);
    s.tick(&vec![], None, 6000);
    let hero = record_of(&s, 1);
    let villain = record_of(&s, 3);
    assert!(hero.victim && !hero.hunter);
    assert!(villain.hunter && !villain.victim);
    assert!(hero.delayed_swap.is_none());
}

#[test]
fn bot_closes_in_one_cell_per_interval() {
    let mut s = started(8, 1, vec![spawn(1, Item::PLAYER1, 0, 0), spawn(9, Item::FOOD, 7, 0)]);
    spawn_bot(&mut s.ecs, 5, Position { x: 4, y: 0 }, 0, 100);
    s.tick(&vec![], None, 0);
    assert_eq!(record_of(&s, 5).position, Some(Position { x: 3, y: 0 }));
    assert_eq!(record_of(&s, 5).direction, Some(Direction::Left));
    // not yet eligible
    s.tick(&vec![], None, 50);
    assert_eq!(record_of(&s, 5).position, Some(Position { x: 3, y: 0 }));
    s.tick(&vec![], None, 100);
    assert_eq!(record_of(&s, 5).position, Some(Position { x: 2, y: 0 }));
}

#[test]
fn bot_out_of_reach_holds() {
    let mut s = started(40, 1, vec![spawn(1, Item::PLAYER1, 0, 0), spawn(9, Item::FOOD, 39, 0)]);
    spawn_bot(&mut s.ecs, 5, Position { x: 35, y: 0 }, 0, 100);
    s.tick(&vec![], None, 0);
    assert_eq!(record_of(&s, 5).position, Some(Position { x: 35, y: 0 }));
    assert_eq!(record_of(&s, 5).autopilot.map(|a| a.next_move_at), Some(100));
}

#[test]
fn fleeing_victim_runs_away() {
    let mut s = started(9, 1, vec![spawn(3, Item::PLAYER2, 0, 0), spawn(9, Item::FOOD, 8, 0)]);
    let e = spawn_bot(&mut s.ecs, 5, Position { x: 3, y: 0 }, 0, 100);
    let mut r = s.ecs.get(e).unwrap();
    r.hunter = false;
    r.victim = true;
    s.ecs.replace(e, r);
    s.tick(&vec![], None, 0);
    assert_eq!(record_of(&s, 5).position, Some(Position { x: 4, y: 0 }));
}

#[test]
fn new_game_runs_on_an_empty_world() {
    let s = State::new();
    assert_eq!(s.status, GameStatus::Running);
    assert!(live_ids(&s).is_empty());
}

#[test]
fn registration_while_running_keeps_the_world() {
    let mut s = started(5, 5, vec![spawn(1, Item::PLAYER1, 1, 1)]);
    s.process_messages(&vec![registration(3)]);
    assert_eq!(s.status, GameStatus::Running);
    assert_eq!(s.player.0, 3);
    assert_eq!(live_ids(&s), vec![1]);
}

#[test]
fn registered_phase_starts_on_a_cleared_world() {
    let mut s = started(5, 5, vec![spawn(1, Item::PLAYER1, 1, 1)]);
    s.status = GameStatus::Registered;
    s.tick(&vec![], None, 0);
    assert_eq!(s.status, GameStatus::Running);
    assert!(live_ids(&s).is_empty());
}
