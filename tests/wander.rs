use bracket_lib::prelude::RandomNumberGenerator;
use pas_cman_ipl::components::{Direction, Position};
use pas_cman_ipl::game_state::State;
use pas_cman_ipl::pascman_protocol::{self as proto, Item, Message, MessageType, Registration, Spawn};
use pas_cman_ipl::resources::GameMap;
use pas_cman_ipl::spawn::spawn_wanderer;

fn open_game(seed: u64) -> State {
    let mut s = State::new();
    s.rng = RandomNumberGenerator::seeded(seed);
    s.map = GameMap::new(21, 21);
    s.process_messages(&vec![
        Message::Registration(Registration { msgt: MessageType::REGISTRATION, player: 1 }),
        Message::Spawn(Spawn { msgt: MessageType::SPAWN, id: 9, item: Item::FOOD, pos: proto::Position { x: 0, y: 0 } }),
    ]);
    spawn_wanderer(&mut s.ecs, 5, Position { x: 10, y: 10 }, 0, 100);
    s
}

fn wanderer(s: &State) -> (Position, Direction) {
    let r = s.ecs.get(s.ecs.find_by_id(5).unwrap()).unwrap();
    (r.position.unwrap(), r.direction.unwrap())
}

#[test]
fn wanderer_steps_to_a_neighbour_each_interval() {
    let mut s = open_game(7);
    let mut seen: Vec<Direction> = Vec::new();
    let mut now = 0;
    for _ in 0..8 {
        let (before, _) = wanderer(&s);
        s.tick(&vec![], None, now);
        let (after, facing) = wanderer(&s);
        let dx = (after.x as i64 - before.x as i64).abs();
        let dy = (after.y as i64 - before.y as i64).abs();
        assert_eq!(dx + dy, 1);
        if !seen.contains(&facing) {
            seen.push(facing);
        }
        // between two intervals it holds still
        s.tick(&vec![], None, now + 50);
        assert_eq!(wanderer(&s).0, after);
        now += 100;
    }
    assert!(seen.len() >= 2);
    let roll = s.ecs.get(s.ecs.find_by_id(5).unwrap()).unwrap().autopilot.unwrap().roll;
    assert!(roll < 4);
}

#[test]
fn wandering_is_reproducible_under_a_seed() {
    let mut a = open_game(42);
    let mut b = open_game(42);
    for k in 0..10 {
        a.tick(&vec![], None, k * 100);
        b.tick(&vec![], None, k * 100);
        assert_eq!(wanderer(&a), wanderer(&b));
    }
}
