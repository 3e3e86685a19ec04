use pas_cman_ipl::components::Direction;
use pas_cman_ipl::pascman_protocol::{
    decode, read_u32_le, EatFood, GameOver, Item, KillVictim, LeftGame, Message, MessageType, Movement,
    Position, Registration, Spawn, FRAME_SIZE,
};

fn frame(fields: &[u32]) -> Vec<u8> {
    let mut b = vec![0u8; FRAME_SIZE];
    for (k, f) in fields.iter().enumerate() {
        b[4 * k..4 * k + 4].copy_from_slice(&f.to_le_bytes());
    }
    b
}

#[test]
fn reads_little_endian() {
    assert_eq!(read_u32_le(&[0x78, 0x56, 0x34, 0x12], 0), 0x12345678);
    assert_eq!(read_u32_le(&[0, 0xff, 0xff, 0xff, 0xff], 1), u32::MAX);
}

#[test]
fn decodes_each_message_type() {
    assert_eq!(
        decode(&frame(&[0, 7])),
        Some(Message::Registration(Registration { msgt: MessageType::REGISTRATION, player: 7 }))
    );
    assert_eq!(
        decode(&frame(&[1, 12, 3, 4, 5])),
        Some(Message::Spawn(Spawn {
            msgt: MessageType::SPAWN,
            id: 12,
            item: Item::FOOD,
            pos: Position { x: 4, y: 5 }
        }))
    );
    assert_eq!(
        decode(&frame(&[2, 12, 6, 7])),
        Some(Message::Movement(Movement { msgt: MessageType::MOVEMENT, id: 12, pos: Position { x: 6, y: 7 } }))
    );
    assert_eq!(
        decode(&frame(&[3, 1, 2])),
        Some(Message::EatFood(EatFood { msgt: MessageType::EAT_FOOD, eater: 1, food: 2 }))
    );
    assert_eq!(
        decode(&frame(&[4, 9])),
        Some(Message::GameOver(GameOver { msgt: MessageType::GAME_OVER, winner: 9 }))
    );
    assert_eq!(
        decode(&frame(&[5, 1, 2])),
        Some(Message::Kill(KillVictim { msgt: MessageType::KILL, killer: 1, killed: 2 }))
    );
    assert_eq!(
        decode(&frame(&[6, 3])),
        Some(Message::LeftGame(LeftGame { msgt: MessageType::LEFT_GAME, id: 3 }))
    );
}

#[test]
fn decodes_every_item() {
    let items = [Item::WALL, Item::FLOOR, Item::FOOD, Item::SUPERFOOD, Item::PLAYER1, Item::PLAYER2];
    for (k, item) in items.iter().enumerate() {
        match decode(&frame(&[1, 0, k as u32 + 1, 0, 0])) {
            Some(Message::Spawn(s)) => assert_eq!(s.item, *item),
            other => panic!("unexpected {:?}", other),
        }
    }
}

#[test]
fn malformed_frames_are_dropped() {
    assert_eq!(decode(&frame(&[7])), None);
    assert_eq!(decode(&frame(&[1, 0, 0, 0, 0])), None);
    assert_eq!(decode(&frame(&[1, 0, 7, 0, 0])), None);
    assert_eq!(decode(&frame(&[0, 1])[..FRAME_SIZE - 1]), None);
    assert_eq!(decode(&[]), None);
}

#[test]
fn direction_codes_on_the_wire() {
    assert_eq!(<[u8; 4]>::from(Direction::Down), [0, 0, 0, 0]);
    assert_eq!(<[u8; 4]>::from(Direction::Right), [1, 0, 0, 0]);
    assert_eq!(<[u8; 4]>::from(Direction::Left), [2, 0, 0, 0]);
    assert_eq!(<[u8; 4]>::from(Direction::Up), [3, 0, 0, 0]);
}
