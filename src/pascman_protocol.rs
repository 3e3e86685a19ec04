//! The external protocol that drives the game. Messages travel as frames of
//! `FRAME_SIZE` bytes: a message type, then the fields of that type, each a
//! 32-bit unsigned integer, least significant byte first.
use vstd::prelude::*;

verus! {

/// The map is made of 30 x 20 tiles.
pub const MAP_SIZE: usize = 600;

/// The size of a frame: that of the largest message.
pub const FRAME_SIZE: usize = 20;

/// A direction, as the arrows of the keyboard give it.
#[allow(non_camel_case_types)]
#[derive(Debug, Clone, Copy, PartialEq, Eq, Structural)]
pub enum Direction {
    DOWN,
    RIGHT,
    LEFT,
    UP,
}

/// The position of an item on the map, from {x: 0, y: 0} (top left corner).
#[derive(Debug, Clone, Copy, PartialEq, Eq, Structural)]
pub struct Position {
    pub x: u32,
    pub y: u32,
}

/// Anything that can exist on the board.
#[allow(non_camel_case_types)]
#[derive(Debug, Clone, Copy, PartialEq, Eq, Structural)]
pub enum Item {
    WALL,
    FLOOR,
    FOOD,
    SUPERFOOD,
    PLAYER1,
    PLAYER2,
}

/// The type of a message sent to the game.
#[allow(non_camel_case_types)]
#[derive(Debug, Clone, Copy, PartialEq, Eq, Structural)]
pub enum MessageType {
    /// The player has been registered with the server.
    REGISTRATION,
    /// An item enters the game.
    SPAWN,
    /// An item moves on the map.
    MOVEMENT,
    /// Someone ate some food.
    EAT_FOOD,
    /// The game is over.
    GAME_OVER,
    /// Someone killed someone else.
    KILL,
    /// A player left the game.
    LEFT_GAME,
}

/// Tells the game which player it plays for.
#[derive(Debug, Clone, Copy, PartialEq, Eq, Structural)]
pub struct Registration {
    pub msgt: MessageType,
    pub player: u32,
}

/// Introduces an item, under a numeric id that it keeps for the whole game.
#[derive(Debug, Clone, Copy, PartialEq, Eq, Structural)]
pub struct Spawn {
    pub msgt: MessageType,
    pub id: u32,
    pub item: Item,
    pub pos: Position,
}

/// Asks the item with the given id to move to a position.
#[derive(Debug, Clone, Copy, PartialEq, Eq, Structural)]
pub struct Movement {
    pub msgt: MessageType,
    pub id: u32,
    pub pos: Position,
}

/// Someone ate some food.
#[derive(Debug, Clone, Copy, PartialEq, Eq, Structural)]
pub struct EatFood {
    pub msgt: MessageType,
    pub eater: u32,
    pub food: u32,
}

/// The game is over.
#[derive(Debug, Clone, Copy, PartialEq, Eq, Structural)]
pub struct GameOver {
    pub msgt: MessageType,
    pub winner: u32,
}

/// Someone killed someone else.
#[derive(Debug, Clone, Copy, PartialEq, Eq, Structural)]
pub struct KillVictim {
    pub msgt: MessageType,
    pub killer: u32,
    pub killed: u32,
}

/// A player left the game.
#[derive(Debug, Clone, Copy, PartialEq, Eq, Structural)]
pub struct LeftGame {
    pub msgt: MessageType,
    pub id: u32,
}

/// A message, one variant per message type.
#[derive(Debug, Clone, Copy, PartialEq, Eq, Structural)]
pub enum Message {
    Registration(Registration),
    Spawn(Spawn),
    Movement(Movement),
    EatFood(EatFood),
    GameOver(GameOver),
    Kill(KillVictim),
    LeftGame(LeftGame),
}

/// The 32-bit unsigned integer whose bytes, least significant first, start at `off`.
pub open spec fn spec_u32_le(b: Seq<u8>, off: int) -> u32 {
    (b[off] as int + 256 * (b[off + 1] as int) + 65536 * (b[off + 2] as int) + 16777216 * (
    b[off + 3] as int)) as u32
}

/// Reads the 32-bit unsigned integer whose bytes, least significant first, start at `off`.
pub fn read_u32_le(b: &[u8], off: usize) -> (r: u32)
    requires
        off + 4 <= b@.len(),
    ensures
        r == spec_u32_le(b@, off as int),
{
    let b0 = b[off] as u32;
    let b1 = b[off + 1] as u32;
    let b2 = b[off + 2] as u32;
    let b3 = b[off + 3] as u32;
    b0 + 256 * b1 + 65536 * b2 + 16777216 * b3
}

/// The message type of a code, if it names one.
pub open spec fn spec_message_type(code: u32) -> Option<MessageType> {
    if code == 0 {
        Some(MessageType::REGISTRATION)
    } else if code == 1 {
        Some(MessageType::SPAWN)
    } else if code == 2 {
        Some(MessageType::MOVEMENT)
    } else if code == 3 {
        Some(MessageType::EAT_FOOD)
    } else if code == 4 {
        Some(MessageType::GAME_OVER)
    } else if code == 5 {
        Some(MessageType::KILL)
    } else if code == 6 {
        Some(MessageType::LEFT_GAME)
    } else {
        None
    }
}

/// The item of a code, if it names one.
pub open spec fn spec_item(code: u32) -> Option<Item> {
    if code == 1 {
        Some(Item::WALL)
    } else if code == 2 {
        Some(Item::FLOOR)
    } else if code == 3 {
        Some(Item::FOOD)
    } else if code == 4 {
        Some(Item::SUPERFOOD)
    } else if code == 5 {
        Some(Item::PLAYER1)
    } else if code == 6 {
        Some(Item::PLAYER2)
    } else {
        None
    }
}

/// The message type of a code, if it names one.
pub fn message_type_of(code: u32) -> (r: Option<MessageType>)
    ensures
        r == spec_message_type(code),
{
    match code {
        0 => Some(MessageType::REGISTRATION),
        1 => Some(MessageType::SPAWN),
        2 => Some(MessageType::MOVEMENT),
        3 => Some(MessageType::EAT_FOOD),
        4 => Some(MessageType::GAME_OVER),
        5 => Some(MessageType::KILL),
        6 => Some(MessageType::LEFT_GAME),
        _ => None,
    }
}

/// The item of a code, if it names one.
pub fn item_of(code: u32) -> (r: Option<Item>)
    ensures
        r == spec_item(code),
{
    match code {
        1 => Some(Item::WALL),
        2 => Some(Item::FLOOR),
        3 => Some(Item::FOOD),
        4 => Some(Item::SUPERFOOD),
        5 => Some(Item::PLAYER1),
        6 => Some(Item::PLAYER2),
        _ => None,
    }
}

/// The message that a frame holds: the message type comes first, then the
/// fields of that type in declaration order. A frame shorter than
/// `FRAME_SIZE`, or with an unknown message type or item, holds none.
pub open spec fn spec_decode(b: Seq<u8>) -> Option<Message> {
    if b.len() < FRAME_SIZE {
        None
    } else {
        let f1 = spec_u32_le(b, 4);
        let f2 = spec_u32_le(b, 8);
        let f3 = spec_u32_le(b, 12);
        let f4 = spec_u32_le(b, 16);
        match spec_message_type(spec_u32_le(b, 0)) {
            None => None,
            Some(MessageType::REGISTRATION) => Some(
                Message::Registration(Registration { msgt: MessageType::REGISTRATION, player: f1 }),
            ),
            Some(MessageType::SPAWN) => match spec_item(f2) {
                None => None,
                Some(item) => Some(
                    Message::Spawn(
                        Spawn {
                            msgt: MessageType::SPAWN,
                            id: f1,
                            item,
                            pos: Position { x: f3, y: f4 },
                        },
                    ),
                ),
            },
            Some(MessageType::MOVEMENT) => Some(
                Message::Movement(
                    Movement { msgt: MessageType::MOVEMENT, id: f1, pos: Position { x: f2, y: f3 } },
                ),
            ),
            Some(MessageType::EAT_FOOD) => Some(
                Message::EatFood(EatFood { msgt: MessageType::EAT_FOOD, eater: f1, food: f2 }),
            ),
            Some(MessageType::GAME_OVER) => Some(
                Message::GameOver(GameOver { msgt: MessageType::GAME_OVER, winner: f1 }),
            ),
            Some(MessageType::KILL) => Some(
                Message::Kill(KillVictim { msgt: MessageType::KILL, killer: f1, killed: f2 }),
            ),
            Some(MessageType::LEFT_GAME) => Some(
                Message::LeftGame(LeftGame { msgt: MessageType::LEFT_GAME, id: f1 }),
            ),
        }
    }
}

/// Decodes one frame; a malformed frame gives no message.
pub fn decode(b: &[u8]) -> (r: Option<Message>)
    ensures
        r == spec_decode(b@),
{
    if b.len() < FRAME_SIZE {
        return None;
    }
    let f1 = read_u32_le(b, 4);
    let f2 = read_u32_le(b, 8);
    let f3 = read_u32_le(b, 12);
    let f4 = read_u32_le(b, 16);
    match message_type_of(read_u32_le(b, 0)) {
        None => None,
        Some(MessageType::REGISTRATION) => Some(
            Message::Registration(Registration { msgt: MessageType::REGISTRATION, player: f1 }),
        ),
        Some(MessageType::SPAWN) => match item_of(f2) {
            None => None,
            Some(item) => Some(
                Message::Spawn(
                    Spawn { msgt: MessageType::SPAWN, id: f1, item, pos: Position { x: f3, y: f4 } },
                ),
            ),
        },
        Some(MessageType::MOVEMENT) => Some(
            Message::Movement(
                Movement { msgt: MessageType::MOVEMENT, id: f1, pos: Position { x: f2, y: f3 } },
            ),
        ),
        Some(MessageType::EAT_FOOD) => Some(
            Message::EatFood(EatFood { msgt: MessageType::EAT_FOOD, eater: f1, food: f2 }),
        ),
        Some(MessageType::GAME_OVER) => Some(
            Message::GameOver(GameOver { msgt: MessageType::GAME_OVER, winner: f1 }),
        ),
        Some(MessageType::KILL) => Some(
            Message::Kill(KillVictim { msgt: MessageType::KILL, killer: f1, killed: f2 }),
        ),
        Some(MessageType::LEFT_GAME) => Some(
            Message::LeftGame(LeftGame { msgt: MessageType::LEFT_GAME, id: f1 }),
        ),
    }
}

} // verus!
