//! Components are the properties that can be attached to an entity:
//! a position, a facing direction, a role, a pending movement, ...
use vstd::prelude::*;
use crate::resources::Point;

verus! {

/// The player that plays a game.
#[derive(Debug, Clone, Copy)]
pub struct Player(pub u32);

/// The entity is a character, drawn with one glyph per facing direction
/// (in the order down, right, left, up).
#[derive(Debug, Clone, Copy)]
pub struct Character(pub [char; 4]);

/// The main character, which tries to eat all the food on the floor.
#[derive(Debug, Clone, Copy, PartialEq, Eq, Structural)]
pub struct Hero;

/// An adversary of the hero.
#[derive(Debug, Clone, Copy, PartialEq, Eq, Structural)]
pub struct Villain;

/// The position of an entity on the map.
#[derive(Debug, Clone, Copy, PartialEq, Eq, Structural)]
pub struct Position {
    pub x: usize,
    pub y: usize,
}

/// Width of the screen area in which positions are drawn.
pub const SCREEN_WIDTH: usize = 30;

/// Height of the screen area in which positions are drawn.
pub const SCREEN_HEIGHT: usize = 20;

impl Position {
    /// The position as a point of signed coordinates.
    pub fn into_point(self) -> (r: Point)
        requires
            self.x <= i32::MAX,
            self.y <= i32::MAX,
        ensures
            r.x == self.x,
            r.y == self.y,
    {
        Point { x: self.x as i32, y: self.y as i32 }
    }

    /// True iff the position lies on the drawable screen area.
    pub fn is_valid(self) -> (r: bool)
        ensures
            r == (self.x < SCREEN_WIDTH && self.y < SCREEN_HEIGHT),
    {
        self.x < SCREEN_WIDTH && self.y < SCREEN_HEIGHT
    }
}

/// Something on the floor that the hero tries to eat, with its glyph.
#[derive(Debug, Clone, Copy)]
pub struct Food(pub char);

/// A magic powerup: eating it swaps the roles of hunters and victims for a while.
#[derive(Debug, Clone, Copy, PartialEq, Eq, Structural)]
pub struct Superfood;

/// The direction an entity faces.
#[derive(Debug, Clone, Copy, PartialEq, Eq, Structural)]
pub enum Direction {
    Down,
    Right,
    Left,
    Up,
}

impl Direction {
    /// The numeric code of the direction on the wire.
    pub open spec fn spec_code(self) -> u32 {
        match self {
            Direction::Down => 0,
            Direction::Right => 1,
            Direction::Left => 2,
            Direction::Up => 3,
        }
    }

    /// The numeric code of the direction on the wire.
    pub fn code(self) -> (r: u32)
        ensures
            r == self.spec_code(),
    {
        match self {
            Direction::Down => 0,
            Direction::Right => 1,
            Direction::Left => 2,
            Direction::Up => 3,
        }
    }
}

/// The direction of a code, taken modulo four.
pub open spec fn spec_direction_of(code: u32) -> Direction {
    if code % 4 == 0 {
        Direction::Down
    } else if code % 4 == 1 {
        Direction::Right
    } else if code % 4 == 2 {
        Direction::Left
    } else {
        Direction::Up
    }
}

/// The direction of a code, taken modulo four.
pub fn direction_of(code: u32) -> (d: Direction)
    ensures
        d == spec_direction_of(code),
{
    let c = code % 4;
    if c == 0 {
        Direction::Down
    } else if c == 1 {
        Direction::Right
    } else if c == 2 {
        Direction::Left
    } else {
        Direction::Up
    }
}

/// The four bytes of a direction's code, least significant byte first.
pub open spec fn direction_bytes(d: Direction) -> [u8; 4] {
    [d.spec_code() as u8, 0u8, 0u8, 0u8]
}

impl From<Direction> for [u8; 4] {
    fn from(direction: Direction) -> (r: [u8; 4]) {
        let code = direction.code() as u8;
        [code, 0, 0, 0]
    }
}

impl vstd::std_specs::convert::FromSpecImpl<Direction> for [u8; 4] {
    open spec fn obeys_from_spec() -> bool {
        true
    }

    open spec fn from_spec(d: Direction) -> [u8; 4] {
        direction_bytes(d)
    }
}

/// A pending movement request toward the given cell, consumed by the next
/// movement stage.
#[derive(Debug, Clone, Copy, PartialEq, Eq, Structural)]
pub struct IntendsToMove(pub Position);

/// The stable numeric identity under which external messages address an entity.
#[derive(Debug, Clone, Copy, PartialEq, Eq, Structural)]
pub struct Id(pub u32);

/// Someone ate some food.
#[derive(Debug, Clone, Copy, PartialEq, Eq, Structural)]
pub struct EatFood {
    pub eater: u32,
    pub food: u32,
}

/// Someone killed someone else.
#[derive(Debug, Clone, Copy, PartialEq, Eq, Structural)]
pub struct Kill {
    pub killer: u32,
    pub killed: u32,
}

/// The entity left the game and is removed at the next cleanup.
#[derive(Debug, Clone, Copy, PartialEq, Eq, Structural)]
pub struct LeftGame;

/// A capability tag: hunters kill the victims they meet.
#[derive(Debug, Clone, Copy, PartialEq, Eq, Structural)]
pub enum Role {
    Hunter,
    Victim,
}

/// A role mutation to apply at the next role-swap stage.
#[derive(Debug, Clone, Copy, PartialEq, Eq, Structural)]
pub struct SwapRole {
    pub add: Role,
    pub remove: Role,
}

/// A role mutation that fires once the clock reaches `fire_at`.
#[derive(Debug, Clone, Copy, PartialEq, Eq, Structural)]
pub struct DelayedSwapRole {
    pub fire_at: u64,
    pub swap: SwapRole,
}

/// An autonomous actor that moves once every `interval` milliseconds, next
/// at `next_move_at`: a wanderer steps in the direction of code `roll`, drawn
/// anew each tick; any other actor plans its step on a distance field.
#[derive(Debug, Clone, Copy, PartialEq, Eq, Structural)]
pub struct Autopilot {
    pub next_move_at: u64,
    pub interval: u64,
    pub wander: bool,
    pub roll: u32,
}

} // verus!
