//! Small helpers on positions.
use vstd::prelude::*;
use crate::components::{Direction, Position};
use crate::resources::{GameMap, Point};

verus! {

/// The cell one step from `(x, y)` in the given direction.
pub open spec fn step(x: int, y: int, direction: Direction) -> (int, int) {
    match direction {
        Direction::Up => (x, y - 1),
        Direction::Down => (x, y + 1),
        Direction::Left => (x - 1, y),
        Direction::Right => (x + 1, y),
    }
}

/// The position after one step in the given direction, where the map lets
/// the entity in; the current position otherwise.
pub open spec fn spec_next_position(map: GameMap, curr: Position, direction: Direction) -> Position {
    let (x, y) = step(curr.x as int, curr.y as int, direction);
    if map.enterable(x, y) {
        Position { x: x as usize, y: y as usize }
    } else {
        curr
    }
}

/// Returns the position after one step in the given direction. If the step
/// is not legal, the position is not updated.
pub fn next_position(map: &GameMap, curr: Position, direction: Direction) -> (r: Position)
    requires
        map.wf(),
    ensures
        r == spec_next_position(*map, curr, direction),
{
    if curr.x > i32::MAX as usize || curr.y > i32::MAX as usize {
        // a step from here cannot land on a map whose sides fit in i32
        return curr;
    }
    let mut x: i64 = curr.x as i64;
    let mut y: i64 = curr.y as i64;
    match direction {
        Direction::Up => y = y - 1,
        Direction::Down => y = y + 1,
        Direction::Left => x = x - 1,
        Direction::Right => x = x + 1,
    }
    if x < 0 || y < 0 || x > i32::MAX as i64 || y > i32::MAX as i64 {
        return curr;
    }
    if map.can_enter(Point { x: x as i32, y: y as i32 }) {
        Position { x: x as usize, y: y as usize }
    } else {
        curr
    }
}

/// The cell one step from `p` in direction `d`, if its coordinates are
/// representable.
pub open spec fn step_target(p: Position, d: Direction) -> Option<Position> {
    match d {
        Direction::Up => if p.y == 0 {
            None
        } else {
            Some(Position { x: p.x, y: (p.y - 1) as usize })
        },
        Direction::Down => if p.y == usize::MAX {
            None
        } else {
            Some(Position { x: p.x, y: (p.y + 1) as usize })
        },
        Direction::Left => if p.x == 0 {
            None
        } else {
            Some(Position { x: (p.x - 1) as usize, y: p.y })
        },
        Direction::Right => if p.x == usize::MAX {
            None
        } else {
            Some(Position { x: (p.x + 1) as usize, y: p.y })
        },
    }
}

/// The cell one step from `p` in direction `d`, if its coordinates are
/// representable.
pub fn step_toward(p: Position, d: Direction) -> (r: Option<Position>)
    ensures
        r == step_target(p, d),
{
    match d {
        Direction::Up => if p.y == 0 { None } else { Some(Position { x: p.x, y: p.y - 1 }) },
        Direction::Down => if p.y == usize::MAX { None } else { Some(Position { x: p.x, y: p.y + 1 }) },
        Direction::Left => if p.x == 0 { None } else { Some(Position { x: p.x - 1, y: p.y }) },
        Direction::Right => if p.x == usize::MAX { None } else { Some(Position { x: p.x + 1, y: p.y }) },
    }
}

} // verus!
