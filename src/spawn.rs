//! How the entities of the game are made.
use vstd::prelude::*;
use crate::components::{Autopilot, Character, Direction, Food, Id, Position};
use crate::world::{Entity, EntityRecord, World};

verus! {

/// The glyphs of the first player, facing down, right, left and up.
pub open spec fn spec_player1_marks() -> [char; 4] {
    ['@', 'P', '`', 'p']
}

/// The glyphs of the second player, facing down, right, left and up.
pub open spec fn spec_player2_marks() -> [char; 4] {
    ['!', '1', 'A', '!']
}

fn player1_marks() -> (r: [char; 4])
    ensures
        r == spec_player1_marks(),
{
    ['@', 'P', '`', 'p']
}

fn player2_marks() -> (r: [char; 4])
    ensures
        r == spec_player2_marks(),
{
    ['!', '1', 'A', '!']
}

/// The first player: the hero, a victim of the hunters.
pub open spec fn player1_record(id: u32, pos: Position) -> EntityRecord {
    EntityRecord {
        id: Some(Id(id)),
        character: Some(Character(spec_player1_marks())),
        hero: true,
        victim: true,
        position: Some(pos),
        direction: Some(Direction::Down),
        ..EntityRecord::spec_empty()
    }
}

/// The second player: a villain, which hunts the hero.
pub open spec fn player2_record(id: u32, pos: Position) -> EntityRecord {
    EntityRecord {
        id: Some(Id(id)),
        character: Some(Character(spec_player2_marks())),
        villain: true,
        hunter: true,
        position: Some(pos),
        direction: Some(Direction::Down),
        ..EntityRecord::spec_empty()
    }
}

/// A seed of food.
pub open spec fn seed_record(id: u32, pos: Position) -> EntityRecord {
    EntityRecord { id: Some(Id(id)), food: Some(Food('.')), position: Some(pos), ..EntityRecord::spec_empty() }
}

/// A powerup, eaten like food.
pub open spec fn superfood_record(id: u32, pos: Position) -> EntityRecord {
    EntityRecord {
        id: Some(Id(id)),
        food: Some(Food('*')),
        superfood: true,
        position: Some(pos),
        ..EntityRecord::spec_empty()
    }
}

/// A villain that plans its own moves, first at `first_move_at`, then every
/// `interval` milliseconds.
pub open spec fn bot_record(id: u32, pos: Position, first_move_at: u64, interval: u64) -> EntityRecord {
    EntityRecord {
        autopilot: Some(Autopilot { next_move_at: first_move_at, interval, wander: false, roll: 0 }),
        ..player2_record(id, pos)
    }
}

/// A villain that wanders at random, first at `first_move_at`, then every
/// `interval` milliseconds.
pub open spec fn wanderer_record(id: u32, pos: Position, first_move_at: u64, interval: u64) -> EntityRecord {
    EntityRecord {
        autopilot: Some(Autopilot { next_move_at: first_move_at, interval, wander: true, roll: 0 }),
        ..player2_record(id, pos)
    }
}

/// Spawns the first player.
pub fn spawn_player1(ecs: &mut World, id: u32, pos: Position) -> (e: Entity)
    ensures
        final(ecs)@ == old(ecs)@.push(Some(player1_record(id, pos))),
        e.0 == old(ecs)@.len(),
{
    let mut r = EntityRecord::empty();
    r.id = Some(Id(id));
    r.character = Some(Character(player1_marks()));
    r.hero = true;
    r.victim = true;
    r.position = Some(pos);
    r.direction = Some(Direction::Down);
    ecs.push(r)
}

/// Spawns the second player.
pub fn spawn_player2(ecs: &mut World, id: u32, pos: Position) -> (e: Entity)
    ensures
        final(ecs)@ == old(ecs)@.push(Some(player2_record(id, pos))),
        e.0 == old(ecs)@.len(),
{
    let mut r = EntityRecord::empty();
    r.id = Some(Id(id));
    r.character = Some(Character(player2_marks()));
    r.villain = true;
    r.hunter = true;
    r.position = Some(pos);
    r.direction = Some(Direction::Down);
    ecs.push(r)
}

/// Spawns a seed of food.
pub fn spawn_seed(ecs: &mut World, id: u32, pos: Position) -> (e: Entity)
    ensures
        final(ecs)@ == old(ecs)@.push(Some(seed_record(id, pos))),
        e.0 == old(ecs)@.len(),
{
    let mut r = EntityRecord::empty();
    r.id = Some(Id(id));
    r.food = Some(Food('.'));
    r.position = Some(pos);
    ecs.push(r)
}

/// Spawns a powerup.
pub fn spawn_superfood(ecs: &mut World, id: u32, pos: Position) -> (e: Entity)
    ensures
        final(ecs)@ == old(ecs)@.push(Some(superfood_record(id, pos))),
        e.0 == old(ecs)@.len(),
{
    let mut r = EntityRecord::empty();
    r.id = Some(Id(id));
    r.food = Some(Food('*'));
    r.superfood = true;
    r.position = Some(pos);
    ecs.push(r)
}

/// Spawns a villain that plans its own moves.
pub fn spawn_bot(ecs: &mut World, id: u32, pos: Position, first_move_at: u64, interval: u64) -> (e: Entity)
    ensures
        final(ecs)@ == old(ecs)@.push(Some(bot_record(id, pos, first_move_at, interval))),
        e.0 == old(ecs)@.len(),
{
    let mut r = EntityRecord::empty();
    r.id = Some(Id(id));
    r.character = Some(Character(player2_marks()));
    r.villain = true;
    r.hunter = true;
    r.position = Some(pos);
    r.direction = Some(Direction::Down);
    r.autopilot = Some(Autopilot { next_move_at: first_move_at, interval, wander: false, roll: 0 });
    ecs.push(r)
}

/// Spawns a villain that wanders at random.
pub fn spawn_wanderer(ecs: &mut World, id: u32, pos: Position, first_move_at: u64, interval: u64) -> (e: Entity)
    ensures
        final(ecs)@ == old(ecs)@.push(Some(wanderer_record(id, pos, first_move_at, interval))),
        e.0 == old(ecs)@.len(),
{
    let mut r = EntityRecord::empty();
    r.id = Some(Id(id));
    r.character = Some(Character(player2_marks()));
    r.villain = true;
    r.hunter = true;
    r.position = Some(pos);
    r.direction = Some(Direction::Down);
    r.autopilot = Some(Autopilot { next_move_at: first_move_at, interval, wander: true, roll: 0 });
    ecs.push(r)
}

} // verus!
