//! Movement resolution: pending movement requests are applied where the map
//! lets the entity in, and consumed in every case.
use vstd::prelude::*;
use crate::command::{apply_ops, per_slot_commands, CommandBuffer, Op};
use crate::components::{Direction, IntendsToMove, Position};
use crate::resources::{GameMap, Point};
use crate::world::{Entity, EntityRecord, World};

verus! {

/// The direction faced when going from `from` toward `to`: horizontal
/// first, vertical only when the columns agree; none when the cells agree.
pub open spec fn spec_heading(from: Position, to: Position) -> Option<Direction> {
    if to.x > from.x {
        Some(Direction::Right)
    } else if to.x < from.x {
        Some(Direction::Left)
    } else if to.y > from.y {
        Some(Direction::Down)
    } else if to.y < from.y {
        Some(Direction::Up)
    } else {
        None
    }
}

/// The direction faced when going from `from` toward `to`.
pub fn heading(from: Position, to: Position) -> (r: Option<Direction>)
    ensures
        r == spec_heading(from, to),
{
    if to.x > from.x {
        Some(Direction::Right)
    } else if to.x < from.x {
        Some(Direction::Left)
    } else if to.y > from.y {
        Some(Direction::Down)
    } else if to.y < from.y {
        Some(Direction::Up)
    } else {
        None
    }
}

/// True iff an entity may stand on the position.
pub open spec fn enterable_pos(map: GameMap, p: Position) -> bool {
    map.enterable(p.x as int, p.y as int)
}

/// True iff an entity may stand on the position.
pub fn can_enter_pos(map: &GameMap, p: Position) -> (r: bool)
    requires
        map.wf(),
    ensures
        r == enterable_pos(*map, p),
{
    if p.x < map.width && p.y < map.height {
        map.can_enter(Point { x: p.x as i32, y: p.y as i32 })
    } else {
        false
    }
}

/// The operations that resolve the pending movement of an entity: the
/// request is removed, the entity turns toward its target, and it moves
/// there when the target is a floor cell of the map.
pub open spec fn move_ops(r: Option<EntityRecord>, map: GameMap) -> Seq<Op> {
    match r {
        Some(rec) => match rec.intends {
            Some(IntendsToMove(t)) => match rec.position {
                Some(p) => seq![Op::RemoveIntent] + (match spec_heading(p, t) {
                    Some(d) => seq![Op::SetDirection(d)],
                    None => Seq::empty(),
                }) + (if enterable_pos(map, t) {
                    seq![Op::SetPosition(t)]
                } else {
                    Seq::empty()
                }),
                None => seq![Op::RemoveIntent],
            },
            None => Seq::empty(),
        },
        None => Seq::empty(),
    }
}

/// The movement operations of every slot of a world.
pub open spec fn move_plan(w: Seq<Option<EntityRecord>>, map: GameMap) -> spec_fn(int) -> Seq<Op> {
    |i: int| move_ops(w[i], map)
}

/// An entity once its pending movement is resolved.
pub open spec fn moved(rec: EntityRecord, map: GameMap) -> EntityRecord {
    match rec.intends {
        Some(IntendsToMove(t)) => match rec.position {
            Some(p) => EntityRecord {
                intends: None,
                direction: match spec_heading(p, t) {
                    Some(d) => Some(d),
                    None => rec.direction,
                },
                position: if enterable_pos(map, t) {
                    Some(t)
                } else {
                    rec.position
                },
                ..rec
            },
            None => EntityRecord { intends: None, ..rec },
        },
        None => rec,
    }
}

/// The movement operations of an entity turn it into the moved entity.
pub proof fn lemma_move_ops(rec: EntityRecord, map: GameMap)
    ensures
        apply_ops(Some(rec), move_ops(Some(rec), map)) == Some(moved(rec, map)),
{
    let ops = move_ops(Some(rec), map);
    reveal_with_fuel(apply_ops, 4);
    if let Some(IntendsToMove(t)) = rec.intends {
        if let Some(p) = rec.position {
            assert(ops.len() <= 3);
            if ops.len() == 3 {
                assert(ops.drop_last().drop_last() =~= seq![Op::RemoveIntent]);
            } else if ops.len() == 2 {
                assert(ops.drop_last() =~= seq![Op::RemoveIntent]);
            }
            assert(ops.len() == 1 ==> ops =~= seq![Op::RemoveIntent]);
        }
    }
}

/// The operations that resolve the movement of one slot.
fn slot_move_ops(r: Option<EntityRecord>, map: &GameMap) -> (ops: Vec<Op>)
    requires
        map.wf(),
    ensures
        ops@ == move_ops(r, *map),
{
    let mut ops: Vec<Op> = Vec::new();
    if let Some(rec) = r {
        if let Some(IntendsToMove(t)) = rec.intends {
            ops.push(Op::RemoveIntent);
            if let Some(p) = rec.position {
                if let Some(d) = heading(p, t) {
                    ops.push(Op::SetDirection(d));
                }
                if can_enter_pos(map, t) {
                    ops.push(Op::SetPosition(t));
                }
                proof {
                    assert(ops@ =~= move_ops(r, *map));
                }
            }
        }
    }
    ops
}

/// Proposes, for every entity with a pending movement, the mutations that
/// resolve it.
pub fn move_to_next_place(world: &World, map: &GameMap, cmd: &mut CommandBuffer)
    requires
        map.wf(),
    ensures
        final(cmd).commands@ == old(cmd).commands@ + per_slot_commands(
            world@.len(),
            move_plan(world@, *map),
        ),
{
    let n = world.slots.len();
    let mut i: usize = 0;
    while i < n
        invariant
            n == world@.len(),
            i <= n,
            map.wf(),
            cmd.commands@ == old(cmd).commands@ + per_slot_commands(i as nat, move_plan(world@, *map)),
        decreases n - i,
    {
        let ops = slot_move_ops(world.slots[i], map);
        cmd.push_all(Entity(i), &ops);
        proof {
            assert(move_plan(world@, *map)(i as int) == ops@);
            assert(old(cmd).commands@ + per_slot_commands((i + 1) as nat, move_plan(world@, *map))
                =~= old(cmd).commands@ + per_slot_commands(i as nat, move_plan(world@, *map))
                + crate::command::commands_for(Entity(i), ops@));
        }
        i = i + 1;
    }
}

/// A movement request toward a floor cell of the map is carried out, and
/// consumed.
pub proof fn lemma_move_onto_floor(rec: EntityRecord, map: GameMap, target: Position)
    requires
        rec.intends == Some(IntendsToMove(target)),
        rec.position is Some,
        enterable_pos(map, target),
    ensures
        moved(rec, map).position == Some(target),
        moved(rec, map).intends is None,
{
}

/// A movement request toward a wall or out of the map leaves the entity
/// where it was, facing the way it tried to go, and is consumed.
pub proof fn lemma_move_blocked(rec: EntityRecord, map: GameMap, target: Position)
    requires
        rec.intends == Some(IntendsToMove(target)),
        rec.position is Some,
        !enterable_pos(map, target),
    ensures
        moved(rec, map).position == rec.position,
        moved(rec, map).direction == (match spec_heading(rec.position->Some_0, target) {
            Some(d) => Some(d),
            None => rec.direction,
        }),
        moved(rec, map).intends is None,
{
}

} // verus!
