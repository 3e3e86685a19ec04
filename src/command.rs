//! The command buffer: mutations proposed while systems only read a world
//! snapshot, replayed in order at the barrier that ends a stage.
use vstd::prelude::*;
use crate::components::{Autopilot, DelayedSwapRole, Direction, IntendsToMove, Position, Role, SwapRole};
use crate::world::{Entity, EntityRecord, World};

verus! {

/// A mutation of one entity.
#[derive(Debug, Clone, Copy)]
pub enum Op {
    Destroy,
    SetPosition(Position),
    SetDirection(Direction),
    AddIntent(IntendsToMove),
    RemoveIntent,
    MarkDead,
    MarkLeftGame,
    AddRole(Role),
    RemoveRole(Role),
    AddSwap(SwapRole),
    RemoveSwap,
    AddDelayedSwap(DelayedSwapRole),
    RemoveDelayedSwap,
    SetAutopilot(Autopilot),
}

/// A mutation addressed to an entity.
#[derive(Debug, Clone, Copy)]
pub struct Command {
    pub entity: Entity,
    pub op: Op,
}

/// What an operation makes of an entity; a destroyed entity stays destroyed.
pub open spec fn apply_op(r: Option<EntityRecord>, op: Op) -> Option<EntityRecord> {
    match r {
        None => None,
        Some(rec) => match op {
            Op::Destroy => None,
            Op::SetPosition(p) => Some(EntityRecord { position: Some(p), ..rec }),
            Op::SetDirection(d) => Some(EntityRecord { direction: Some(d), ..rec }),
            Op::AddIntent(t) => Some(EntityRecord { intends: Some(t), ..rec }),
            Op::RemoveIntent => Some(EntityRecord { intends: None, ..rec }),
            Op::MarkDead => Some(EntityRecord { dead: true, ..rec }),
            Op::MarkLeftGame => Some(EntityRecord { left_game: true, ..rec }),
            Op::AddRole(role) => Some(rec.with_role(role, true)),
            Op::RemoveRole(role) => Some(rec.with_role(role, false)),
            Op::AddSwap(s) => Some(EntityRecord { swap_role: Some(s), ..rec }),
            Op::RemoveSwap => Some(EntityRecord { swap_role: None, ..rec }),
            Op::AddDelayedSwap(s) => Some(EntityRecord { delayed_swap: Some(s), ..rec }),
            Op::RemoveDelayedSwap => Some(EntityRecord { delayed_swap: None, ..rec }),
            Op::SetAutopilot(a) => Some(EntityRecord { autopilot: Some(a), ..rec }),
        },
    }
}

/// The operations applied one after the other.
pub open spec fn apply_ops(r: Option<EntityRecord>, ops: Seq<Op>) -> Option<EntityRecord>
    decreases ops.len(),
{
    if ops.len() == 0 {
        r
    } else {
        apply_op(apply_ops(r, ops.drop_last()), ops.last())
    }
}

/// A world after one command; a command on a slot that does not exist is a no-op.
pub open spec fn apply_command(w: Seq<Option<EntityRecord>>, c: Command) -> Seq<
    Option<EntityRecord>,
> {
    if c.entity.0 < w.len() {
        w.update(c.entity.0 as int, apply_op(w[c.entity.0 as int], c.op))
    } else {
        w
    }
}

/// A world after the commands, applied in order.
pub open spec fn apply_commands(w: Seq<Option<EntityRecord>>, cs: Seq<Command>) -> Seq<
    Option<EntityRecord>,
>
    decreases cs.len(),
{
    if cs.len() == 0 {
        w
    } else {
        apply_command(apply_commands(w, cs.drop_last()), cs.last())
    }
}

/// What the commands addressed to slot `i` make of the entity `r` there.
pub open spec fn slot_after(r: Option<EntityRecord>, cs: Seq<Command>, i: int) -> Option<
    EntityRecord,
>
    decreases cs.len(),
{
    if cs.len() == 0 {
        r
    } else if cs.last().entity.0 == i {
        apply_op(slot_after(r, cs.drop_last(), i), cs.last().op)
    } else {
        slot_after(r, cs.drop_last(), i)
    }
}

/// The operations addressed to one entity, as commands.
pub open spec fn commands_for(e: Entity, ops: Seq<Op>) -> Seq<Command> {
    ops.map_values(|op: Op| Command { entity: e, op })
}

/// Commands built slot by slot: for each slot `i < n`, in order, the
/// operations `f(i)` addressed to it.
pub open spec fn per_slot_commands(n: nat, f: spec_fn(int) -> Seq<Op>) -> Seq<Command>
    decreases n,
{
    if n == 0 {
        Seq::empty()
    } else {
        per_slot_commands((n - 1) as nat, f) + commands_for(Entity((n - 1) as usize), f(n - 1))
    }
}

/// Applying commands acts slot by slot: each slot sees the commands addressed
/// to it, and no other.
pub proof fn lemma_apply_commands_slots(w: Seq<Option<EntityRecord>>, cs: Seq<Command>)
    ensures
        apply_commands(w, cs).len() == w.len(),
        forall|i: int|
            0 <= i < w.len() ==> #[trigger] apply_commands(w, cs)[i] == slot_after(w[i], cs, i),
    decreases cs.len(),
{
    if cs.len() > 0 {
        lemma_apply_commands_slots(w, cs.drop_last());
    }
}

/// Commands for other slots leave a slot alone; commands for it act in order.
pub proof fn lemma_slot_after_concat(
    r: Option<EntityRecord>,
    a: Seq<Command>,
    b: Seq<Command>,
    i: int,
)
    ensures
        slot_after(r, a + b, i) == slot_after(slot_after(r, a, i), b, i),
    decreases b.len(),
{
    if b.len() == 0 {
        assert(a + b =~= a);
    } else {
        assert((a + b).drop_last() =~= a + b.drop_last());
        lemma_slot_after_concat(r, a, b.drop_last(), i);
    }
}

/// The commands of one entity apply its operations to it, and touch no other.
pub proof fn lemma_slot_after_commands_for(r: Option<EntityRecord>, e: Entity, ops: Seq<Op>, i: int)
    ensures
        slot_after(r, commands_for(e, ops), i) == (if e.0 == i {
            apply_ops(r, ops)
        } else {
            r
        }),
    decreases ops.len(),
{
    if ops.len() > 0 {
        assert(commands_for(e, ops).drop_last() =~= commands_for(e, ops.drop_last()));
        lemma_slot_after_commands_for(r, e, ops.drop_last(), i);
    }
}

/// Slot-by-slot commands give each slot below `n` its own operations.
pub proof fn lemma_per_slot(r: Option<EntityRecord>, n: nat, f: spec_fn(int) -> Seq<Op>, i: int)
    requires
        0 <= i,
        n <= usize::MAX,
    ensures
        slot_after(r, per_slot_commands(n, f), i) == (if i < n {
            apply_ops(r, f(i))
        } else {
            r
        }),
    decreases n,
{
    if n > 0 {
        let m = (n - 1) as nat;
        lemma_slot_after_concat(r, per_slot_commands(m, f), commands_for(Entity(m as usize), f(m as int)), i);
        lemma_per_slot(r, m, f, i);
        lemma_slot_after_commands_for(
            slot_after(r, per_slot_commands(m, f), i),
            Entity(m as usize),
            f(m as int),
            i,
        );
        if i >= n {
            assert(slot_after(r, per_slot_commands(m, f), i) == r);
        }
    }
}

/// Slot-by-slot commands applied to a world: slot `i` receives `f(i)`.
pub proof fn lemma_apply_per_slot(w: Seq<Option<EntityRecord>>, f: spec_fn(int) -> Seq<Op>)
    requires
        w.len() <= usize::MAX,
    ensures
        apply_commands(w, per_slot_commands(w.len(), f)).len() == w.len(),
        forall|i: int|
            0 <= i < w.len() ==> #[trigger] apply_commands(w, per_slot_commands(w.len(), f))[i]
                == apply_ops(w[i], f(i)),
{
    lemma_apply_commands_slots(w, per_slot_commands(w.len(), f));
    assert forall|i: int| 0 <= i < w.len() implies #[trigger] apply_commands(
        w,
        per_slot_commands(w.len(), f),
    )[i] == apply_ops(w[i], f(i)) by {
        lemma_per_slot(w[i], w.len(), f, i);
    }
}

/// The pending mutations of a stage.
pub struct CommandBuffer {
    pub commands: Vec<Command>,
}

impl CommandBuffer {
    /// An empty buffer.
    pub fn new() -> (b: CommandBuffer)
        ensures
            b.commands@ == Seq::<Command>::empty(),
    {
        CommandBuffer { commands: Vec::new() }
    }

    /// Records one mutation.
    pub fn push(&mut self, entity: Entity, op: Op)
        ensures
            final(self).commands@ == old(self).commands@.push(Command { entity, op }),
    {
        self.commands.push(Command { entity, op });
    }

    /// Records the operations of one entity, in order.
    pub fn push_all(&mut self, entity: Entity, ops: &Vec<Op>)
        ensures
            final(self).commands@ == old(self).commands@ + commands_for(entity, ops@),
    {
        let mut i: usize = 0;
        while i < ops.len()
            invariant
                i <= ops@.len(),
                self.commands@ == old(self).commands@ + commands_for(entity, ops@.take(i as int)),
            decreases ops@.len() - i,
        {
            self.commands.push(Command { entity, op: ops[i] });
            assert(commands_for(entity, ops@.take(i + 1)) =~= commands_for(entity, ops@.take(i as int)).push(
                Command { entity, op: ops@[i as int] },
            ));
            i = i + 1;
        }
        assert(ops@.take(ops@.len() as int) =~= ops@);
    }

    /// Applies every recorded mutation to the world, in order, and empties the buffer.
    pub fn flush(&mut self, world: &mut World)
        ensures
            final(world)@ == apply_commands(old(world)@, old(self).commands@),
            final(self).commands@ == Seq::<Command>::empty(),
    {
        let mut i: usize = 0;
        while i < self.commands.len()
            invariant
                i <= self.commands@.len(),
                self.commands@ == old(self).commands@,
                world@ == apply_commands(old(world)@, self.commands@.take(i as int)),
            decreases self.commands@.len() - i,
        {
            let c = self.commands[i];
            world.apply(c);
            assert(self.commands@.take(i + 1).drop_last() =~= self.commands@.take(i as int));
            i = i + 1;
        }
        assert(self.commands@.take(self.commands@.len() as int) =~= self.commands@);
        self.commands = Vec::new();
    }
}

impl World {
    /// Applies one command; a no-op on an entity that is already gone.
    pub fn apply(&mut self, c: Command)
        ensures
            final(self)@ == apply_command(old(self)@, c),
    {
        if c.entity.0 < self.slots.len() {
            match self.slots[c.entity.0] {
                None => {},
                Some(rec) => {
                    let mut r = rec;
                    match c.op {
                        Op::Destroy => {
                            self.slots.set(c.entity.0, None);
                            return ;
                        },
                        Op::SetPosition(p) => r.position = Some(p),
                        Op::SetDirection(d) => r.direction = Some(d),
                        Op::AddIntent(t) => r.intends = Some(t),
                        Op::RemoveIntent => r.intends = None,
                        Op::MarkDead => r.dead = true,
                        Op::MarkLeftGame => r.left_game = true,
                        Op::AddRole(role) => match role {
                            Role::Hunter => r.hunter = true,
                            Role::Victim => r.victim = true,
                        },
                        Op::RemoveRole(role) => match role {
                            Role::Hunter => r.hunter = false,
                            Role::Victim => r.victim = false,
                        },
                        Op::AddSwap(s) => r.swap_role = Some(s),
                        Op::RemoveSwap => r.swap_role = None,
                        Op::AddDelayedSwap(s) => r.delayed_swap = Some(s),
                        Op::RemoveDelayedSwap => r.delayed_swap = None,
                        Op::SetAutopilot(a) => r.autopilot = Some(a),
                    }
                    self.slots.set(c.entity.0, Some(r));
                },
            }
        }
    }
}

} // verus!
