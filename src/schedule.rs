//! The scheduler: an ordered list of stages, each a set of systems that
//! read the same world snapshot. The mutations that the systems of a stage
//! propose are applied at the barrier that ends it, before the next stage.
use vstd::prelude::*;
use crate::command::{
    apply_commands, apply_op, apply_ops, lemma_apply_commands_slots, lemma_per_slot, lemma_slot_after_concat, per_slot_commands,
    slot_after, Command, CommandBuffer, Op,
};
use crate::components::{DelayedSwapRole, IntendsToMove, Position, Role, SwapRole};
use crate::resources::GameMap;
use crate::systems::interaction::{
    hero_at, hunter_at_other, is_hunter, powerup_deadline, powerup_taken, to_hunter, to_victim, POWERUP_DURATION, delayed_ops, eat_ops, kill_ops, powerup_ops, remove_dead_ops, remove_gone_ops, slot_delayed_ops,
    slot_eat_ops, slot_kill_ops, slot_powerup_ops, slot_remove_dead_ops, slot_remove_gone_ops,
    slot_swap_ops, swap_ops, Snapshot,
};
use crate::systems::movement::{lemma_move_ops, move_ops, move_plan, move_to_next_place, moved};
use crate::systems::planner::{
    distance_field, field_at_depth, field_value, lemma_pursuit_holds, lemma_pursuit_step, next_step, plan_ops, slot_plan_ops,
    MAX_DEPTH,
};
use crate::world::{Entity, EntityRecord, World};

verus! {

/// The systems of the running game.
#[derive(Debug, Clone, Copy, PartialEq, Eq, Structural)]
pub enum System {
    /// autonomous actors plan their next move
    PlanMoves,
    /// pending movements are resolved
    MoveToNextPlace,
    /// heroes eat the food they stand on
    EatFood,
    /// hunters kill the victims they stand on
    HuntersKillVictims,
    /// a hero on a powerup swaps hunters and victims
    ConsumePowerup,
    /// pending role swaps are carried out
    SwapRoles,
    /// delayed role swaps whose instant has come are carried out
    FireDelayedSwaps,
    /// dead entities are destroyed
    RemoveDead,
    /// entities that left the game are destroyed
    RemoveGone,
}

/// The operations that a system proposes for slot `i` of the snapshot `w`.
pub open spec fn slot_ops(sys: System, w: Seq<Option<EntityRecord>>, map: GameMap, now: u64, i: int) -> Seq<Op> {
    match sys {
        System::PlanMoves => plan_ops(map, w, i, now),
        System::MoveToNextPlace => move_ops(w[i], map),
        System::EatFood => eat_ops(w, i),
        System::HuntersKillVictims => kill_ops(w, i),
        System::ConsumePowerup => powerup_ops(w, i, now),
        System::SwapRoles => swap_ops(w, i),
        System::FireDelayedSwaps => delayed_ops(w, i, now),
        System::RemoveDead => remove_dead_ops(w, i),
        System::RemoveGone => remove_gone_ops(w, i),
    }
}

/// The operations that a system proposes, slot by slot.
pub open spec fn system_plan(sys: System, w: Seq<Option<EntityRecord>>, map: GameMap, now: u64) -> spec_fn(int) -> Seq<Op> {
    |i: int| slot_ops(sys, w, map, now, i)
}

/// The commands that a system proposes on the snapshot `w`.
pub open spec fn system_commands(sys: System, w: Seq<Option<EntityRecord>>, map: GameMap, now: u64) -> Seq<Command> {
    per_slot_commands(w.len(), system_plan(sys, w, map, now))
}

/// The commands that the systems of a stage propose on the snapshot `w`, in
/// the order of the systems.
pub open spec fn stage_commands(stage: Seq<System>, w: Seq<Option<EntityRecord>>, map: GameMap, now: u64) -> Seq<Command>
    decreases stage.len(),
{
    if stage.len() == 0 {
        Seq::empty()
    } else {
        stage_commands(stage.drop_last(), w, map, now) + system_commands(stage.last(), w, map, now)
    }
}

/// The world after a stage and its barrier.
pub open spec fn run_stage(w: Seq<Option<EntityRecord>>, stage: Seq<System>, map: GameMap, now: u64) -> Seq<Option<EntityRecord>> {
    apply_commands(w, stage_commands(stage, w, map, now))
}

/// The world after the stages, one after the other.
pub open spec fn run_stages(w: Seq<Option<EntityRecord>>, stages: Seq<Seq<System>>, map: GameMap, now: u64) -> Seq<Option<EntityRecord>>
    decreases stages.len(),
{
    if stages.len() == 0 {
        w
    } else {
        run_stage(run_stages(w, stages.drop_last(), map, now), stages.last(), map, now)
    }
}

/// The stages of the running game.
pub open spec fn running_stages() -> Seq<Seq<System>> {
    seq![
        seq![System::PlanMoves],
        seq![System::MoveToNextPlace],
        seq![System::EatFood, System::HuntersKillVictims, System::ConsumePowerup],
        seq![System::SwapRoles, System::FireDelayedSwaps],
        seq![System::RemoveDead, System::RemoveGone],
    ]
}

/// An ordered list of stages.
pub struct Schedule {
    pub stages: Vec<Vec<System>>,
}

impl Schedule {
    /// The stages, as sequences of systems.
    pub open spec fn spec_stages(&self) -> Seq<Seq<System>> {
        self.stages@.map_values(|s: Vec<System>| s@)
    }

    /// Runs the stages in order on the world, applying the mutations of each
    /// stage at its end.
    pub fn execute(&self, world: &mut World, map: &GameMap, now: u64)
        requires
            map.wf(),
        ensures
            final(world)@ == run_stages(old(world)@, self.spec_stages(), *map, now),
    {
        let mut k: usize = 0;
        while k < self.stages.len()
            invariant
                map.wf(),
                k <= self.stages@.len(),
                world@ == run_stages(old(world)@, self.spec_stages().take(k as int), *map, now),
            decreases self.stages@.len() - k,
        {
            let stage = &self.stages[k];
            let mut cmd = CommandBuffer::new();
            let snap = Snapshot::of(world);
            let mut j: usize = 0;
            while j < stage.len()
                invariant
                    map.wf(),
                    snap.describes(world@),
                    j <= stage@.len(),
                    cmd.commands@ == stage_commands(stage@.take(j as int), world@, *map, now),
                decreases stage@.len() - j,
            {
                run_system(stage[j], world, map, now, &snap, &mut cmd);
                assert(stage@.take(j + 1).drop_last() =~= stage@.take(j as int));
                j = j + 1;
            }
            assert(stage@.take(stage@.len() as int) =~= stage@);
            cmd.flush(world);
            assert(self.spec_stages().take(k + 1).drop_last() =~= self.spec_stages().take(k as int));
            k = k + 1;
        }
        assert(self.spec_stages().take(self.stages@.len() as int) =~= self.spec_stages());
    }
}

/// The schedule of the running game: planning, movement, interactions, role
/// swaps, cleanup.
pub fn run_game_schedule() -> (s: Schedule)
    ensures
        s.spec_stages() == running_stages(),
{
    let s0 = vec![System::PlanMoves];
    let s1 = vec![System::MoveToNextPlace];
    let s2 = vec![System::EatFood, System::HuntersKillVictims, System::ConsumePowerup];
    let s3 = vec![System::SwapRoles, System::FireDelayedSwaps];
    let s4 = vec![System::RemoveDead, System::RemoveGone];
    assert(s0@ =~= running_stages()[0]);
    assert(s1@ =~= running_stages()[1]);
    assert(s2@ =~= running_stages()[2]);
    assert(s3@ =~= running_stages()[3]);
    assert(s4@ =~= running_stages()[4]);
    let stages = vec![s0, s1, s2, s3, s4];
    let s = Schedule { stages };
    assert(s.spec_stages() =~= running_stages());
    s
}

/// Runs one system on the snapshot `world`, recording what it proposes.
pub fn run_system(sys: System, world: &World, map: &GameMap, now: u64, snap: &Snapshot, cmd: &mut CommandBuffer)
    requires
        map.wf(),
        snap.describes(world@),
    ensures
        final(cmd).commands@ == old(cmd).commands@ + system_commands(sys, world@, *map, now),
{
    if let System::MoveToNextPlace = sys {
        move_to_next_place(world, map, cmd);
        assert(move_plan(world@, *map) =~= system_plan(sys, world@, *map, now));
        return ;
    }
    let (to_victims, to_hunters) = if let System::PlanMoves = sys {
        (distance_field(world, map, Role::Victim), distance_field(world, map, Role::Hunter))
    } else {
        (Vec::new(), Vec::new())
    };
    let n = world.slots.len();
    let mut i: usize = 0;
    while i < n
        invariant
            map.wf(),
            snap.describes(world@),
            n == world@.len(),
            i <= n,
            !(sys is MoveToNextPlace),
            sys is PlanMoves ==> field_at_depth(*map, world@, Role::Victim, to_victims@, MAX_DEPTH as nat)
                && field_at_depth(*map, world@, Role::Hunter, to_hunters@, MAX_DEPTH as nat),
            cmd.commands@ == old(cmd).commands@ + per_slot_commands(i as nat, system_plan(sys, world@, *map, now)),
        decreases n - i,
    {
        let ops = match sys {
            System::PlanMoves => slot_plan_ops(world, map, &to_victims, &to_hunters, i, now),
            System::MoveToNextPlace => Vec::new(),
            System::EatFood => slot_eat_ops(world, snap, i),
            System::HuntersKillVictims => slot_kill_ops(world, snap, i),
            System::ConsumePowerup => slot_powerup_ops(world, snap, i, now),
            System::SwapRoles => slot_swap_ops(world, i),
            System::FireDelayedSwaps => slot_delayed_ops(world, i, now),
            System::RemoveDead => slot_remove_dead_ops(world, i),
            System::RemoveGone => slot_remove_gone_ops(world, i),
        };
        cmd.push_all(Entity(i), &ops);
        proof {
            assert(system_plan(sys, world@, *map, now)(i as int) == ops@);
            assert(old(cmd).commands@ + per_slot_commands((i + 1) as nat, system_plan(sys, world@, *map, now))
                =~= old(cmd).commands@ + per_slot_commands(i as nat, system_plan(sys, world@, *map, now))
                + crate::command::commands_for(Entity(i), ops@));
        }
        i = i + 1;
    }
}

/// The operations that the systems of a stage propose for slot `i`, in the
/// order of the systems.
pub open spec fn stage_ops(stage: Seq<System>, w: Seq<Option<EntityRecord>>, map: GameMap, now: u64, i: int) -> Seq<Op>
    decreases stage.len(),
{
    if stage.len() == 0 {
        Seq::empty()
    } else {
        stage_ops(stage.drop_last(), w, map, now, i) + slot_ops(stage.last(), w, map, now, i)
    }
}

/// Operations applied in two runs act as the whole run.
pub proof fn lemma_apply_ops_concat(r: Option<EntityRecord>, a: Seq<Op>, b: Seq<Op>)
    ensures
        apply_ops(r, a + b) == apply_ops(apply_ops(r, a), b),
    decreases b.len(),
{
    if b.len() == 0 {
        assert(a + b =~= a);
    } else {
        assert((a + b).drop_last() =~= a + b.drop_last());
        lemma_apply_ops_concat(r, a, b.drop_last());
    }
}

/// A destroyed entity stays destroyed.
pub proof fn lemma_apply_ops_none(ops: Seq<Op>)
    ensures
        apply_ops(None, ops) is None,
    decreases ops.len(),
{
    if ops.len() > 0 {
        lemma_apply_ops_none(ops.drop_last());
    }
}

/// A dead entity stays dead until it is destroyed.
pub proof fn lemma_apply_ops_dead(rec: EntityRecord, ops: Seq<Op>)
    requires
        rec.dead,
    ensures
        apply_ops(Some(rec), ops) matches Some(r) ==> r.dead,
    decreases ops.len(),
{
    if ops.len() > 0 {
        lemma_apply_ops_dead(rec, ops.drop_last());
    }
}

proof fn lemma_stage_slot(stage: Seq<System>, w: Seq<Option<EntityRecord>>, map: GameMap, now: u64, r: Option<EntityRecord>, i: int)
    requires
        0 <= i < w.len(),
        w.len() <= usize::MAX,
    ensures
        slot_after(r, stage_commands(stage, w, map, now), i) == apply_ops(r, stage_ops(stage, w, map, now, i)),
    decreases stage.len(),
{
    if stage.len() > 0 {
        let first = stage_commands(stage.drop_last(), w, map, now);
        let last = system_commands(stage.last(), w, map, now);
        lemma_slot_after_concat(r, first, last, i);
        lemma_stage_slot(stage.drop_last(), w, map, now, r, i);
        lemma_per_slot(slot_after(r, first, i), w.len(), system_plan(stage.last(), w, map, now), i);
        lemma_apply_ops_concat(r, stage_ops(stage.drop_last(), w, map, now, i), slot_ops(stage.last(), w, map, now, i));
    }
}

/// After a stage and its barrier, each entity has undergone the operations
/// that the systems of the stage proposed for it, and nothing else.
pub proof fn lemma_run_stage(w: Seq<Option<EntityRecord>>, stage: Seq<System>, map: GameMap, now: u64)
    requires
        w.len() <= usize::MAX,
    ensures
        run_stage(w, stage, map, now).len() == w.len(),
        forall|i: int| 0 <= i < w.len() ==> #[trigger] run_stage(w, stage, map, now)[i] == apply_ops(w[i], stage_ops(stage, w, map, now, i)),
{
    lemma_apply_commands_slots(w, stage_commands(stage, w, map, now));
    assert forall|i: int| 0 <= i < w.len() implies #[trigger] run_stage(w, stage, map, now)[i] == apply_ops(w[i], stage_ops(stage, w, map, now, i)) by {
        lemma_stage_slot(stage, w, map, now, w[i], i);
    }
}

/// The operations of a stage of one, two or three systems.
proof fn lemma_stage_ops_unfold(stage: Seq<System>, w: Seq<Option<EntityRecord>>, map: GameMap, now: u64, i: int)
    requires
        1 <= stage.len() <= 3,
    ensures
        stage.len() == 1 ==> stage_ops(stage, w, map, now, i) == slot_ops(stage[0], w, map, now, i),
        stage.len() == 2 ==> stage_ops(stage, w, map, now, i) == slot_ops(stage[0], w, map, now, i) + slot_ops(stage[1], w, map, now, i),
        stage.len() == 3 ==> stage_ops(stage, w, map, now, i) == slot_ops(stage[0], w, map, now, i) + slot_ops(stage[1], w, map, now, i)
            + slot_ops(stage[2], w, map, now, i),
{
    reveal_with_fuel(stage_ops, 4);
    let e = Seq::<Op>::empty();
    assert(e + slot_ops(stage[0], w, map, now, i) =~= slot_ops(stage[0], w, map, now, i));
    if stage.len() >= 2 {
        assert(stage.drop_last()[0] == stage[0]);
    }
    if stage.len() == 3 {
        assert(stage.drop_last().drop_last()[0] == stage[0]);
        assert(stage.drop_last()[1] == stage[1]);
    }
}

/// The running schedule is its five stages, one after the other.
pub proof fn lemma_running_stages(w: Seq<Option<EntityRecord>>, map: GameMap, now: u64)
    ensures
        run_stages(w, running_stages(), map, now) == run_stage(
            run_stage(
                run_stage(
                    run_stage(run_stage(w, running_stages()[0], map, now), running_stages()[1], map, now),
                    running_stages()[2],
                    map,
                    now,
                ),
                running_stages()[3],
                map,
                now,
            ),
            running_stages()[4],
            map,
            now,
        ),
{
    let s = running_stages();
    reveal_with_fuel(run_stages, 6);
    assert(s.drop_last() =~= seq![s[0], s[1], s[2], s[3]]);
    assert(s.drop_last().drop_last() =~= seq![s[0], s[1], s[2]]);
    assert(s.drop_last().drop_last().drop_last() =~= seq![s[0], s[1]]);
    assert(s.drop_last().drop_last().drop_last().drop_last() =~= seq![s[0]]);
    assert(s.drop_last().drop_last().drop_last().drop_last().drop_last() =~= Seq::<Seq<System>>::empty());
}

/// The movement stage resolves the pending movement of every live entity.
pub proof fn lemma_movement_stage(w: Seq<Option<EntityRecord>>, map: GameMap, now: u64)
    requires
        w.len() <= usize::MAX,
    ensures
        run_stage(w, running_stages()[1], map, now).len() == w.len(),
        forall|i: int|
            0 <= i < w.len() ==> #[trigger] run_stage(w, running_stages()[1], map, now)[i] == match w[i] {
                Some(rec) => Some(moved(rec, map)),
                None => None,
            },
{
    let s = running_stages();
    lemma_run_stage(w, s[1], map, now);
    assert forall|i: int| 0 <= i < w.len() implies #[trigger] run_stage(w, s[1], map, now)[i] == match w[i] {
        Some(rec) => Some(moved(rec, map)),
        None => None,
    } by {
        lemma_stage_ops_unfold(s[1], w, map, now, i);
        match w[i] {
            Some(rec) => lemma_move_ops(rec, map),
            None => lemma_apply_ops_none(move_ops(w[i], map)),
        }
    }
}

/// The entity in slot `j` is alive and neither has a movement pending nor
/// moves on its own.
pub open spec fn still(w: Seq<Option<EntityRecord>>, j: int) -> bool {
    &&& 0 <= j < w.len()
    &&& w[j] is Some
    &&& w[j]->Some_0.intends is None
    &&& w[j]->Some_0.autopilot is None
}

/// Operations never make or unmake a hero, nor bring an entity back.
proof fn lemma_apply_ops_hero(r: Option<EntityRecord>, ops: Seq<Op>)
    ensures
        apply_ops(r, ops) matches Some(r2) ==> r matches Some(r0) && r2.hero == r0.hero,
    decreases ops.len(),
{
    if ops.len() > 0 {
        lemma_apply_ops_hero(r, ops.drop_last());
    }
}

/// The planning and movement stages leave a still entity as it is, and
/// make no hero out of anything.
proof fn lemma_still_slot(w: Seq<Option<EntityRecord>>, map: GameMap, now: u64, j: int)
    requires
        w.len() <= usize::MAX,
        0 <= j < w.len(),
    ensures
        ({
            let w2 = run_stage(run_stage(w, running_stages()[0], map, now), running_stages()[1], map, now);
            &&& w2.len() == w.len()
            &&& still(w, j) ==> w2[j] == w[j]
            &&& w2[j] matches Some(r2) ==> w[j] matches Some(r0) && r2.hero == r0.hero
        }),
{
    let s = running_stages();
    lemma_run_stage(w, s[0], map, now);
    lemma_stage_ops_unfold(s[0], w, map, now, j);
    let w1 = run_stage(w, s[0], map, now);
    lemma_run_stage(w1, s[1], map, now);
    lemma_stage_ops_unfold(s[1], w1, map, now, j);
    lemma_apply_ops_hero(w[j], stage_ops(s[0], w, map, now, j));
    lemma_apply_ops_hero(w1[j], stage_ops(s[1], w1, map, now, j));
}

/// An entity that the interaction stage marks dead, on the world `w` left by
/// the movement stage, is gone once the last stage of the tick is over.
proof fn lemma_marked_gone(w: Seq<Option<EntityRecord>>, map: GameMap, now: u64, i: int)
    requires
        w.len() <= usize::MAX,
        0 <= i < w.len(),
        w[i] is Some,
        eat_ops(w, i) == seq![Op::MarkDead] || kill_ops(w, i) == seq![Op::MarkDead],
    ensures
        run_stage(
            run_stage(run_stage(w, running_stages()[2], map, now), running_stages()[3], map, now),
            running_stages()[4],
            map,
            now,
        )[i] is None,
{
    let s = running_stages();
    let rec = w[i]->Some_0;
    lemma_run_stage(w, s[2], map, now);
    lemma_stage_ops_unfold(s[2], w, map, now, i);
    let e = slot_ops(s[2][0], w, map, now, i);
    let k = slot_ops(s[2][1], w, map, now, i);
    let pw = slot_ops(s[2][2], w, map, now, i);
    lemma_apply_ops_concat(Some(rec), e + k, pw);
    let dead = EntityRecord { dead: true, ..rec };
    reveal_with_fuel(apply_ops, 2);
    assert(apply_ops(Some(rec), e + k) matches Some(r) ==> r.dead) by {
        if e == seq![Op::MarkDead] {
            lemma_apply_ops_concat(Some(rec), e, k);
            assert(apply_ops(Some(rec), e) == Some(dead));
            lemma_apply_ops_dead(dead, k);
        } else {
            assert((e + k).drop_last() =~= e);
            assert((e + k).last() == Op::MarkDead);
        }
    }
    let x = apply_ops(Some(rec), e + k);
    if x is None {
        lemma_apply_ops_none(pw);
    } else {
        lemma_apply_ops_dead(x->Some_0, pw);
    }
    let w3 = run_stage(w, s[2], map, now);
    assert(w3[i] matches Some(r) ==> r.dead);
    lemma_run_stage(w3, s[3], map, now);
    let w4 = run_stage(w3, s[3], map, now);
    if w3[i] is None {
        lemma_apply_ops_none(stage_ops(s[3], w3, map, now, i));
    } else {
        lemma_apply_ops_dead(w3[i]->Some_0, stage_ops(s[3], w3, map, now, i));
    }
    lemma_run_stage(w4, s[4], map, now);
    lemma_stage_ops_unfold(s[4], w4, map, now, i);
    if w4[i] is None {
        lemma_apply_ops_none(stage_ops(s[4], w4, map, now, i));
    } else {
        let g = slot_ops(s[4][1], w4, map, now, i);
        assert(slot_ops(s[4][0], w4, map, now, i) == seq![Op::Destroy]);
        lemma_apply_ops_concat(w4[i], seq![Op::Destroy], g);
        lemma_apply_ops_none(g);
    }
}

/// Food on which a hero stands is gone after one tick of the running
/// schedule, unless the hero or the food moves during the tick.
pub proof fn lemma_food_eaten(w0: Seq<Option<EntityRecord>>, map: GameMap, now: u64, i: int, j: int, p: Position)
    requires
        w0.len() <= usize::MAX,
        still(w0, i),
        w0[i]->Some_0.food is Some,
        w0[i]->Some_0.position == Some(p),
        still(w0, j),
        w0[j]->Some_0.hero,
        w0[j]->Some_0.position == Some(p),
    ensures
        run_stages(w0, running_stages(), map, now)[i] is None,
{
    let s = running_stages();
    lemma_running_stages(w0, map, now);
    lemma_still_slot(w0, map, now, i);
    lemma_still_slot(w0, map, now, j);
    let w = run_stage(run_stage(w0, s[0], map, now), s[1], map, now);
    assert(w[j] == w0[j]);
    assert(hero_at(w, p));
    assert(eat_ops(w, i) == seq![Op::MarkDead]);
    lemma_marked_gone(w, map, now, i);
}

/// A victim on which another entity, a hunter, stands is gone after one
/// tick of the running schedule, unless one of the two moves during the
/// tick: a hero killed this way leaves the game.
pub proof fn lemma_victim_killed(w0: Seq<Option<EntityRecord>>, map: GameMap, now: u64, i: int, j: int, p: Position)
    requires
        w0.len() <= usize::MAX,
        i != j,
        still(w0, i),
        w0[i]->Some_0.victim,
        w0[i]->Some_0.position == Some(p),
        still(w0, j),
        w0[j]->Some_0.hunter,
        w0[j]->Some_0.position == Some(p),
    ensures
        run_stages(w0, running_stages(), map, now)[i] is None,
{
    let s = running_stages();
    lemma_running_stages(w0, map, now);
    lemma_still_slot(w0, map, now, i);
    lemma_still_slot(w0, map, now, j);
    let w = run_stage(run_stage(w0, s[0], map, now), s[1], map, now);
    assert(w[j] == w0[j]);
    assert(is_hunter(w, j) && w[j]->Some_0.position == Some(p));
    assert(hunter_at_other(w, p, i));
    assert(kill_ops(w, i) == seq![Op::MarkDead]);
    lemma_marked_gone(w, map, now, i);
}

/// In the planning stage, a hunter whose cooldown has run out and whose
/// nearest victim lies `d > 0` steps away, within the maximum depth, asks to
/// step onto a floor neighbour `d - 1` steps from the victims.
pub proof fn lemma_planning_pursuit(w: Seq<Option<EntityRecord>>, map: GameMap, now: u64, i: int, p: Position, d: nat)
    requires
        w.len() <= usize::MAX,
        0 <= i < w.len(),
        w[i] is Some,
        w[i]->Some_0.hunter,
        w[i]->Some_0.position == Some(p),
        w[i]->Some_0.autopilot matches Some(a) && a.next_move_at <= now && !a.wander,
        map.spec_in_bounds(p.x as int, p.y as int),
        field_value(map, w, Role::Victim, p.x as int, p.y as int) == Some(d),
        d > 0,
    ensures
        run_stage(w, running_stages()[0], map, now)[i] matches Some(r) && r.intends matches Some(IntendsToMove(q))
            && map.enterable(q.x as int, q.y as int) && field_value(map, w, Role::Victim, q.x as int, q.y as int) == Some(
            (d - 1) as nat,
        ) && ((q.x == p.x && (q.y == p.y - 1 || q.y == p.y + 1)) || (q.y == p.y && (q.x == p.x - 1 || q.x == p.x + 1))),
{
    let s = running_stages();
    lemma_run_stage(w, s[0], map, now);
    lemma_stage_ops_unfold(s[0], w, map, now, i);
    lemma_pursuit_step(map, w, Role::Victim, p, d);
    let ops = plan_ops(map, w, i, now);
    assert(ops.len() == 2);
    assert(ops.drop_last().drop_last() =~= Seq::<Op>::empty());
    reveal_with_fuel(apply_ops, 3);
}

/// A hunter with no movement pending whose victims all lie beyond the
/// maximum depth, or out of reach, stays where it is through the planning
/// and movement stages.
pub proof fn lemma_planning_out_of_reach(w: Seq<Option<EntityRecord>>, map: GameMap, now: u64, i: int, p: Position)
    requires
        w.len() <= usize::MAX,
        0 <= i < w.len(),
        w[i] is Some,
        w[i]->Some_0.hunter,
        w[i]->Some_0.position == Some(p),
        w[i]->Some_0.intends is None,
        w[i]->Some_0.autopilot matches Some(a) && !a.wander,
        field_value(map, w, Role::Victim, p.x as int, p.y as int) is None,
    ensures
        ({
            let w1 = run_stage(w, running_stages()[0], map, now);
            let w2 = run_stage(w1, running_stages()[1], map, now);
            &&& w1[i] matches Some(r) && r.intends is None
            &&& w2[i] matches Some(r) && r.position == Some(p)
        }),
{
    let s = running_stages();
    lemma_run_stage(w, s[0], map, now);
    lemma_stage_ops_unfold(s[0], w, map, now, i);
    lemma_pursuit_holds(map, w, Role::Victim, p);
    assert(next_step(map, w, Role::Victim, true, p) is None);
    let ops = plan_ops(map, w, i, now);
    assert(ops.len() <= 1);
    if ops.len() == 1 {
        assert(ops.drop_last() =~= Seq::<Op>::empty());
    }
    reveal_with_fuel(apply_ops, 2);
    let w1 = run_stage(w, s[0], map, now);
    lemma_movement_stage(w1, map, now);
}

/// Plain food: no role, no pending mutation, alive.
pub open spec fn plain_food(rec: EntityRecord) -> bool {
    &&& rec.food is Some
    &&& !rec.hunter
    &&& !rec.victim
    &&& !rec.dead
    &&& !rec.left_game
    &&& rec.swap_role is None
    &&& rec.delayed_swap is None
}

/// Plain food on which no hero stands is untouched by one tick of the
/// running schedule, unless the food or some hero moves during the tick.
pub proof fn lemma_food_elsewhere_untouched(w0: Seq<Option<EntityRecord>>, map: GameMap, now: u64, i: int, p: Position)
    requires
        w0.len() <= usize::MAX,
        still(w0, i),
        plain_food(w0[i]->Some_0),
        w0[i]->Some_0.position == Some(p),
        forall|k: int| 0 <= k < w0.len() && (#[trigger] w0[k]) is Some && w0[k]->Some_0.hero ==> still(w0, k),
        !hero_at(w0, p),
    ensures
        run_stages(w0, running_stages(), map, now)[i] == w0[i],
{
    let s = running_stages();
    lemma_running_stages(w0, map, now);
    lemma_still_slot(w0, map, now, i);
    let w = run_stage(run_stage(w0, s[0], map, now), s[1], map, now);
    assert(!hero_at(w, p)) by {
        if hero_at(w, p) {
            let k = choose|k: int| crate::systems::interaction::is_hero(w, k) && (#[trigger] w[k])->Some_0.position == Some(p);
            lemma_still_slot(w0, map, now, k);
            assert(w0[k] is Some && w0[k]->Some_0.hero);
            assert(w[k] == w0[k]);
        }
    }
    lemma_run_stage(w, s[2], map, now);
    lemma_stage_ops_unfold(s[2], w, map, now, i);
    assert(stage_ops(s[2], w, map, now, i) =~= Seq::<Op>::empty());
    let w3 = run_stage(w, s[2], map, now);
    lemma_run_stage(w3, s[3], map, now);
    lemma_stage_ops_unfold(s[3], w3, map, now, i);
    assert(stage_ops(s[3], w3, map, now, i) =~= Seq::<Op>::empty());
    let w4 = run_stage(w3, s[3], map, now);
    lemma_run_stage(w4, s[4], map, now);
    lemma_stage_ops_unfold(s[4], w4, map, now, i);
    assert(stage_ops(s[4], w4, map, now, i) =~= Seq::<Op>::empty());
}

/// The swap that undoes the powerup for an entity of the given roles.
pub open spec fn swap_back(rec: EntityRecord) -> SwapRole {
    if rec.hunter {
        to_hunter()
    } else {
        to_victim()
    }
}

/// Three operations applied one after the other.
proof fn lemma_apply_three(r: Option<EntityRecord>, a: Op, b: Op, c: Op)
    ensures
        apply_ops(r, seq![a, b, c]) == apply_op(apply_op(apply_op(r, a), b), c),
{
    let ops = seq![a, b, c];
    assert(ops.drop_last() =~= seq![a, b]);
    assert(ops.drop_last().drop_last() =~= seq![a]);
    assert(ops.drop_last().drop_last().drop_last() =~= Seq::<Op>::empty());
    reveal_with_fuel(apply_ops, 4);
}

/// Up to two deaths leave the roles and the pending swaps of an entity alone.
proof fn lemma_deaths_keep_roles(rec: EntityRecord, e: Seq<Op>, k: Seq<Op>)
    requires
        e.len() == 0 || e == seq![Op::MarkDead],
        k.len() == 0 || k == seq![Op::MarkDead],
    ensures
        apply_ops(Some(rec), e + k) matches Some(r) && r.hunter == rec.hunter && r.victim == rec.victim
            && r.swap_role == rec.swap_role && r.delayed_swap == rec.delayed_swap,
{
    reveal_with_fuel(apply_ops, 3);
    if e.len() == 0 {
        assert(e + k =~= k);
    } else if k.len() == 0 {
        assert(e + k =~= e);
    } else {
        let two = seq![Op::MarkDead, Op::MarkDead];
        assert(e + k =~= two);
        assert(two.drop_last() =~= seq![Op::MarkDead]);
    }
}

/// The interaction stage at `t0`, with a hero on a powerup, schedules the
/// exchange of the roles of an entity that is a hunter or a victim.
proof fn lemma_powerup_interactions(w: Seq<Option<EntityRecord>>, map: GameMap, t0: u64, i: int)
    requires
        w.len() <= usize::MAX,
        powerup_taken(w),
        0 <= i < w.len(),
        w[i] is Some,
        w[i]->Some_0.hunter != w[i]->Some_0.victim,
        w[i]->Some_0.swap_role is None,
        w[i]->Some_0.delayed_swap is None,
    ensures
        ({
            let rec = w[i]->Some_0;
            let w3 = run_stage(w, running_stages()[2], map, t0);
            &&& w3.len() == w.len()
            &&& w3[i] is Some
            &&& w3[i]->Some_0.hunter == rec.hunter
            &&& w3[i]->Some_0.victim == rec.victim
            &&& w3[i]->Some_0.swap_role == Some(if rec.hunter { to_victim() } else { to_hunter() })
            &&& w3[i]->Some_0.delayed_swap == Some(DelayedSwapRole { fire_at: powerup_deadline(t0), swap: swap_back(rec) })
        }),
{
    let rec = w[i]->Some_0;
    let s = running_stages();
    let d = DelayedSwapRole { fire_at: powerup_deadline(t0), swap: swap_back(rec) };
    let there = if rec.hunter { to_victim() } else { to_hunter() };
    lemma_run_stage(w, s[2], map, t0);
    lemma_stage_ops_unfold(s[2], w, map, t0, i);
    let e = slot_ops(s[2][0], w, map, t0, i);
    let k = slot_ops(s[2][1], w, map, t0, i);
    let pw = slot_ops(s[2][2], w, map, t0, i);
    assert(pw == seq![Op::AddSwap(there), Op::AddDelayedSwap(d)]);
    lemma_apply_ops_concat(Some(rec), e + k, pw);
    lemma_deaths_keep_roles(rec, e, k);
    assert(pw.drop_last() =~= seq![Op::AddSwap(there)]);
    assert(pw.drop_last().drop_last() =~= Seq::<Op>::empty());
    reveal_with_fuel(apply_ops, 3);
}

/// A pending swap and a delayed one not yet due: the role-swap stage
/// exchanges the roles and keeps the delayed swap.
proof fn lemma_swap_now(w3: Seq<Option<EntityRecord>>, map: GameMap, t0: u64, i: int, there: SwapRole)
    requires
        w3.len() <= usize::MAX,
        0 <= i < w3.len(),
        w3[i] is Some,
        w3[i]->Some_0.swap_role == Some(there),
        w3[i]->Some_0.delayed_swap matches Some(d) && t0 < d.fire_at,
    ensures
        ({
            let r = w3[i]->Some_0;
            let w4 = run_stage(w3, running_stages()[3], map, t0);
            &&& w4.len() == w3.len()
            &&& w4[i] == Some(EntityRecord { swap_role: None, ..r.with_role(there.remove, false).with_role(there.add, true) })
        }),
{
    let s = running_stages();
    lemma_run_stage(w3, s[3], map, t0);
    lemma_stage_ops_unfold(s[3], w3, map, t0, i);
    let sw = slot_ops(s[3][0], w3, map, t0, i);
    assert(slot_ops(s[3][1], w3, map, t0, i).len() == 0);
    assert(stage_ops(s[3], w3, map, t0, i) =~= sw);
    lemma_apply_three(w3[i], Op::RemoveRole(there.remove), Op::AddRole(there.add), Op::RemoveSwap);
}

/// A delayed swap fires at the role-swap stage of an instant at or after
/// its own, and not before.
pub proof fn lemma_delayed_swap_fires(v: Seq<Option<EntityRecord>>, map: GameMap, t: u64, i: int, d: DelayedSwapRole)
    requires
        v.len() <= usize::MAX,
        0 <= i < v.len(),
        v[i] is Some,
        v[i]->Some_0.swap_role is None,
        v[i]->Some_0.delayed_swap == Some(d),
    ensures
        ({
            let r = v[i]->Some_0;
            let later = run_stage(v, running_stages()[3], map, t);
            &&& later.len() == v.len()
            &&& t < d.fire_at ==> later[i] == v[i]
            &&& t >= d.fire_at ==> later[i] == Some(
                EntityRecord { delayed_swap: None, ..r.with_role(d.swap.remove, false).with_role(d.swap.add, true) },
            )
        }),
{
    let s = running_stages();
    lemma_run_stage(v, s[3], map, t);
    lemma_stage_ops_unfold(s[3], v, map, t, i);
    assert(slot_ops(s[3][0], v, map, t, i).len() == 0);
    let fire = slot_ops(s[3][1], v, map, t, i);
    assert(stage_ops(s[3], v, map, t, i) =~= fire);
    if t >= d.fire_at {
        lemma_apply_three(v[i], Op::RemoveRole(d.swap.remove), Op::AddRole(d.swap.add), Op::RemoveDelayedSwap);
    }
}

/// When a hero stands on a powerup at instant `t0`, an entity that is a
/// hunter or a victim (not both) comes out of the interaction and role-swap
/// stages with its roles exchanged, and holds the swap back for `t0` plus
/// the powerup duration. At a later role-swap stage at instant `t`, the
/// roles stay exchanged while `t` is before that instant, and are restored,
/// with no swap left pending, from that instant on.
pub proof fn lemma_powerup_window(w: Seq<Option<EntityRecord>>, map: GameMap, t0: u64, t: u64, i: int)
    requires
        w.len() <= usize::MAX,
        powerup_taken(w),
        t0 <= u64::MAX - POWERUP_DURATION,
        0 <= i < w.len(),
        w[i] is Some,
        w[i]->Some_0.hunter != w[i]->Some_0.victim,
        w[i]->Some_0.swap_role is None,
        w[i]->Some_0.delayed_swap is None,
    ensures
        ({
            let rec = w[i]->Some_0;
            let s = running_stages();
            let swapped = run_stage(run_stage(w, s[2], map, t0), s[3], map, t0);
            let later = run_stage(swapped, s[3], map, t);
            &&& swapped[i] is Some
            &&& swapped[i]->Some_0.hunter == rec.victim
            &&& swapped[i]->Some_0.victim == rec.hunter
            &&& swapped[i]->Some_0.swap_role is None
            &&& swapped[i]->Some_0.delayed_swap == Some(DelayedSwapRole { fire_at: (t0 + POWERUP_DURATION) as u64, swap: swap_back(rec) })
            &&& t < t0 + POWERUP_DURATION ==> later[i] == swapped[i]
            &&& t >= t0 + POWERUP_DURATION ==> later[i] is Some && later[i]->Some_0.hunter == rec.hunter
                && later[i]->Some_0.victim == rec.victim && later[i]->Some_0.delayed_swap is None
        }),
{
    let rec = w[i]->Some_0;
    let s = running_stages();
    let there = if rec.hunter { to_victim() } else { to_hunter() };
    let d = DelayedSwapRole { fire_at: powerup_deadline(t0), swap: swap_back(rec) };
    lemma_powerup_interactions(w, map, t0, i);
    let w3 = run_stage(w, s[2], map, t0);
    lemma_swap_now(w3, map, t0, i, there);
    let swapped = run_stage(w3, s[3], map, t0);
    lemma_delayed_swap_fires(swapped, map, t, i, d);
}

} // verus!
