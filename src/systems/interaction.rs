//! Interactions between co-located entities, role swaps, timers and cleanup.
//! Every rule reads one snapshot of the world: the facts that several rules
//! share are gathered once, before the rules run.
use vstd::prelude::*;
use crate::command::Op;
use crate::components::{DelayedSwapRole, Position, Role, SwapRole};
use crate::world::{EntityRecord, World};

verus! {

/// How long, in milliseconds, a powerup swaps hunters and victims.
pub const POWERUP_DURATION: u64 = 5000;

/// True iff slot `j` holds a live hero.
pub open spec fn is_hero(w: Seq<Option<EntityRecord>>, j: int) -> bool {
    0 <= j < w.len() && w[j] is Some && w[j]->Some_0.hero
}

/// True iff slot `j` holds a live hunter.
pub open spec fn is_hunter(w: Seq<Option<EntityRecord>>, j: int) -> bool {
    0 <= j < w.len() && w[j] is Some && w[j]->Some_0.hunter
}

/// True iff a live hero stands on `p`.
pub open spec fn hero_at(w: Seq<Option<EntityRecord>>, p: Position) -> bool {
    exists|j: int| is_hero(w, j) && (#[trigger] w[j])->Some_0.position == Some(p)
}

/// True iff a live hunter other than slot `i` stands on `p`.
pub open spec fn hunter_at_other(w: Seq<Option<EntityRecord>>, p: Position, i: int) -> bool {
    exists|j: int| j != i && is_hunter(w, j) && (#[trigger] w[j])->Some_0.position == Some(p)
}

/// True iff slot `i` holds a powerup on which a hero stands.
pub open spec fn powerup_taken_at(w: Seq<Option<EntityRecord>>, i: int) -> bool {
    0 <= i < w.len() && w[i] is Some && w[i]->Some_0.superfood && match w[i]->Some_0.position {
        Some(p) => hero_at(w, p),
        None => false,
    }
}

/// True iff a hero stands on some powerup.
pub open spec fn powerup_taken(w: Seq<Option<EntityRecord>>) -> bool {
    exists|i: int| #[trigger] powerup_taken_at(w, i)
}

/// The instant at which a powerup eaten at `now` wears off.
pub open spec fn powerup_deadline(now: u64) -> u64 {
    if now <= u64::MAX - POWERUP_DURATION {
        (now + POWERUP_DURATION) as u64
    } else {
        u64::MAX
    }
}

/// Food on which a hero stands is eaten.
pub open spec fn eat_ops(w: Seq<Option<EntityRecord>>, i: int) -> Seq<Op> {
    match w[i] {
        Some(rec) => if rec.food is Some && (match rec.position {
            Some(p) => hero_at(w, p),
            None => false,
        }) {
            seq![Op::MarkDead]
        } else {
            Seq::empty()
        },
        None => Seq::empty(),
    }
}

/// A victim on which another entity, a hunter, stands is killed.
pub open spec fn kill_ops(w: Seq<Option<EntityRecord>>, i: int) -> Seq<Op> {
    match w[i] {
        Some(rec) => if rec.victim && (match rec.position {
            Some(p) => hunter_at_other(w, p, i),
            None => false,
        }) {
            seq![Op::MarkDead]
        } else {
            Seq::empty()
        },
        None => Seq::empty(),
    }
}

/// The swap that turns a hunter into a victim.
pub open spec fn to_victim() -> SwapRole {
    SwapRole { add: Role::Victim, remove: Role::Hunter }
}

/// The swap that turns a victim into a hunter.
pub open spec fn to_hunter() -> SwapRole {
    SwapRole { add: Role::Hunter, remove: Role::Victim }
}

/// When a hero eats a powerup, every hunter becomes a victim and every
/// victim a hunter, until the powerup wears off; entities whose roles are
/// already swapped for a while keep them.
pub open spec fn powerup_ops(w: Seq<Option<EntityRecord>>, i: int, now: u64) -> Seq<Op> {
    match w[i] {
        Some(rec) => if powerup_taken(w) && rec.delayed_swap is None {
            if rec.hunter && !rec.victim {
                seq![
                    Op::AddSwap(to_victim()),
                    Op::AddDelayedSwap(DelayedSwapRole { fire_at: powerup_deadline(now), swap: to_hunter() }),
                ]
            } else if rec.victim && !rec.hunter {
                seq![
                    Op::AddSwap(to_hunter()),
                    Op::AddDelayedSwap(DelayedSwapRole { fire_at: powerup_deadline(now), swap: to_victim() }),
                ]
            } else {
                Seq::empty()
            }
        } else {
            Seq::empty()
        },
        None => Seq::empty(),
    }
}

/// A pending role swap is carried out and consumed.
pub open spec fn swap_ops(w: Seq<Option<EntityRecord>>, i: int) -> Seq<Op> {
    match w[i] {
        Some(rec) => match rec.swap_role {
            Some(s) => seq![Op::RemoveRole(s.remove), Op::AddRole(s.add), Op::RemoveSwap],
            None => Seq::empty(),
        },
        None => Seq::empty(),
    }
}

/// A delayed role swap whose instant has come is carried out and consumed.
pub open spec fn delayed_ops(w: Seq<Option<EntityRecord>>, i: int, now: u64) -> Seq<Op> {
    match w[i] {
        Some(rec) => match rec.delayed_swap {
            Some(d) => if now >= d.fire_at {
                seq![Op::RemoveRole(d.swap.remove), Op::AddRole(d.swap.add), Op::RemoveDelayedSwap]
            } else {
                Seq::empty()
            },
            None => Seq::empty(),
        },
        None => Seq::empty(),
    }
}

/// A dead entity is destroyed.
pub open spec fn remove_dead_ops(w: Seq<Option<EntityRecord>>, i: int) -> Seq<Op> {
    match w[i] {
        Some(rec) => if rec.dead {
            seq![Op::Destroy]
        } else {
            Seq::empty()
        },
        None => Seq::empty(),
    }
}

/// An entity that left the game is destroyed.
pub open spec fn remove_gone_ops(w: Seq<Option<EntityRecord>>, i: int) -> Seq<Op> {
    match w[i] {
        Some(rec) => if rec.left_game {
            seq![Op::Destroy]
        } else {
            Seq::empty()
        },
        None => Seq::empty(),
    }
}

/// The facts about a world snapshot that several rules share.
pub struct Snapshot {
    /// the positions of the live heroes
    pub heroes: Vec<Position>,
    /// the slots of the live hunters
    pub hunters: Vec<usize>,
    /// whether a hero stands on a powerup
    pub powerup: bool,
}

impl Snapshot {
    /// The snapshot describes the world `w`.
    pub open spec fn describes(&self, w: Seq<Option<EntityRecord>>) -> bool {
        &&& forall|p: Position| #[trigger] self.heroes@.contains(p) <==> hero_at(w, p)
        &&& forall|k: int| 0 <= k < self.hunters@.len() ==> is_hunter(w, #[trigger] self.hunters@[k] as int)
        &&& forall|j: int| #[trigger] is_hunter(w, j) ==> self.hunters@.contains(j as usize)
        &&& self.powerup == powerup_taken(w)
    }

    /// Gathers the shared facts of a world.
    pub fn of(world: &World) -> (s: Snapshot)
        ensures
            s.describes(world@),
    {
        let w = &world.slots;
        let n = w.len();
        let mut heroes: Vec<Position> = Vec::new();
        let mut hunters: Vec<usize> = Vec::new();
        let mut i: usize = 0;
        while i < n
            invariant
                n == world@.len(),
                i <= n,
                w@ == world@,
                forall|p: Position| #[trigger] heroes@.contains(p) <==> exists|j: int|
                    0 <= j < i && is_hero(world@, j) && (#[trigger] world@[j])->Some_0.position == Some(p),
                forall|k: int| 0 <= k < hunters@.len() ==> is_hunter(world@, #[trigger] hunters@[k] as int),
                forall|j: int| 0 <= j < i && #[trigger] is_hunter(world@, j) ==> hunters@.contains(j as usize),
            decreases n - i,
        {
            if let Some(rec) = w[i] {
                if rec.hero {
                    if let Some(p) = rec.position {
                        let ghost prev = heroes@;
                        heroes.push(p);
                        proof {
                            assert forall|q: Position| #[trigger] heroes@.contains(q) <==> exists|j: int|
                                0 <= j < i + 1 && is_hero(world@, j) && (#[trigger] world@[j])->Some_0.position
                                    == Some(q) by {
                                if heroes@.contains(q) {
                                    let k = choose|k: int| 0 <= k < heroes@.len() && heroes@[k] == q;
                                    if k < prev.len() {
                                        assert(prev[k] == q);
                                        assert(prev.contains(q));
                                    } else {
                                        assert(world@[i as int]->Some_0.position == Some(q));
                                    }
                                }
                                if exists|j: int|
                                    0 <= j < i + 1 && is_hero(world@, j) && (#[trigger] world@[j])->Some_0.position
                                        == Some(q) {
                                    let j = choose|j: int|
                                        0 <= j < i + 1 && is_hero(world@, j) && (#[trigger] world@[j])->Some_0.position
                                            == Some(q);
                                    if j < i {
                                        assert(prev.contains(q));
                                        let k = choose|k: int| 0 <= k < prev.len() && prev[k] == q;
                                        assert(heroes@[k] == q);
                                    } else {
                                        assert(heroes@[prev.len() as int] == q);
                                    }
                                }
                            }
                        }
                    }
                }
                if rec.hunter {
                    let ghost prev = hunters@;
                    hunters.push(i);
                    proof {
                        assert(hunters@[prev.len() as int] == i);
                        assert forall|j: int| 0 <= j < i + 1 && #[trigger] is_hunter(world@, j) implies hunters@.contains(
                            j as usize,
                        ) by {
                            if j < i {
                                assert(prev.contains(j as usize));
                                let k = choose|k: int| 0 <= k < prev.len() && prev[k] == j as usize;
                                assert(hunters@[k] == j as usize);
                            }
                        }
                    }
                }
            }
            i = i + 1;
        }
        let mut powerup = false;
        let mut k: usize = 0;
        while k < n
            invariant
                n == world@.len(),
                k <= n,
                w@ == world@,
                forall|p: Position| #[trigger] heroes@.contains(p) <==> hero_at(world@, p),
                powerup <==> exists|j: int| 0 <= j < k && #[trigger] powerup_taken_at(world@, j),
            decreases n - k,
        {
            let ghost before = powerup;
            if let Some(rec) = w[k] {
                if rec.superfood {
                    if let Some(p) = rec.position {
                        if contains_position(&heroes, p) {
                            powerup = true;
                        }
                    }
                }
            }
            proof {
                assert(powerup <==> (before || powerup_taken_at(world@, k as int)));
                assert(forall|j: int| 0 <= j < k + 1 && #[trigger] powerup_taken_at(world@, j) ==> (0 <= j < k || j == k));
            }
            k = k + 1;
        }
        Snapshot { heroes, hunters, powerup }
    }
}

/// True iff the position is in the list.
pub fn contains_position(v: &Vec<Position>, p: Position) -> (r: bool)
    ensures
        r == v@.contains(p),
{
    let mut i: usize = 0;
    while i < v.len()
        invariant
            i <= v@.len(),
            forall|k: int| 0 <= k < i ==> v@[k] != p,
        decreases v@.len() - i,
    {
        if v[i] == p {
            return true;
        }
        i = i + 1;
    }
    false
}

/// True iff a live hunter other than slot `i` stands on `p`.
pub fn hunter_elsewhere(world: &World, snap: &Snapshot, p: Position, i: usize) -> (r: bool)
    requires
        snap.describes(world@),
    ensures
        r == hunter_at_other(world@, p, i as int),
{
    let n = world.slots.len();
    let mut k: usize = 0;
    while k < snap.hunters.len()
        invariant
            snap.describes(world@),
            n == world@.len(),
            k <= snap.hunters@.len(),
            forall|m: int|
                0 <= m < k ==> !(snap.hunters@[m] != i && (#[trigger] world@[snap.hunters@[m] as int])->Some_0.position
                    == Some(p)),
        decreases snap.hunters@.len() - k,
    {
        let j = snap.hunters[k];
        assert(is_hunter(world@, j as int));
        if j != i {
            if let Some(rec) = world.slots[j] {
                if rec.position == Some(p) {
                    return true;
                }
            }
        }
        k = k + 1;
    }
    proof {
        if hunter_at_other(world@, p, i as int) {
            let j = choose|j: int| j != i && is_hunter(world@, j) && (#[trigger] world@[j])->Some_0.position == Some(p);
            assert(snap.hunters@.contains(j as usize));
            let m = choose|m: int| 0 <= m < snap.hunters@.len() && snap.hunters@[m] == j as usize;
            assert(world@[snap.hunters@[m] as int] == world@[j]);
        }
    }
    false
}

/// The eating operations of slot `i`.
pub fn slot_eat_ops(world: &World, snap: &Snapshot, i: usize) -> (ops: Vec<Op>)
    requires
        snap.describes(world@),
        i < world@.len(),
    ensures
        ops@ == eat_ops(world@, i as int),
{
    let mut ops: Vec<Op> = Vec::new();
    if let Some(rec) = world.slots[i] {
        if rec.food.is_some() {
            if let Some(p) = rec.position {
                if contains_position(&snap.heroes, p) {
                    ops.push(Op::MarkDead);
                    assert(ops@ =~= seq![Op::MarkDead]);
                }
            }
        }
    }
    ops
}

/// The killing operations of slot `i`.
pub fn slot_kill_ops(world: &World, snap: &Snapshot, i: usize) -> (ops: Vec<Op>)
    requires
        snap.describes(world@),
        i < world@.len(),
    ensures
        ops@ == kill_ops(world@, i as int),
{
    let mut ops: Vec<Op> = Vec::new();
    if let Some(rec) = world.slots[i] {
        if rec.victim {
            if let Some(p) = rec.position {
                if hunter_elsewhere(world, snap, p, i) {
                    ops.push(Op::MarkDead);
                    assert(ops@ =~= seq![Op::MarkDead]);
                }
            }
        }
    }
    ops
}

/// The instant at which a powerup eaten at `now` wears off.
pub fn deadline_after(now: u64) -> (r: u64)
    ensures
        r == powerup_deadline(now),
{
    if now <= u64::MAX - POWERUP_DURATION {
        now + POWERUP_DURATION
    } else {
        u64::MAX
    }
}

/// The powerup operations of slot `i`.
pub fn slot_powerup_ops(world: &World, snap: &Snapshot, i: usize, now: u64) -> (ops: Vec<Op>)
    requires
        snap.describes(world@),
        i < world@.len(),
    ensures
        ops@ == powerup_ops(world@, i as int, now),
{
    let mut ops: Vec<Op> = Vec::new();
    if let Some(rec) = world.slots[i] {
        if snap.powerup && rec.delayed_swap.is_none() {
            let fire_at = deadline_after(now);
            if rec.hunter && !rec.victim {
                ops.push(Op::AddSwap(SwapRole { add: Role::Victim, remove: Role::Hunter }));
                ops.push(Op::AddDelayedSwap(DelayedSwapRole { fire_at, swap: SwapRole { add: Role::Hunter, remove: Role::Victim } }));
            } else if rec.victim && !rec.hunter {
                ops.push(Op::AddSwap(SwapRole { add: Role::Hunter, remove: Role::Victim }));
                ops.push(Op::AddDelayedSwap(DelayedSwapRole { fire_at, swap: SwapRole { add: Role::Victim, remove: Role::Hunter } }));
            }
            assert(ops@ =~= powerup_ops(world@, i as int, now));
        }
    }
    ops
}

/// The role-swap operations of slot `i`.
pub fn slot_swap_ops(world: &World, i: usize) -> (ops: Vec<Op>)
    requires
        i < world@.len(),
    ensures
        ops@ == swap_ops(world@, i as int),
{
    let mut ops: Vec<Op> = Vec::new();
    if let Some(rec) = world.slots[i] {
        if let Some(s) = rec.swap_role {
            ops.push(Op::RemoveRole(s.remove));
            ops.push(Op::AddRole(s.add));
            ops.push(Op::RemoveSwap);
            assert(ops@ =~= swap_ops(world@, i as int));
        }
    }
    ops
}

/// The delayed-swap operations of slot `i` at instant `now`.
pub fn slot_delayed_ops(world: &World, i: usize, now: u64) -> (ops: Vec<Op>)
    requires
        i < world@.len(),
    ensures
        ops@ == delayed_ops(world@, i as int, now),
{
    let mut ops: Vec<Op> = Vec::new();
    if let Some(rec) = world.slots[i] {
        if let Some(d) = rec.delayed_swap {
            if now >= d.fire_at {
                ops.push(Op::RemoveRole(d.swap.remove));
                ops.push(Op::AddRole(d.swap.add));
                ops.push(Op::RemoveDelayedSwap);
                assert(ops@ =~= delayed_ops(world@, i as int, now));
            }
        }
    }
    ops
}

/// The cleanup operations of slot `i`: dead entities go.
pub fn slot_remove_dead_ops(world: &World, i: usize) -> (ops: Vec<Op>)
    requires
        i < world@.len(),
    ensures
        ops@ == remove_dead_ops(world@, i as int),
{
    let mut ops: Vec<Op> = Vec::new();
    if let Some(rec) = world.slots[i] {
        if rec.dead {
            ops.push(Op::Destroy);
            assert(ops@ =~= seq![Op::Destroy]);
        }
    }
    ops
}

/// The cleanup operations of slot `i`: entities that left the game go.
pub fn slot_remove_gone_ops(world: &World, i: usize) -> (ops: Vec<Op>)
    requires
        i < world@.len(),
    ensures
        ops@ == remove_gone_ops(world@, i as int),
{
    let mut ops: Vec<Op> = Vec::new();
    if let Some(rec) = world.slots[i] {
        if rec.left_game {
            ops.push(Op::Destroy);
            assert(ops@ =~= seq![Op::Destroy]);
        }
    }
    ops
}

} // verus!
