//! The entity-component store. An entity is a slot of the store; removing an
//! entity empties its slot, so a handle never names another entity until the
//! whole world is cleared.
use vstd::prelude::*;
use crate::components::{Autopilot, Character, DelayedSwapRole, Direction, Food, Id, IntendsToMove, Position, Role, SwapRole};

verus! {

/// A handle on an entity: the index of its slot in the world.
#[derive(Debug, Clone, Copy, PartialEq, Eq, Structural)]
pub struct Entity(pub usize);

/// The components attached to one entity. Marker components are flags,
/// components with data are options.
#[derive(Debug, Clone, Copy)]
pub struct EntityRecord {
    pub id: Option<Id>,
    pub position: Option<Position>,
    pub direction: Option<Direction>,
    pub character: Option<Character>,
    pub hero: bool,
    pub villain: bool,
    pub hunter: bool,
    pub victim: bool,
    pub food: Option<Food>,
    pub superfood: bool,
    pub intends: Option<IntendsToMove>,
    pub dead: bool,
    pub left_game: bool,
    pub swap_role: Option<SwapRole>,
    pub delayed_swap: Option<DelayedSwapRole>,
    pub autopilot: Option<Autopilot>,
}

impl EntityRecord {
    /// The record of an entity without any component.
    pub open spec fn spec_empty() -> EntityRecord {
        EntityRecord {
            id: None,
            position: None,
            direction: None,
            character: None,
            hero: false,
            villain: false,
            hunter: false,
            victim: false,
            food: None,
            superfood: false,
            intends: None,
            dead: false,
            left_game: false,
            swap_role: None,
            delayed_swap: None,
            autopilot: None,
        }
    }

    /// The record of an entity without any component.
    pub fn empty() -> (r: EntityRecord)
        ensures
            r == EntityRecord::spec_empty(),
    {
        EntityRecord {
            id: None,
            position: None,
            direction: None,
            character: None,
            hero: false,
            villain: false,
            hunter: false,
            victim: false,
            food: None,
            superfood: false,
            intends: None,
            dead: false,
            left_game: false,
            swap_role: None,
            delayed_swap: None,
            autopilot: None,
        }
    }

    /// True iff the entity carries the given external id.
    pub open spec fn has_id(&self, id: u32) -> bool {
        self.id == Some(Id(id))
    }

    /// True iff the entity holds the given role.
    pub open spec fn has_role(&self, role: Role) -> bool {
        match role {
            Role::Hunter => self.hunter,
            Role::Victim => self.victim,
        }
    }

    /// The record with the given role attached or detached.
    pub open spec fn with_role(self, role: Role, on: bool) -> EntityRecord {
        match role {
            Role::Hunter => EntityRecord { hunter: on, ..self },
            Role::Victim => EntityRecord { victim: on, ..self },
        }
    }
}

/// A set of component kinds, one flag per kind.
#[derive(Debug, Clone, Copy, PartialEq, Eq, Structural, Default)]
pub struct Tags {
    pub id: bool,
    pub position: bool,
    pub direction: bool,
    pub character: bool,
    pub hero: bool,
    pub villain: bool,
    pub hunter: bool,
    pub victim: bool,
    pub food: bool,
    pub superfood: bool,
    pub intends: bool,
    pub dead: bool,
    pub left_game: bool,
    pub swap_role: bool,
    pub delayed_swap: bool,
    pub autopilot: bool,
}

impl EntityRecord {
    /// The kinds of the components that the entity carries.
    pub open spec fn spec_tags(&self) -> Tags {
        Tags {
            id: self.id is Some,
            position: self.position is Some,
            direction: self.direction is Some,
            character: self.character is Some,
            hero: self.hero,
            villain: self.villain,
            hunter: self.hunter,
            victim: self.victim,
            food: self.food is Some,
            superfood: self.superfood,
            intends: self.intends is Some,
            dead: self.dead,
            left_game: self.left_game,
            swap_role: self.swap_role is Some,
            delayed_swap: self.delayed_swap is Some,
            autopilot: self.autopilot is Some,
        }
    }

    /// The kinds of the components that the entity carries.
    pub fn tags(&self) -> (t: Tags)
        ensures
            t == self.spec_tags(),
    {
        Tags {
            id: self.id.is_some(),
            position: self.position.is_some(),
            direction: self.direction.is_some(),
            character: self.character.is_some(),
            hero: self.hero,
            villain: self.villain,
            hunter: self.hunter,
            victim: self.victim,
            food: self.food.is_some(),
            superfood: self.superfood,
            intends: self.intends.is_some(),
            dead: self.dead,
            left_game: self.left_game,
            swap_role: self.swap_role.is_some(),
            delayed_swap: self.delayed_swap.is_some(),
            autopilot: self.autopilot.is_some(),
        }
    }
}

/// True iff every kind in `a` is in `b`.
pub open spec fn spec_within(a: Tags, b: Tags) -> bool {
    &&& (a.id ==> b.id)
    &&& (a.position ==> b.position)
    &&& (a.direction ==> b.direction)
    &&& (a.character ==> b.character)
    &&& (a.hero ==> b.hero)
    &&& (a.villain ==> b.villain)
    &&& (a.hunter ==> b.hunter)
    &&& (a.victim ==> b.victim)
    &&& (a.food ==> b.food)
    &&& (a.superfood ==> b.superfood)
    &&& (a.intends ==> b.intends)
    &&& (a.dead ==> b.dead)
    &&& (a.left_game ==> b.left_game)
    &&& (a.swap_role ==> b.swap_role)
    &&& (a.delayed_swap ==> b.delayed_swap)
    &&& (a.autopilot ==> b.autopilot)
}

/// True iff no kind is in both sets.
pub open spec fn spec_disjoint(a: Tags, b: Tags) -> bool {
    &&& !(a.id && b.id)
    &&& !(a.position && b.position)
    &&& !(a.direction && b.direction)
    &&& !(a.character && b.character)
    &&& !(a.hero && b.hero)
    &&& !(a.villain && b.villain)
    &&& !(a.hunter && b.hunter)
    &&& !(a.victim && b.victim)
    &&& !(a.food && b.food)
    &&& !(a.superfood && b.superfood)
    &&& !(a.intends && b.intends)
    &&& !(a.dead && b.dead)
    &&& !(a.left_game && b.left_game)
    &&& !(a.swap_role && b.swap_role)
    &&& !(a.delayed_swap && b.delayed_swap)
    &&& !(a.autopilot && b.autopilot)
}

/// True iff every kind in `a` is in `b`.
pub fn within(a: Tags, b: Tags) -> (r: bool)
    ensures
        r == spec_within(a, b),
{
    (!a.id || b.id) && (!a.position || b.position) && (!a.direction || b.direction) && (!a.character
        || b.character) && (!a.hero || b.hero) && (!a.villain || b.villain) && (!a.hunter || b.hunter) && (
    !a.victim || b.victim) && (!a.food || b.food) && (!a.superfood || b.superfood) && (!a.intends
        || b.intends) && (!a.dead || b.dead) && (!a.left_game || b.left_game) && (!a.swap_role
        || b.swap_role) && (!a.delayed_swap || b.delayed_swap) && (!a.autopilot || b.autopilot)
}

/// True iff no kind is in both sets.
pub fn disjoint(a: Tags, b: Tags) -> (r: bool)
    ensures
        r == spec_disjoint(a, b),
{
    !(a.id && b.id) && !(a.position && b.position) && !(a.direction && b.direction) && !(a.character
        && b.character) && !(a.hero && b.hero) && !(a.villain && b.villain) && !(a.hunter && b.hunter)
        && !(a.victim && b.victim) && !(a.food && b.food) && !(a.superfood && b.superfood) && !(a.intends
        && b.intends) && !(a.dead && b.dead) && !(a.left_game && b.left_game) && !(a.swap_role
        && b.swap_role) && !(a.delayed_swap && b.delayed_swap) && !(a.autopilot && b.autopilot)
}

/// True iff slot `i` holds a live entity that carries every kind of `with`
/// and none of `without`.
pub open spec fn selected(w: Seq<Option<EntityRecord>>, i: int, with: Tags, without: Tags) -> bool {
    0 <= i < w.len() && w[i] is Some && spec_within(with, w[i]->Some_0.spec_tags()) && spec_disjoint(
        without,
        w[i]->Some_0.spec_tags(),
    )
}

/// The store of all entities, one slot per entity ever spawned since the
/// last clear; an empty slot is an entity that was destroyed.
pub struct World {
    pub slots: Vec<Option<EntityRecord>>,
}

impl View for World {
    type V = Seq<Option<EntityRecord>>;

    open spec fn view(&self) -> Seq<Option<EntityRecord>> {
        self.slots@
    }
}

/// True iff slot `i` of `w` holds a live entity with the given external id.
pub open spec fn live_with_id(w: Seq<Option<EntityRecord>>, i: int, id: u32) -> bool {
    0 <= i < w.len() && w[i] is Some && w[i]->Some_0.has_id(id)
}

impl World {
    /// An empty world.
    pub fn new() -> (w: World)
        ensures
            w@ == Seq::<Option<EntityRecord>>::empty(),
    {
        World { slots: Vec::new() }
    }

    /// The number of slots, live or not.
    pub fn len(&self) -> (r: usize)
        ensures
            r == self@.len(),
    {
        self.slots.len()
    }

    /// Creates an entity with the given components.
    pub fn push(&mut self, record: EntityRecord) -> (e: Entity)
        ensures
            final(self)@ == old(self)@.push(Some(record)),
            e.0 == old(self)@.len(),
    {
        let e = Entity(self.slots.len());
        self.slots.push(Some(record));
        e
    }

    /// The components of an entity, if it is alive.
    pub fn get(&self, e: Entity) -> (r: Option<EntityRecord>)
        ensures
            r == (if e.0 < self@.len() { self@[e.0 as int] } else { None }),
    {
        if e.0 < self.slots.len() {
            self.slots[e.0]
        } else {
            None
        }
    }

    /// Destroys an entity; a no-op on one that is already gone.
    pub fn remove(&mut self, e: Entity)
        ensures
            final(self)@ == (if e.0 < old(self)@.len() {
                old(self)@.update(e.0 as int, None)
            } else {
                old(self)@
            }),
    {
        if e.0 < self.slots.len() {
            self.slots.set(e.0, None);
        }
    }

    /// Replaces the record of a live entity; a no-op on one that is gone.
    pub fn replace(&mut self, e: Entity, record: EntityRecord)
        ensures
            final(self)@ == (if e.0 < old(self)@.len() && old(self)@[e.0 as int] is Some {
                old(self)@.update(e.0 as int, Some(record))
            } else {
                old(self)@
            }),
    {
        if e.0 < self.slots.len() && self.slots[e.0].is_some() {
            self.slots.set(e.0, Some(record));
        }
    }

    /// Destroys every entity.
    pub fn clear(&mut self)
        ensures
            final(self)@ == Seq::<Option<EntityRecord>>::empty(),
    {
        self.slots = Vec::new();
    }

    /// The live entities that carry every kind of `with` and none of
    /// `without`, in slot order.
    pub fn query(&self, with: Tags, without: Tags) -> (r: Vec<Entity>)
        ensures
            forall|k: int| 0 <= k < r@.len() ==> selected(self@, #[trigger] r@[k].0 as int, with, without),
            forall|k: int, m: int| 0 <= k < m < r@.len() ==> #[trigger] r@[k].0 < #[trigger] r@[m].0,
            forall|i: int| #[trigger] selected(self@, i, with, without) ==> r@.contains(Entity(i as usize)),
    {
        let mut r: Vec<Entity> = Vec::new();
        let mut i: usize = 0;
        while i < self.slots.len()
            invariant
                i <= self@.len(),
                forall|k: int| 0 <= k < r@.len() ==> selected(self@, #[trigger] r@[k].0 as int, with, without),
                forall|k: int| 0 <= k < r@.len() ==> #[trigger] r@[k].0 < i,
                forall|k: int, m: int| 0 <= k < m < r@.len() ==> #[trigger] r@[k].0 < #[trigger] r@[m].0,
                forall|j: int| 0 <= j < i && #[trigger] selected(self@, j, with, without) ==> r@.contains(Entity(j as usize)),
            decreases self@.len() - i,
        {
            if let Some(rec) = self.slots[i] {
                let t = rec.tags();
                if within(with, t) && disjoint(without, t) {
                    let ghost prev = r@;
                    r.push(Entity(i));
                    proof {
                        assert(r@[prev.len() as int] == Entity(i));
                        assert forall|j: int| 0 <= j < i + 1 && #[trigger] selected(self@, j, with, without) implies r@.contains(
                            Entity(j as usize),
                        ) by {
                            if j < i {
                                assert(prev.contains(Entity(j as usize)));
                                let k = choose|k: int| 0 <= k < prev.len() && prev[k] == Entity(j as usize);
                                assert(r@[k] == Entity(j as usize));
                            }
                        }
                    }
                }
            }
            i = i + 1;
        }
        r
    }

    /// The first live entity that carries the given external id.
    pub fn find_by_id(&self, id: u32) -> (r: Option<Entity>)
        ensures
            r matches Some(e) ==> live_with_id(self@, e.0 as int, id) && forall|j: int|
                0 <= j < e.0 ==> !live_with_id(self@, j, id),
            r is None ==> forall|j: int| 0 <= j < self@.len() ==> !live_with_id(self@, j, id),
    {
        let mut i: usize = 0;
        while i < self.slots.len()
            invariant
                i <= self@.len(),
                forall|j: int| 0 <= j < i ==> !live_with_id(self@, j, id),
            decreases self@.len() - i,
        {
            match self.slots[i] {
                Some(rec) => {
                    match rec.id {
                        Some(Id(k)) => {
                            if k == id {
                                return Some(Entity(i));
                            }
                        },
                        None => {},
                    }
                },
                None => {},
            }
            i = i + 1;
        }
        None
    }
}

} // verus!
