//! The game state: the world, the map, the phase of the game and the player,
//! updated once per tick from the messages received since the last one.
use vstd::prelude::*;
use crate::components::{Autopilot, Direction, IntendsToMove, Player, Position};
use crate::level::Level;
use crate::random::random_below;
use bracket_lib::prelude::RandomNumberGenerator;
use crate::pascman_protocol::{Item, Message, Movement, Spawn};
use crate::resources::{cell_index, GameMap, TileType};
use crate::schedule::{
    lemma_food_eaten, lemma_food_elsewhere_untouched, lemma_victim_killed, plain_food, run_game_schedule, run_stages,
    running_stages, still, Schedule,
};
use crate::systems::interaction::hero_at;
use crate::spawn::{
    player1_record, player2_record, seed_record, spawn_player1, spawn_player2, spawn_seed,
    spawn_superfood, superfood_record,
};
use crate::world::{live_with_id, EntityRecord, World};
use crate::utils::{step_target, step_toward};

verus! {

/// The phase of the game.
#[derive(Debug, Clone, Copy, PartialEq, Eq, Structural)]
pub enum GameStatus {
    /// waiting for the registration of the player, or for a new level
    NotStarted,
    /// registered, waiting to start: the next tick clears the world and runs
    /// the game. A registration message starts a game at once, so only a
    /// caller sets this phase.
    Registered,
    /// the game is played
    Running,
    /// the hero ate all the food
    Won,
    /// the last hero died
    Lost,
    /// the server ended the game
    Over { winner: u32 },
}

/// A key of the keyboard, as far as the game cares.
#[derive(Debug, Clone, Copy, PartialEq, Eq, Structural)]
pub enum Key {
    Left,
    Right,
    Up,
    Down,
    Return,
    Other,
}

/// The direction that an arrow key asks for.
pub open spec fn spec_user_input(key: Option<Key>) -> Option<Direction> {
    match key {
        Some(Key::Left) => Some(Direction::Left),
        Some(Key::Right) => Some(Direction::Right),
        Some(Key::Up) => Some(Direction::Up),
        Some(Key::Down) => Some(Direction::Down),
        _ => None,
    }
}

/// The direction that the pressed key asks for, if it is an arrow.
pub fn user_input(key: Option<Key>) -> (r: Option<Direction>)
    ensures
        r == spec_user_input(key),
{
    match key {
        Some(Key::Left) => Some(Direction::Left),
        Some(Key::Right) => Some(Direction::Right),
        Some(Key::Up) => Some(Direction::Up),
        Some(Key::Down) => Some(Direction::Down),
        _ => None,
    }
}

/// Once the game is over, any key starts it anew.
pub fn proceed_to_restart(key_pressed: bool, status: &mut GameStatus)
    ensures
        *final(status) == (if key_pressed {
            GameStatus::NotStarted
        } else {
            *old(status)
        }),
{
    if key_pressed {
        *status = GameStatus::NotStarted;
    }
}

/// The slot of the first live entity, among the first `n`, with the given external id.
pub open spec fn first_with_id(w: Seq<Option<EntityRecord>>, id: u32, n: nat) -> Option<int>
    decreases n,
{
    if n == 0 {
        None
    } else {
        match first_with_id(w, id, (n - 1) as nat) {
            Some(i) => Some(i),
            None => if live_with_id(w, n - 1, id) {
                Some(n - 1)
            } else {
                None
            },
        }
    }
}

/// The slot of the first live entity with the given external id.
pub open spec fn find_id(w: Seq<Option<EntityRecord>>, id: u32) -> Option<int> {
    first_with_id(w, id, w.len())
}

/// The first slot with the id, among the first `n`, is the one that no
/// earlier slot precedes.
pub proof fn lemma_first_with_id(w: Seq<Option<EntityRecord>>, id: u32, n: nat)
    requires
        n <= w.len(),
    ensures
        first_with_id(w, id, n) matches Some(i) ==> 0 <= i < n && live_with_id(w, i, id) && forall|j: int|
            0 <= j < i ==> !live_with_id(w, j, id),
        first_with_id(w, id, n) is None ==> forall|j: int| 0 <= j < n ==> !live_with_id(w, j, id),
    decreases n,
{
    if n > 0 {
        lemma_first_with_id(w, id, (n - 1) as nat);
    }
}

/// What the game is made of, as far as messages change it.
pub struct Model {
    pub world: Seq<Option<EntityRecord>>,
    pub tiles: Seq<TileType>,
    pub status: GameStatus,
    pub player: u32,
}

/// The world with the entity in slot `i` changed by `f`.
pub open spec fn with_slot(w: Seq<Option<EntityRecord>>, i: Option<int>, r: spec_fn(EntityRecord) -> Option<EntityRecord>) -> Seq<Option<EntityRecord>> {
    match i {
        Some(k) => w.update(k, r(w[k]->Some_0)),
        None => w,
    }
}

/// What one message does to the game on a map of the given size. A
/// registration runs the game, on a cleared world when the game had not
/// started; a spawn outside the
/// map, or a message about an id that no live entity carries, does nothing.
pub open spec fn ingest(m: Model, width: usize, height: usize, msg: Message) -> Model {
    match msg {
        Message::Registration(r) => if m.status == GameStatus::NotStarted {
            Model { world: Seq::empty(), status: GameStatus::Running, player: r.player, ..m }
        } else {
            Model { status: GameStatus::Running, player: r.player, ..m }
        },
        Message::Spawn(s) => {
            let p = Position { x: s.pos.x as usize, y: s.pos.y as usize };
            if s.pos.x < width && s.pos.y < height {
                let c = cell_index(width as int, p.x as int, p.y as int);
                match s.item {
                    Item::WALL => Model { tiles: m.tiles.update(c, TileType::Wall), ..m },
                    Item::FLOOR => Model { tiles: m.tiles.update(c, TileType::Floor), ..m },
                    Item::FOOD => Model { world: m.world.push(Some(seed_record(s.id, p))), ..m },
                    Item::SUPERFOOD => Model { world: m.world.push(Some(superfood_record(s.id, p))), ..m },
                    Item::PLAYER1 => Model { world: m.world.push(Some(player1_record(s.id, p))), ..m },
                    Item::PLAYER2 => Model { world: m.world.push(Some(player2_record(s.id, p))), ..m },
                }
            } else {
                m
            }
        },
        Message::Movement(mv) => Model {
            world: with_slot(
                m.world,
                find_id(m.world, mv.id),
                |r: EntityRecord|
                    Some(
                        EntityRecord {
                            intends: Some(IntendsToMove(Position { x: mv.pos.x as usize, y: mv.pos.y as usize })),
                            ..r
                        },
                    ),
            ),
            ..m
        },
        Message::EatFood(e) => Model {
            world: with_slot(m.world, find_id(m.world, e.food), |r: EntityRecord| None),
            ..m
        },
        Message::GameOver(g) => Model { status: GameStatus::Over { winner: g.winner }, ..m },
        Message::Kill(k) => Model {
            world: with_slot(m.world, find_id(m.world, k.killed), |r: EntityRecord| None),
            ..m
        },
        Message::LeftGame(l) => Model {
            world: with_slot(m.world, find_id(m.world, l.id), |r: EntityRecord| Some(EntityRecord { left_game: true, ..r })),
            ..m
        },
    }
}

/// What the messages do to the game, in the order received.
pub open spec fn ingest_all(m: Model, width: usize, height: usize, msgs: Seq<Message>) -> Model
    decreases msgs.len(),
{
    if msgs.len() == 0 {
        m
    } else {
        ingest(ingest_all(m, width, height, msgs.drop_last()), width, height, msgs.last())
    }
}

/// Draining an empty message queue leaves the game unchanged.
pub proof fn lemma_empty_drain(m: Model, width: usize, height: usize)
    ensures
        ingest_all(m, width, height, Seq::empty()) == m,
{
}

/// The record that a spawn message of an entity item creates.
pub open spec fn spawned_record(s: Spawn) -> EntityRecord {
    let p = Position { x: s.pos.x as usize, y: s.pos.y as usize };
    match s.item {
        Item::FOOD => seed_record(s.id, p),
        Item::SUPERFOOD => superfood_record(s.id, p),
        Item::PLAYER1 => player1_record(s.id, p),
        _ => player2_record(s.id, p),
    }
}

/// Spawning an entity under a fresh id and then moving that id gives the
/// movement request to the new entity, and to no other, even when other
/// entities stand on the same cell.
pub proof fn lemma_spawn_then_move(m: Model, width: usize, height: usize, s: Spawn, mv: Movement)
    requires
        s.item != Item::WALL && s.item != Item::FLOOR,
        s.pos.x < width && s.pos.y < height,
        mv.id == s.id,
        forall|j: int| 0 <= j < m.world.len() ==> !live_with_id(m.world, j, s.id),
    ensures
        ({
            let after = ingest_all(m, width, height, seq![Message::Spawn(s), Message::Movement(mv)]);
            &&& after.world.len() == m.world.len() + 1
            &&& forall|j: int| 0 <= j < m.world.len() ==> after.world[j] == m.world[j]
            &&& after.world[m.world.len() as int] == Some(
                EntityRecord {
                    intends: Some(IntendsToMove(Position { x: mv.pos.x as usize, y: mv.pos.y as usize })),
                    ..spawned_record(s)
                },
            )
        }),
{
    let msgs = seq![Message::Spawn(s), Message::Movement(mv)];
    reveal_with_fuel(ingest_all, 3);
    assert(msgs.drop_last() =~= seq![Message::Spawn(s)]);
    assert(seq![Message::Spawn(s)].drop_last() =~= Seq::<Message>::empty());
    let m1 = ingest(m, width, height, Message::Spawn(s));
    assert(ingest_all(m, width, height, msgs.drop_last()) == m1);
    let n = m.world.len();
    assert(m1.world == m.world.push(Some(spawned_record(s))));
    lemma_first_with_id(m1.world, s.id, n);
    assert forall|j: int| 0 <= j < n implies !live_with_id(m1.world, j, s.id) by {
        assert(m1.world[j] == m.world[j]);
        assert(!live_with_id(m.world, j, s.id));
    }
    assert(live_with_id(m1.world, n as int, s.id));
    assert(find_id(m1.world, s.id) == Some(n as int));
}

/// The number of live entities, among the first `n` slots, that are heroes.
pub open spec fn hero_count(w: Seq<Option<EntityRecord>>, n: nat) -> nat
    decreases n,
{
    if n == 0 {
        0
    } else {
        hero_count(w, (n - 1) as nat) + if w[n - 1] is Some && w[n - 1]->Some_0.hero {
            1nat
        } else {
            0nat
        }
    }
}

/// The number of live entities, among the first `n` slots, that are food.
pub open spec fn food_count(w: Seq<Option<EntityRecord>>, n: nat) -> nat
    decreases n,
{
    if n == 0 {
        0
    } else {
        food_count(w, (n - 1) as nat) + if w[n - 1] is Some && w[n - 1]->Some_0.food is Some {
            1nat
        } else {
            0nat
        }
    }
}

/// The phase after a running tick that turned `before` into `after`: lost
/// when the last hero died, won when the last food was eaten, running otherwise.
pub open spec fn end_status(before: Seq<Option<EntityRecord>>, after: Seq<Option<EntityRecord>>) -> GameStatus {
    if hero_count(before, before.len()) > 0 && hero_count(after, after.len()) == 0 {
        GameStatus::Lost
    } else if food_count(before, before.len()) > 0 && food_count(after, after.len()) == 0 {
        GameStatus::Won
    } else {
        GameStatus::Running
    }
}

/// The live heroes and the live food of a world, counted.
pub fn count_heroes_and_food(world: &World) -> (r: (u64, u64))
    ensures
        r.0 == hero_count(world@, world@.len()),
        r.1 == food_count(world@, world@.len()),
{
    let mut heroes: u64 = 0;
    let mut food: u64 = 0;
    let mut i: usize = 0;
    while i < world.slots.len()
        invariant
            i <= world@.len(),
            heroes == hero_count(world@, i as nat),
            food == food_count(world@, i as nat),
            heroes <= i,
            food <= i,
        decreases world@.len() - i,
    {
        if let Some(rec) = world.slots[i] {
            if rec.hero {
                heroes = heroes + 1;
            }
            if rec.food.is_some() {
                food = food + 1;
            }
        }
        i = i + 1;
    }
    (heroes, food)
}

/// The villains of a world, made autonomous with the given cooldown.
pub open spec fn with_bots(w: Seq<Option<EntityRecord>>, a: Autopilot) -> Seq<Option<EntityRecord>> {
    w.map_values(
        |r: Option<EntityRecord>|
            match r {
                Some(rec) => if rec.villain {
                    Some(EntityRecord { autopilot: Some(a), ..rec })
                } else {
                    r
                },
                None => r,
            },
    )
}

/// The heroes of a world, each asked to take one step in direction `d`.
pub open spec fn steered(w: Seq<Option<EntityRecord>>, d: Direction) -> Seq<Option<EntityRecord>> {
    w.map_values(
        |r: Option<EntityRecord>|
            match r {
                Some(rec) => if rec.hero && rec.position is Some && step_target(rec.position->Some_0, d) is Some {
                    Some(EntityRecord { intends: Some(IntendsToMove(step_target(rec.position->Some_0, d)->Some_0)), ..rec })
                } else {
                    r
                },
                None => r,
            },
    )
}

/// `b` is `a` where every wanderer holds a fresh roll, one of the four
/// direction codes, and nothing else changed.
pub open spec fn rerolled(a: Seq<Option<EntityRecord>>, b: Seq<Option<EntityRecord>>) -> bool {
    &&& b.len() == a.len()
    &&& forall|i: int|
        0 <= i < a.len() ==> #[trigger] b[i] == match a[i] {
            Some(rec) => match rec.autopilot {
                Some(ap) => if ap.wander {
                    Some(
                        EntityRecord {
                            autopilot: Some(Autopilot { roll: b[i]->Some_0.autopilot->Some_0.roll, ..ap }),
                            ..rec
                        },
                    )
                } else {
                    a[i]
                },
                None => a[i],
            },
            None => a[i],
        }
    &&& forall|i: int|
        0 <= i < a.len() && #[trigger] a[i] is Some && a[i]->Some_0.autopilot is Some && a[i]->Some_0.autopilot->Some_0.wander
            ==> b[i]->Some_0.autopilot->Some_0.roll < 4
}

/// Drawing the wanderers' directions leaves every other entity as it is.
proof fn lemma_rerolled_still(a: Seq<Option<EntityRecord>>, w: Seq<Option<EntityRecord>>, i: int)
    requires
        rerolled(a, w),
        still(a, i),
    ensures
        w[i] == a[i],
        still(w, i),
{
    assert(w[i] == a[i]);
}

/// In a running tick, whatever directions the wanderers drew, food on which
/// a hero stands is gone, unless the hero or the food moves.
pub proof fn lemma_tick_food_eaten(a: Seq<Option<EntityRecord>>, w: Seq<Option<EntityRecord>>, map: GameMap, now: u64, i: int, j: int, p: Position)
    requires
        a.len() <= usize::MAX,
        rerolled(a, w),
        still(a, i),
        a[i]->Some_0.food is Some,
        a[i]->Some_0.position == Some(p),
        still(a, j),
        a[j]->Some_0.hero,
        a[j]->Some_0.position == Some(p),
    ensures
        run_stages(w, running_stages(), map, now)[i] is None,
{
    lemma_rerolled_still(a, w, i);
    lemma_rerolled_still(a, w, j);
    lemma_food_eaten(w, map, now, i, j, p);
}

/// In a running tick, whatever directions the wanderers drew, plain food on
/// which no hero stands is untouched, unless the food or a hero moves.
pub proof fn lemma_tick_food_untouched(a: Seq<Option<EntityRecord>>, w: Seq<Option<EntityRecord>>, map: GameMap, now: u64, i: int, p: Position)
    requires
        a.len() <= usize::MAX,
        rerolled(a, w),
        still(a, i),
        plain_food(a[i]->Some_0),
        a[i]->Some_0.position == Some(p),
        forall|k: int| 0 <= k < a.len() && (#[trigger] a[k]) is Some && a[k]->Some_0.hero ==> still(a, k),
        !hero_at(a, p),
    ensures
        run_stages(w, running_stages(), map, now)[i] == a[i],
{
    lemma_rerolled_still(a, w, i);
    assert forall|k: int| 0 <= k < w.len() && (#[trigger] w[k]) is Some && w[k]->Some_0.hero implies still(w, k) by {
        assert(w[k] == match a[k] {
            Some(rec) => match rec.autopilot {
                Some(ap) => if ap.wander {
                    Some(EntityRecord { autopilot: Some(Autopilot { roll: w[k]->Some_0.autopilot->Some_0.roll, ..ap }), ..rec })
                } else {
                    a[k]
                },
                None => a[k],
            },
            None => a[k],
        });
        assert(a[k] is Some && a[k]->Some_0.hero);
        lemma_rerolled_still(a, w, k);
    }
    assert(!hero_at(w, p)) by {
        if hero_at(w, p) {
            let k = choose|k: int| crate::systems::interaction::is_hero(w, k) && (#[trigger] w[k])->Some_0.position == Some(p);
            assert(w[k] is Some && w[k]->Some_0.hero);
            assert(still(w, k));
            assert(w[k] == match a[k] {
                Some(rec) => match rec.autopilot {
                    Some(ap) => if ap.wander {
                        Some(EntityRecord { autopilot: Some(Autopilot { roll: w[k]->Some_0.autopilot->Some_0.roll, ..ap }), ..rec })
                    } else {
                        a[k]
                    },
                    None => a[k],
                },
                None => a[k],
            });
            assert(a[k] is Some);
            assert(a[k]->Some_0.hero && a[k]->Some_0.position == Some(p));
        }
    }
    lemma_food_elsewhere_untouched(w, map, now, i, p);
}

/// In a running tick, whatever directions the wanderers drew, a victim on
/// which another entity, a hunter, stands is gone, unless one of them moves.
pub proof fn lemma_tick_victim_killed(a: Seq<Option<EntityRecord>>, w: Seq<Option<EntityRecord>>, map: GameMap, now: u64, i: int, j: int, p: Position)
    requires
        a.len() <= usize::MAX,
        rerolled(a, w),
        i != j,
        still(a, i),
        a[i]->Some_0.victim,
        a[i]->Some_0.position == Some(p),
        still(a, j),
        a[j]->Some_0.hunter,
        a[j]->Some_0.position == Some(p),
    ensures
        run_stages(w, running_stages(), map, now)[i] is None,
{
    lemma_rerolled_still(a, w, i);
    lemma_rerolled_still(a, w, j);
    lemma_victim_killed(w, map, now, i, j, p);
}

/// The whole game: the world, the map, the phase, the player and the
/// schedule of the running game.
pub struct State {
    pub ecs: World,
    pub map: GameMap,
    pub status: GameStatus,
    pub player: Player,
    pub running: Schedule,
    /// where the wanderers draw their directions from
    pub rng: RandomNumberGenerator,
}

impl State {
    /// The map is well formed and the running schedule is that of the game.
    pub open spec fn wf(&self) -> bool {
        &&& self.map.wf()
        &&& self.running.spec_stages() == running_stages()
    }

    /// What messages change of the game.
    pub open spec fn model(&self) -> Model {
        Model { world: self.ecs@, tiles: self.map.tiles@, status: self.status, player: self.player.0 }
    }

    /// A running game on an empty world and a 30 x 20 map of floor.
    pub fn new() -> (s: State)
        ensures
            s.wf(),
            s.ecs@ == Seq::<Option<EntityRecord>>::empty(),
            s.status == GameStatus::Running,
            s.player == Player(0),
            s.map.width == 30,
            s.map.height == 20,
            forall|i: int| 0 <= i < s.map.tiles@.len() ==> s.map.tiles@[i] == TileType::Floor,
    {
        State {
            ecs: World::new(),
            map: GameMap::new(30, 20),
            status: GameStatus::Running,
            player: Player(0),
            running: run_game_schedule(),
            rng: RandomNumberGenerator::new(),
        }
    }

    /// Every wanderer draws a fresh direction.
    pub fn reroll(&mut self)
        requires
            old(self).wf(),
        ensures
            final(self).wf(),
            final(self).map == old(self).map,
            final(self).status == old(self).status,
            final(self).player == old(self).player,
            rerolled(old(self).ecs@, final(self).ecs@),
    {
        let ghost before = self.ecs@;
        let mut i: usize = 0;
        while i < self.ecs.slots.len()
            invariant
                self.wf(),
                self.map == old(self).map,
                self.status == old(self).status,
                self.player == old(self).player,
                before == old(self).ecs@,
                i <= self.ecs@.len(),
                self.ecs@.len() == before.len(),
                forall|j: int| i <= j < self.ecs@.len() ==> #[trigger] self.ecs@[j] == before[j],
                rerolled(before.take(i as int), self.ecs@.take(i as int)),
            decreases self.ecs@.len() - i,
        {
            let ghost prev = self.ecs@;
            if let Some(rec) = self.ecs.slots[i] {
                if let Some(ap) = rec.autopilot {
                    if ap.wander {
                        let roll = random_below(&mut self.rng, 4);
                        let mut r = rec;
                        r.autopilot = Some(Autopilot { roll, ..ap });
                        self.ecs.slots.set(i, Some(r));
                    }
                }
            }
            proof {
                let a = before.take(i + 1);
                let b = self.ecs@.take(i + 1);
                assert forall|j: int| 0 <= j < a.len() implies #[trigger] b[j] == match a[j] {
                    Some(rec) => match rec.autopilot {
                        Some(ap) => if ap.wander {
                            Some(EntityRecord { autopilot: Some(Autopilot { roll: b[j]->Some_0.autopilot->Some_0.roll, ..ap }), ..rec })
                        } else {
                            a[j]
                        },
                        None => a[j],
                    },
                    None => a[j],
                } by {
                    if j < i {
                        assert(a[j] == before.take(i as int)[j]);
                        assert(b[j] == prev.take(i as int)[j]);
                    }
                }
                assert forall|j: int| 0 <= j < a.len() && #[trigger] a[j] is Some && a[j]->Some_0.autopilot is Some && a[j]->Some_0.autopilot->Some_0.wander
                    implies b[j]->Some_0.autopilot->Some_0.roll < 4 by {
                    if j < i {
                        assert(a[j] == before.take(i as int)[j]);
                        assert(b[j] == prev.take(i as int)[j]);
                    }
                }
            }
            i = i + 1;
        }
        assert(before.take(before.len() as int) =~= before);
        assert(self.ecs@.take(self.ecs@.len() as int) =~= self.ecs@);
    }

    /// Applies one message to the game.
    pub fn process_message(&mut self, msg: Message)
        requires
            old(self).wf(),
        ensures
            final(self).wf(),
            final(self).map.width == old(self).map.width,
            final(self).map.height == old(self).map.height,
            final(self).model() == ingest(old(self).model(), old(self).map.width, old(self).map.height, msg),
    {
        match msg {
            Message::Registration(r) => {
                if let GameStatus::NotStarted = self.status {
                    self.ecs.clear();
                }
                self.player = Player(r.player);
                self.status = GameStatus::Running;
            },
            Message::Spawn(s) => {
                if (s.pos.x as usize) < self.map.width && (s.pos.y as usize) < self.map.height {
                    let p = Position { x: s.pos.x as usize, y: s.pos.y as usize };
                    match s.item {
                        Item::WALL => self.map.set_tile(p, TileType::Wall),
                        Item::FLOOR => self.map.set_tile(p, TileType::Floor),
                        Item::FOOD => {
                            spawn_seed(&mut self.ecs, s.id, p);
                        },
                        Item::SUPERFOOD => {
                            spawn_superfood(&mut self.ecs, s.id, p);
                        },
                        Item::PLAYER1 => {
                            spawn_player1(&mut self.ecs, s.id, p);
                        },
                        Item::PLAYER2 => {
                            spawn_player2(&mut self.ecs, s.id, p);
                        },
                    }
                }
            },
            Message::Movement(mv) => {
                let found = self.ecs.find_by_id(mv.id);
                proof {
                    lemma_first_with_id(self.ecs@, mv.id, self.ecs@.len());
                }
                if let Some(e) = found {
                    if let Some(rec) = self.ecs.get(e) {
                        let mut r = rec;
                        r.intends = Some(IntendsToMove(Position { x: mv.pos.x as usize, y: mv.pos.y as usize }));
                        self.ecs.replace(e, r);
                    }
                }
            },
            Message::EatFood(eat) => {
                let found = self.ecs.find_by_id(eat.food);
                proof {
                    lemma_first_with_id(self.ecs@, eat.food, self.ecs@.len());
                }
                if let Some(e) = found {
                    self.ecs.remove(e);
                }
            },
            Message::GameOver(g) => {
                self.status = GameStatus::Over { winner: g.winner };
            },
            Message::Kill(k) => {
                let found = self.ecs.find_by_id(k.killed);
                proof {
                    lemma_first_with_id(self.ecs@, k.killed, self.ecs@.len());
                }
                if let Some(e) = found {
                    self.ecs.remove(e);
                }
            },
            Message::LeftGame(l) => {
                let found = self.ecs.find_by_id(l.id);
                proof {
                    lemma_first_with_id(self.ecs@, l.id, self.ecs@.len());
                }
                if let Some(e) = found {
                    if let Some(rec) = self.ecs.get(e) {
                        let mut r = rec;
                        r.left_game = true;
                        self.ecs.replace(e, r);
                    }
                }
            },
        }
        assert(self.model() =~= ingest(old(self).model(), old(self).map.width, old(self).map.height, msg));
    }

    /// Starts a level: its map replaces the current one, the world is
    /// cleared and populated by the spawns of the level, and every villain
    /// plans its own moves, first at `now`, then every `bot_interval`
    /// milliseconds.
    pub fn start_level(&mut self, level: Level, now: u64, bot_interval: u64)
        requires
            old(self).wf(),
            level.map.wf(),
        ensures
            final(self).wf(),
            final(self).map.width == level.map.width,
            final(self).map.height == level.map.height,
            ({
                let m = ingest_all(
                    Model { world: Seq::empty(), tiles: level.map.tiles@, status: GameStatus::Running, player: old(self).player.0 },
                    level.map.width,
                    level.map.height,
                    level.spawns@,
                );
                &&& final(self).map.tiles@ == m.tiles
                &&& final(self).status == m.status
                &&& final(self).player.0 == m.player
                &&& final(self).ecs@ == with_bots(m.world, Autopilot { next_move_at: now, interval: bot_interval, wander: false, roll: 0 })
            }),
    {
        self.map = level.map;
        self.ecs.clear();
        self.status = GameStatus::Running;
        self.process_messages(&level.spawns);
        let a = Autopilot { next_move_at: now, interval: bot_interval, wander: false, roll: 0 };
        let ghost before = self.ecs@;
        let ghost map0 = self.map;
        let ghost status0 = self.status;
        let ghost player0 = self.player;
        let mut i: usize = 0;
        while i < self.ecs.slots.len()
            invariant
                self.wf(),
                self.map == map0,
                self.status == status0,
                self.player == player0,
                map0.width == level.map.width,
                map0.height == level.map.height,
                i <= self.ecs@.len(),
                self.ecs@.len() == before.len(),
                forall|j: int| 0 <= j < i ==> #[trigger] self.ecs@[j] == with_bots(before, a)[j],
                forall|j: int| i <= j < self.ecs@.len() ==> #[trigger] self.ecs@[j] == before[j],
            decreases self.ecs@.len() - i,
        {
            if let Some(rec) = self.ecs.slots[i] {
                if rec.villain {
                    let mut r = rec;
                    r.autopilot = Some(a);
                    self.ecs.slots.set(i, Some(r));
                }
            }
            i = i + 1;
        }
        assert(self.ecs@ =~= with_bots(before, a));
    }

    /// Asks every hero to take one step in direction `d` at the next tick.
    pub fn steer_heroes(&mut self, d: Direction)
        requires
            old(self).wf(),
        ensures
            final(self).wf(),
            final(self).map == old(self).map,
            final(self).status == old(self).status,
            final(self).player == old(self).player,
            final(self).ecs@ == steered(old(self).ecs@, d),
    {
        let ghost before = self.ecs@;
        let mut i: usize = 0;
        while i < self.ecs.slots.len()
            invariant
                self.wf(),
                self.map == old(self).map,
                self.status == old(self).status,
                self.player == old(self).player,
                i <= self.ecs@.len(),
                self.ecs@.len() == before.len(),
                forall|j: int| 0 <= j < i ==> #[trigger] self.ecs@[j] == steered(before, d)[j],
                forall|j: int| i <= j < self.ecs@.len() ==> #[trigger] self.ecs@[j] == before[j],
            decreases self.ecs@.len() - i,
        {
            if let Some(rec) = self.ecs.slots[i] {
                if rec.hero {
                    if let Some(p) = rec.position {
                        if let Some(t) = step_toward(p, d) {
                            let mut r = rec;
                            r.intends = Some(IntendsToMove(t));
                            self.ecs.slots.set(i, Some(r));
                        }
                    }
                }
            }
            i = i + 1;
        }
        assert(self.ecs@ =~= steered(before, d));
    }

    /// Applies the messages to the game, in the order received.
    pub fn process_messages(&mut self, msgs: &Vec<Message>)
        requires
            old(self).wf(),
        ensures
            final(self).wf(),
            final(self).map.width == old(self).map.width,
            final(self).map.height == old(self).map.height,
            final(self).model() == ingest_all(old(self).model(), old(self).map.width, old(self).map.height, msgs@),
    {
        let mut i: usize = 0;
        while i < msgs.len()
            invariant
                self.wf(),
                i <= msgs@.len(),
                self.map.width == old(self).map.width,
                self.map.height == old(self).map.height,
                self.model() == ingest_all(old(self).model(), old(self).map.width, old(self).map.height, msgs@.take(i as int)),
            decreases msgs@.len() - i,
        {
            self.process_message(msgs[i]);
            assert(msgs@.take(i + 1).drop_last() =~= msgs@.take(i as int));
            i = i + 1;
        }
        assert(msgs@.take(msgs@.len() as int) =~= msgs@);
    }

    /// One tick of the game at instant `now` (in milliseconds), with the
    /// messages received since the last tick and the key pressed, if any.
    /// The messages are applied first; then, by phase: a registered game
    /// starts on a cleared world; in a running game the wanderers draw their
    /// directions, the schedule runs, and the game ends when the last hero
    /// died or the last food was eaten; a finished game
    /// waits for a key to start anew. Returns the direction that an arrow
    /// key asks for while the game runs.
    pub fn tick(&mut self, msgs: &Vec<Message>, key: Option<Key>, now: u64) -> (out: Option<Direction>)
        requires
            old(self).wf(),
        ensures
            final(self).wf(),
            final(self).map.width == old(self).map.width,
            final(self).map.height == old(self).map.height,
            ({
                let m = ingest_all(old(self).model(), old(self).map.width, old(self).map.height, msgs@);
                &&& final(self).map.tiles@ == m.tiles
                &&& final(self).player.0 == m.player
                &&& match m.status {
                    GameStatus::NotStarted => final(self).ecs@ == m.world && final(self).status == m.status,
                    GameStatus::Registered => final(self).ecs@ == Seq::<Option<EntityRecord>>::empty()
                        && final(self).status == GameStatus::Running,
                    GameStatus::Running => exists|w: Seq<Option<EntityRecord>>|
                        #[trigger] rerolled(m.world, w) && final(self).ecs@ == run_stages(w, running_stages(), final(self).map, now)
                            && final(self).status == end_status(w, run_stages(w, running_stages(), final(self).map, now)),
                    _ => final(self).ecs@ == m.world && final(self).status == (if key is Some {
                        GameStatus::NotStarted
                    } else {
                        m.status
                    }),
                }
                &&& out == (if m.status == GameStatus::Running {
                    spec_user_input(key)
                } else {
                    None
                })
            }),
    {
        self.process_messages(msgs);
        match self.status {
            GameStatus::NotStarted => None,
            GameStatus::Registered => {
                self.ecs.clear();
                self.status = GameStatus::Running;
                None
            },
            GameStatus::Running => {
                let out = user_input(key);
                self.reroll();
                let ghost w = self.ecs@;
                let (heroes_before, food_before) = count_heroes_and_food(&self.ecs);
                self.running.execute(&mut self.ecs, &self.map, now);
                let (heroes_after, food_after) = count_heroes_and_food(&self.ecs);
                if heroes_before > 0 && heroes_after == 0 {
                    self.status = GameStatus::Lost;
                } else if food_before > 0 && food_after == 0 {
                    self.status = GameStatus::Won;
                }
                assert(rerolled(ingest_all(old(self).model(), old(self).map.width, old(self).map.height, msgs@).world, w));
                out
            },
            _ => {
                proceed_to_restart(key.is_some(), &mut self.status);
                None
            },
        }
    }
}

} // verus!
