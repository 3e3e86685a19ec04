//! The planner of autonomous actors: a distance field grown from a set of
//! target cells, bounded by a maximum depth, and the one-step move that
//! decreases the distance (pursuit) or increases it (flight).
use vstd::prelude::*;
use crate::command::Op;
use crate::components::{direction_of, spec_direction_of, Autopilot, IntendsToMove, Position, Role};
use crate::utils::{step_target, step_toward};
use crate::resources::{lemma_cell_index_bounds, GameMap, Point};
use crate::world::{EntityRecord, World};

verus! {

/// How far, in steps, the distance field is grown.
pub const MAX_DEPTH: u32 = 30;

/// True iff the optional position is the cell `(x, y)`.
pub open spec fn at_cell(p: Option<Position>, x: int, y: int) -> bool {
    p is Some && p->Some_0.x == x && p->Some_0.y == y
}

/// True iff a live entity with the given role stands on `(x, y)`.
pub open spec fn role_at(w: Seq<Option<EntityRecord>>, role: Role, x: int, y: int) -> bool {
    exists|j: int|
        0 <= j < w.len() && (#[trigger] w[j]) is Some && w[j]->Some_0.has_role(role) && at_cell(
            w[j]->Some_0.position,
            x,
            y,
        )
}

/// The distance from `(x, y)` to the nearest cell where `role` stands, by
/// steps onto floor cells, if it is at most `k`.
pub open spec fn dist(map: GameMap, w: Seq<Option<EntityRecord>>, role: Role, x: int, y: int, k: nat) -> Option<nat>
    decreases k,
{
    if k == 0 {
        if role_at(w, role, x, y) {
            Some(0)
        } else {
            None
        }
    } else {
        match dist(map, w, role, x, y, (k - 1) as nat) {
            Some(d) => Some(d),
            None => if (map.enterable(x, y - 1) && dist(map, w, role, x, y - 1, (k - 1) as nat) is Some)
                || (map.enterable(x, y + 1) && dist(map, w, role, x, y + 1, (k - 1) as nat) is Some)
                || (map.enterable(x - 1, y) && dist(map, w, role, x - 1, y, (k - 1) as nat) is Some)
                || (map.enterable(x + 1, y) && dist(map, w, role, x + 1, y, (k - 1) as nat) is Some) {
                Some(k)
            } else {
                None
            },
        }
    }
}

/// The distance field value of a cell: its distance, if within the maximum depth.
pub open spec fn field_value(map: GameMap, w: Seq<Option<EntityRecord>>, role: Role, x: int, y: int) -> Option<nat> {
    dist(map, w, role, x, y, MAX_DEPTH as nat)
}

/// A distance as stored in a field.
pub open spec fn stored(d: Option<nat>) -> Option<u32> {
    match d {
        Some(v) => Some(v as u32),
        None => None,
    }
}

/// The field `f` holds, for every cell of the map, its distance within `k` steps.
pub open spec fn field_at_depth(map: GameMap, w: Seq<Option<EntityRecord>>, role: Role, f: Seq<Option<u32>>, k: nat) -> bool {
    &&& f.len() == map.tiles@.len()
    &&& forall|c: int|
        0 <= c < f.len() ==> #[trigger] f[c] == stored(
            dist(map, w, role, c % (map.width as int), c / (map.width as int), k),
        )
}

/// A distance within `k` steps is at most `k`.
pub proof fn lemma_dist_bound(map: GameMap, w: Seq<Option<EntityRecord>>, role: Role, x: int, y: int, k: nat)
    ensures
        dist(map, w, role, x, y, k) matches Some(d) ==> d <= k,
    decreases k,
{
    if k > 0 {
        lemma_dist_bound(map, w, role, x, y, (k - 1) as nat);
    }
}

/// A distance found within `k` steps stays the same at any larger bound.
pub proof fn lemma_dist_stable(map: GameMap, w: Seq<Option<EntityRecord>>, role: Role, x: int, y: int, k: nat, m: nat)
    requires
        k <= m,
        dist(map, w, role, x, y, k) is Some,
    ensures
        dist(map, w, role, x, y, m) == dist(map, w, role, x, y, k),
    decreases m - k,
{
    if k < m {
        lemma_dist_stable(map, w, role, x, y, k, (m - 1) as nat);
    }
}

/// A distance `d` is reached at bound `d` and not below.
pub proof fn lemma_dist_exact(map: GameMap, w: Seq<Option<EntityRecord>>, role: Role, x: int, y: int, k: nat, d: nat)
    requires
        dist(map, w, role, x, y, k) == Some(d),
    ensures
        d <= k,
        dist(map, w, role, x, y, d) == Some(d),
        d > 0 ==> dist(map, w, role, x, y, (d - 1) as nat) is None,
    decreases k,
{
    lemma_dist_bound(map, w, role, x, y, k);
    if k > 0 {
        match dist(map, w, role, x, y, (k - 1) as nat) {
            Some(e) => {
                lemma_dist_exact(map, w, role, x, y, (k - 1) as nat, d);
            },
            None => {},
        }
    }
}

/// No bound below `j` finds a cell whose distance is at least `j`.
pub proof fn lemma_dist_none_below(map: GameMap, w: Seq<Option<EntityRecord>>, role: Role, x: int, y: int, d: nat, j: nat)
    requires
        j < d,
        d > 0,
        dist(map, w, role, x, y, (d - 1) as nat) is None,
    ensures
        dist(map, w, role, x, y, j) is None,
{
    if dist(map, w, role, x, y, j) is Some {
        lemma_dist_stable(map, w, role, x, y, j, (d - 1) as nat);
    }
}

/// True iff a live entity with the given role stands on `(x, y)`.
fn role_at_exec(world: &World, role: Role, x: usize, y: usize) -> (r: bool)
    ensures
        r == role_at(world@, role, x as int, y as int),
{
    let mut j: usize = 0;
    while j < world.slots.len()
        invariant
            j <= world@.len(),
            forall|m: int|
                0 <= m < j ==> !((#[trigger] world@[m]) is Some && world@[m]->Some_0.has_role(role) && at_cell(
                    world@[m]->Some_0.position,
                    x as int,
                    y as int,
                )),
        decreases world@.len() - j,
    {
        if let Some(rec) = world.slots[j] {
            let has = match role {
                Role::Hunter => rec.hunter,
                Role::Victim => rec.victim,
            };
            if has {
                if let Some(p) = rec.position {
                    if p.x == x && p.y == y {
                        return true;
                    }
                }
            }
        }
        j = j + 1;
    }
    false
}

/// True iff the neighbour `(x + dx, y + dy)` is a floor cell whose distance is known in `f`.
fn neighbour_reached(map: &GameMap, w: Ghost<Seq<Option<EntityRecord>>>, role: Ghost<Role>, f: &Vec<Option<u32>>, k: Ghost<nat>, x: i32, y: i32) -> (r: bool)
    requires
        map.wf(),
        field_at_depth(*map, w@, role@, f@, k@),
    ensures
        r == (map.enterable(x as int, y as int) && dist(*map, w@, role@, x as int, y as int, k@) is Some),
{
    let p = Point { x, y };
    if map.can_enter(p) {
        let c = map.point2d_to_index(p);
        proof {
            lemma_cell_index_bounds(map.width as int, map.height as int, x as int, y as int);
        }
        f[c].is_some()
    } else {
        false
    }
}

/// The distance field toward the entities with the given role: for every
/// cell of the map, its distance within `MAX_DEPTH` steps.
pub fn distance_field(world: &World, map: &GameMap, role: Role) -> (f: Vec<Option<u32>>)
    requires
        map.wf(),
    ensures
        field_at_depth(*map, world@, role, f@, MAX_DEPTH as nat),
{
    let n = map.tiles.len();
    let ghost w = world@;
    let mut f: Vec<Option<u32>> = Vec::new();
    let mut c: usize = 0;
    while c < n
        invariant
            map.wf(),
            w == world@,
            n == map.tiles@.len(),
            c <= n,
            f@.len() == c,
            forall|i: int|
                0 <= i < c ==> #[trigger] f@[i] == stored(
                    dist(*map, w, role, i % (map.width as int), i / (map.width as int), 0),
                ),
        decreases n - c,
    {
        let p = map.index_to_point2d(c);
        assert((p.x as usize) as int == c as int % (map.width as int));
        assert((p.y as usize) as int == c as int / (map.width as int));
        let here = role_at_exec(world, role, p.x as usize, p.y as usize);
        proof {
            let a = c as int % (map.width as int);
            let b = c as int / (map.width as int);
            assert(here == role_at(w, role, a, b));
            assert(dist(*map, w, role, a, b, 0) == (if role_at(w, role, a, b) {
                Some(0nat)
            } else {
                None
            }));
        }
        if here {
            f.push(Some(0));
        } else {
            f.push(None);
        }
        assert(f@[c as int] == stored(dist(*map, w, role, c as int % (map.width as int), c as int / (map.width as int), 0)));
        c = c + 1;
    }
    let mut k: u32 = 1;
    while k <= MAX_DEPTH
        invariant
            map.wf(),
            w == world@,
            n == map.tiles@.len(),
            1 <= k <= MAX_DEPTH + 1,
            field_at_depth(*map, w, role, f@, (k - 1) as nat),
        decreases MAX_DEPTH + 1 - k,
    {
        let mut g: Vec<Option<u32>> = Vec::new();
        let mut c: usize = 0;
        while c < n
            invariant
                map.wf(),
                n == map.tiles@.len(),
                1 <= k <= MAX_DEPTH,
                field_at_depth(*map, w, role, f@, (k - 1) as nat),
                c <= n,
                g@.len() == c,
                forall|i: int|
                    0 <= i < c ==> #[trigger] g@[i] == stored(
                        dist(*map, w, role, i % (map.width as int), i / (map.width as int), k as nat),
                    ),
            decreases n - c,
        {
            let p = map.index_to_point2d(c);
            let depth = Ghost((k - 1) as nat);
            proof {
                lemma_dist_bound(*map, w, role, p.x as int, p.y as int, (k - 1) as nat);
            }
            if f[c].is_some() {
                g.push(f[c]);
            } else if neighbour_reached(map, Ghost(w), Ghost(role), &f, depth, p.x, p.y - 1)
                || neighbour_reached(map, Ghost(w), Ghost(role), &f, depth, p.x, p.y + 1)
                || neighbour_reached(map, Ghost(w), Ghost(role), &f, depth, p.x - 1, p.y)
                || neighbour_reached(map, Ghost(w), Ghost(role), &f, depth, p.x + 1, p.y) {
                g.push(Some(k));
            } else {
                g.push(None);
            }
            c = c + 1;
        }
        f = g;
        k = k + 1;
    }
    f
}

/// True iff going to a cell of distance `cand` is better than staying at
/// distance `best`: closer when pursuing, farther when fleeing. A missing
/// distance is infinitely far; from there nothing is better.
pub open spec fn improves(pursue: bool, cand: Option<nat>, best: Option<nat>) -> bool {
    match best {
        None => false,
        Some(b) => if pursue {
            match cand {
                Some(c) => c < b,
                None => false,
            }
        } else {
            match cand {
                Some(c) => c > b,
                None => true,
            }
        },
    }
}

/// The `n`-th neighbour of `(x, y)`, in the order up, down, left, right.
pub open spec fn neighbour(x: int, y: int, n: int) -> (int, int) {
    if n == 0 {
        (x, y - 1)
    } else if n == 1 {
        (x, y + 1)
    } else if n == 2 {
        (x - 1, y)
    } else {
        (x + 1, y)
    }
}

/// The best distance and the chosen cell after looking at the first `n`
/// neighbours of `(x, y)`: a floor neighbour replaces the choice when it
/// improves on the best so far, which starts at the distance of `(x, y)`.
pub open spec fn pick(map: GameMap, w: Seq<Option<EntityRecord>>, role: Role, pursue: bool, x: int, y: int, n: nat) -> (Option<nat>, Option<Position>)
    decreases n,
{
    if n == 0 {
        (field_value(map, w, role, x, y), None)
    } else {
        let (best, chosen) = pick(map, w, role, pursue, x, y, (n - 1) as nat);
        let (cx, cy) = neighbour(x, y, n - 1);
        let d = field_value(map, w, role, cx, cy);
        if map.enterable(cx, cy) && improves(pursue, d, best) {
            (d, Some(Position { x: cx as usize, y: cy as usize }))
        } else {
            (best, chosen)
        }
    }
}

/// The cell that an actor on `p` moves to, toward the entities with
/// `role` (pursuing) or away from them (fleeing); none if no neighbour improves.
pub open spec fn next_step(map: GameMap, w: Seq<Option<EntityRecord>>, role: Role, pursue: bool, p: Position) -> Option<Position> {
    if map.spec_in_bounds(p.x as int, p.y as int) {
        pick(map, w, role, pursue, p.x as int, p.y as int, 4).1
    } else {
        None
    }
}

/// The distance stored in a field at a point of the map, if the point lies on it.
fn field_at(map: &GameMap, w: Ghost<Seq<Option<EntityRecord>>>, role: Ghost<Role>, f: &Vec<Option<u32>>, x: i32, y: i32) -> (r: Option<u32>)
    requires
        map.wf(),
        field_at_depth(*map, w@, role@, f@, MAX_DEPTH as nat),
        map.spec_in_bounds(x as int, y as int),
    ensures
        r == stored(field_value(*map, w@, role@, x as int, y as int)),
{
    let c = map.point2d_to_index(Point { x, y });
    proof {
        lemma_cell_index_bounds(map.width as int, map.height as int, x as int, y as int);
    }
    f[c]
}

/// True iff a cell of distance `cand` improves on distance `best`.
fn improves_exec(pursue: bool, cand: Option<u32>, best: Option<u32>) -> (r: bool)
    ensures
        forall|c: Option<nat>, b: Option<nat>|
            cand == stored(c) && best == stored(b) && (c matches Some(v) ==> v <= u32::MAX) && (
            b matches Some(v) ==> v <= u32::MAX) ==> r == improves(pursue, c, b),
{
    match best {
        None => false,
        Some(b) => if pursue {
            match cand {
                Some(c) => c < b,
                None => false,
            }
        } else {
            match cand {
                Some(c) => c > b,
                None => true,
            }
        },
    }
}

/// The cell that an actor on `p` moves to, read from the distance field `f`
/// toward the entities with `role`.
pub fn choose_step(map: &GameMap, w: Ghost<Seq<Option<EntityRecord>>>, role: Ghost<Role>, f: &Vec<Option<u32>>, pursue: bool, p: Position) -> (r: Option<Position>)
    requires
        map.wf(),
        field_at_depth(*map, w@, role@, f@, MAX_DEPTH as nat),
    ensures
        r == next_step(*map, w@, role@, pursue, p),
{
    if !(p.x < map.width && p.y < map.height) {
        return None;
    }
    let x = p.x as i32;
    let y = p.y as i32;
    let mut best = field_at(map, w, role, f, x, y);
    let mut chosen: Option<Position> = None;
    let mut n: usize = 0;
    proof {
        lemma_dist_bound(*map, w@, role@, x as int, y as int, MAX_DEPTH as nat);
    }
    while n < 4
        invariant
            map.wf(),
            field_at_depth(*map, w@, role@, f@, MAX_DEPTH as nat),
            n <= 4,
            x == p.x,
            y == p.y,
            map.spec_in_bounds(x as int, y as int),
            ({
                let (b, ch) = pick(*map, w@, role@, pursue, x as int, y as int, n as nat);
                &&& best == stored(b)
                &&& chosen == ch
                &&& b matches Some(v) ==> v <= MAX_DEPTH
            }),
        decreases 4 - n,
    {
        let (cx, cy) = if n == 0 {
            (x, y - 1)
        } else if n == 1 {
            (x, y + 1)
        } else if n == 2 {
            (x - 1, y)
        } else {
            (x + 1, y)
        };
        assert(neighbour(x as int, y as int, n as int) == (cx as int, cy as int));
        if map.can_enter(Point { x: cx, y: cy }) {
            let d = field_at(map, w, role, f, cx, cy);
            proof {
                lemma_dist_bound(*map, w@, role@, cx as int, cy as int, MAX_DEPTH as nat);
            }
            if improves_exec(pursue, d, best) {
                best = d;
                chosen = Some(Position { x: cx as usize, y: cy as usize });
            }
        }
        n = n + 1;
    }
    chosen
}

/// A floor neighbour at distance `u` puts a cell within `u + 1` steps.
proof fn lemma_neighbour_bound(map: GameMap, w: Seq<Option<EntityRecord>>, role: Role, x: int, y: int, m: int, u: nat)
    requires
        0 <= m < 4,
        map.enterable(neighbour(x, y, m).0, neighbour(x, y, m).1),
        dist(map, w, role, neighbour(x, y, m).0, neighbour(x, y, m).1, u) is Some,
    ensures
        dist(map, w, role, x, y, u + 1) is Some,
{
}

/// No floor neighbour of a cell at distance `d > 0` is nearer than `d - 1`.
proof fn lemma_neighbour_lower(map: GameMap, w: Seq<Option<EntityRecord>>, role: Role, x: int, y: int, d: nat, m: int)
    requires
        0 <= m < 4,
        d > 0,
        field_value(map, w, role, x, y) == Some(d),
        map.enterable(neighbour(x, y, m).0, neighbour(x, y, m).1),
    ensures
        field_value(map, w, role, neighbour(x, y, m).0, neighbour(x, y, m).1) matches Some(u) ==> u >= d - 1,
{
    let (cx, cy) = neighbour(x, y, m);
    lemma_dist_exact(map, w, role, x, y, MAX_DEPTH as nat, d);
    if let Some(u) = field_value(map, w, role, cx, cy) {
        if u < d - 1 {
            lemma_dist_exact(map, w, role, cx, cy, MAX_DEPTH as nat, u);
            lemma_neighbour_bound(map, w, role, x, y, m, u);
            lemma_dist_none_below(map, w, role, x, y, d, u + 1);
        }
    }
}

/// A cell at distance `d > 0` has a floor neighbour at distance `d - 1`.
proof fn lemma_neighbour_exists(map: GameMap, w: Seq<Option<EntityRecord>>, role: Role, x: int, y: int, d: nat) -> (m: int)
    requires
        d > 0,
        field_value(map, w, role, x, y) == Some(d),
    ensures
        0 <= m < 4,
        map.enterable(neighbour(x, y, m).0, neighbour(x, y, m).1),
        field_value(map, w, role, neighbour(x, y, m).0, neighbour(x, y, m).1) == Some((d - 1) as nat),
{
    lemma_dist_exact(map, w, role, x, y, MAX_DEPTH as nat, d);
    let k = (d - 1) as nat;
    let m: int = if map.enterable(x, y - 1) && dist(map, w, role, x, y - 1, k) is Some {
        0
    } else if map.enterable(x, y + 1) && dist(map, w, role, x, y + 1, k) is Some {
        1
    } else if map.enterable(x - 1, y) && dist(map, w, role, x - 1, y, k) is Some {
        2
    } else {
        3
    };
    let (cx, cy) = neighbour(x, y, m);
    let v = dist(map, w, role, cx, cy, k)->Some_0;
    lemma_dist_bound(map, w, role, cx, cy, k);
    lemma_dist_stable(map, w, role, cx, cy, k, MAX_DEPTH as nat);
    lemma_neighbour_lower(map, w, role, x, y, d, m);
    m
}

/// While pursuing from a cell at distance `d > 0`, the best distance seen
/// stays between `d - 1` and `d`, the choice is a floor neighbour at the
/// best distance, and the best is `d - 1` once such a neighbour was seen.
proof fn lemma_pick_pursuit(map: GameMap, w: Seq<Option<EntityRecord>>, role: Role, x: int, y: int, d: nat, n: nat)
    requires
        n <= 4,
        d > 0,
        field_value(map, w, role, x, y) == Some(d),
    ensures
        ({
            let (b, ch) = pick(map, w, role, true, x, y, n);
            &&& b matches Some(v) && d - 1 <= v <= d
            &&& b != Some(d) ==> (ch matches Some(q) && b == field_value(map, w, role, q.x as int, q.y as int)
                && exists|m: int|
                0 <= m < n && map.enterable(neighbour(x, y, m).0, neighbour(x, y, m).1) && q.x == #[trigger] neighbour(x, y, m).0
                    && q.y == neighbour(x, y, m).1)
            &&& (exists|m: int|
                0 <= m < n && map.enterable(neighbour(x, y, m).0, neighbour(x, y, m).1) && field_value(
                    map,
                    w,
                    role,
                    #[trigger] neighbour(x, y, m).0,
                    neighbour(x, y, m).1,
                ) == Some((d - 1) as nat)) ==> b == Some((d - 1) as nat)
        }),
    decreases n,
{
    if n > 0 {
        lemma_pick_pursuit(map, w, role, x, y, d, (n - 1) as nat);
        let (cx, cy) = neighbour(x, y, n - 1);
        if map.enterable(cx, cy) {
            lemma_neighbour_lower(map, w, role, x, y, d, n - 1);
        }
        let (b, ch) = pick(map, w, role, true, x, y, n);
        let (b0, ch0) = pick(map, w, role, true, x, y, (n - 1) as nat);
        if b != Some(d) {
            if b != b0 {
                assert(0 <= n - 1 < n && map.enterable(neighbour(x, y, n - 1).0, neighbour(x, y, n - 1).1)
                    && ch->Some_0.x == neighbour(x, y, n - 1).0 && ch->Some_0.y == neighbour(x, y, n - 1).1);
            } else {
                let q = ch0->Some_0;
                let m0 = choose|m: int|
                    0 <= m < n - 1 && map.enterable(neighbour(x, y, m).0, neighbour(x, y, m).1) && q.x == #[trigger] neighbour(x, y, m).0
                        && q.y == neighbour(x, y, m).1;
                assert(0 <= m0 < n && map.enterable(neighbour(x, y, m0).0, neighbour(x, y, m0).1) && q.x == neighbour(x, y, m0).0
                    && q.y == neighbour(x, y, m0).1);
            }
        }
    }
}

/// Pursuit closes in: an actor at distance `d > 0` from its nearest target,
/// within the maximum depth, steps onto a floor neighbour at distance `d - 1`.
pub proof fn lemma_pursuit_step(map: GameMap, w: Seq<Option<EntityRecord>>, role: Role, p: Position, d: nat)
    requires
        map.spec_in_bounds(p.x as int, p.y as int),
        field_value(map, w, role, p.x as int, p.y as int) == Some(d),
        d > 0,
    ensures
        next_step(map, w, role, true, p) matches Some(q) && map.enterable(q.x as int, q.y as int)
            && field_value(map, w, role, q.x as int, q.y as int) == Some((d - 1) as nat)
            && ((q.x == p.x && (q.y == p.y - 1 || q.y == p.y + 1)) || (q.y == p.y && (q.x == p.x - 1 || q.x == p.x + 1))),
{
    let x = p.x as int;
    let y = p.y as int;
    let m = lemma_neighbour_exists(map, w, role, x, y, d);
    lemma_pick_pursuit(map, w, role, x, y, d, 4);
    assert(0 <= m < 4 && map.enterable(neighbour(x, y, m).0, neighbour(x, y, m).1) && field_value(
        map,
        w,
        role,
        neighbour(x, y, m).0,
        neighbour(x, y, m).1,
    ) == Some((d - 1) as nat));
}

/// An actor whose targets are all out of reach, or which stands on one,
/// does not pursue.
pub proof fn lemma_pursuit_holds(map: GameMap, w: Seq<Option<EntityRecord>>, role: Role, p: Position)
    requires
        field_value(map, w, role, p.x as int, p.y as int) is None || field_value(map, w, role, p.x as int, p.y as int)
            == Some(0nat),
    ensures
        next_step(map, w, role, true, p) is None,
{
    let x = p.x as int;
    let y = p.y as int;
    assert(forall|n: nat| n <= 4 ==> #[trigger] pick(map, w, role, true, x, y, n) == (field_value(map, w, role, x, y), None::<Position>)) by {
        assert forall|n: nat| n <= 4 implies #[trigger] pick(map, w, role, true, x, y, n) == (field_value(map, w, role, x, y), None::<Position>) by {
            lemma_pick_unchanged(map, w, role, x, y, n);
        }
    }
}

proof fn lemma_pick_unchanged(map: GameMap, w: Seq<Option<EntityRecord>>, role: Role, x: int, y: int, n: nat)
    requires
        field_value(map, w, role, x, y) is None || field_value(map, w, role, x, y) == Some(0nat),
    ensures
        pick(map, w, role, true, x, y, n) == (field_value(map, w, role, x, y), None::<Position>),
    decreases n,
{
    if n > 0 {
        lemma_pick_unchanged(map, w, role, x, y, (n - 1) as nat);
    }
}

/// The instant `interval` milliseconds after `now`, or the last instant.
pub open spec fn later(now: u64, interval: u64) -> u64 {
    if now <= u64::MAX - interval {
        (now + interval) as u64
    } else {
        u64::MAX
    }
}

/// The instant `interval` milliseconds after `now`, or the last instant.
pub fn later_exec(now: u64, interval: u64) -> (r: u64)
    ensures
        r == later(now, interval),
{
    if now <= u64::MAX - interval {
        now + interval
    } else {
        u64::MAX
    }
}

/// The move that an autonomous actor plans: a wanderer steps in the
/// direction it rolled; otherwise a hunter pursues the victims and a victim
/// flees the hunters.
pub open spec fn planned_step(map: GameMap, w: Seq<Option<EntityRecord>>, rec: EntityRecord, a: Autopilot) -> Option<Position> {
    match rec.position {
        Some(p) => if a.wander {
            step_target(p, spec_direction_of(a.roll))
        } else if rec.hunter {
            next_step(map, w, Role::Victim, true, p)
        } else if rec.victim {
            next_step(map, w, Role::Hunter, false, p)
        } else {
            None
        },
        None => None,
    }
}

/// An autonomous actor whose cooldown has run out plans its next move and
/// waits one more interval.
pub open spec fn plan_ops(map: GameMap, w: Seq<Option<EntityRecord>>, i: int, now: u64) -> Seq<Op> {
    match w[i] {
        Some(rec) => match rec.autopilot {
            Some(a) => if a.next_move_at <= now {
                seq![Op::SetAutopilot(Autopilot { next_move_at: later(now, a.interval), ..a })]
                    + match planned_step(map, w, rec, a) {
                    Some(q) => seq![Op::AddIntent(IntendsToMove(q))],
                    None => Seq::empty(),
                }
            } else {
                Seq::empty()
            },
            None => Seq::empty(),
        },
        None => Seq::empty(),
    }
}

/// The planning operations of slot `i`, given the distance fields toward
/// the victims and toward the hunters.
pub fn slot_plan_ops(world: &World, map: &GameMap, to_victims: &Vec<Option<u32>>, to_hunters: &Vec<Option<u32>>, i: usize, now: u64) -> (ops: Vec<Op>)
    requires
        map.wf(),
        i < world@.len(),
        field_at_depth(*map, world@, Role::Victim, to_victims@, MAX_DEPTH as nat),
        field_at_depth(*map, world@, Role::Hunter, to_hunters@, MAX_DEPTH as nat),
    ensures
        ops@ == plan_ops(*map, world@, i as int, now),
{
    let mut ops: Vec<Op> = Vec::new();
    if let Some(rec) = world.slots[i] {
        if let Some(a) = rec.autopilot {
            if a.next_move_at <= now {
                ops.push(Op::SetAutopilot(Autopilot { next_move_at: later_exec(now, a.interval), ..a }));
                let step = match rec.position {
                    Some(p) => if a.wander {
                        step_toward(p, direction_of(a.roll))
                    } else if rec.hunter {
                        choose_step(map, Ghost(world@), Ghost(Role::Victim), to_victims, true, p)
                    } else if rec.victim {
                        choose_step(map, Ghost(world@), Ghost(Role::Hunter), to_hunters, false, p)
                    } else {
                        None
                    },
                    None => None,
                };
                if let Some(q) = step {
                    ops.push(Op::AddIntent(IntendsToMove(q)));
                }
                assert(ops@ =~= plan_ops(*map, world@, i as int, now));
            }
        }
    }
    ops
}

} // verus!
