use pas_cman_ipl::command::{CommandBuffer, Op};
use pas_cman_ipl::components::{Position, Role};
use pas_cman_ipl::world::{Entity, EntityRecord, Tags, World};

fn entity_at(x: usize) -> EntityRecord {
    let mut r = EntityRecord::empty();
    r.position = Some(Position { x, y: 0 });
    r
}

#[test]
fn mutations_wait_for_the_flush() {
    let mut w = World::new();
    let a = w.push(entity_at(0));
    let mut cmd = CommandBuffer::new();
    cmd.push(a, Op::SetPosition(Position { x: 5, y: 0 }));
    assert_eq!(w.get(a).unwrap().position, Some(Position { x: 0, y: 0 }));
    cmd.flush(&mut w);
    assert_eq!(w.get(a).unwrap().position, Some(Position { x: 5, y: 0 }));
    assert!(cmd.commands.is_empty());
}

#[test]
fn mutating_a_destroyed_entity_is_a_no_op() {
    let mut w = World::new();
    let a = w.push(entity_at(0));
    let b = w.push(entity_at(1));
    let mut cmd = CommandBuffer::new();
    cmd.push(a, Op::Destroy);
    cmd.push(a, Op::SetPosition(Position { x: 9, y: 9 }));
    cmd.push(a, Op::AddRole(Role::Hunter));
    cmd.push(Entity(17), Op::MarkDead);
    cmd.push(b, Op::AddRole(Role::Victim));
    cmd.flush(&mut w);
    assert!(w.get(a).is_none());
    assert!(w.get(Entity(17)).is_none());
    assert_eq!(w.len(), 2);
    let rb = w.get(b).unwrap();
    assert!(rb.victim && !rb.hunter);
    assert_eq!(rb.position, Some(Position { x: 1, y: 0 }));
}

#[test]
fn clear_empties_the_world() {
    let mut w = World::new();
    w.push(entity_at(0));
    w.push(entity_at(1));
    w.remove(Entity(0));
    assert!(w.get(Entity(0)).is_none());
    w.clear();
    assert_eq!(w.len(), 0);
}

#[test]
fn query_by_required_and_forbidden_tags() {
    let mut w = World::new();
    let mut hero = entity_at(0);
    hero.hero = true;
    hero.victim = true;
    let mut villain = entity_at(1);
    villain.villain = true;
    villain.hunter = true;
    let mut dead_villain = villain;
    dead_villain.dead = true;
    let h = w.push(hero);
    let v = w.push(villain);
    let d = w.push(dead_villain);
    let gone = w.push(villain);
    w.remove(gone);
    let hunters = Tags { hunter: true, ..Tags::default() };
    let dead = Tags { dead: true, ..Tags::default() };
    assert_eq!(w.query(hunters, Tags::default()), vec![v, d]);
    assert_eq!(w.query(hunters, dead), vec![v]);
    let placed = Tags { position: true, ..Tags::default() };
    assert_eq!(w.query(placed, Tags::default()), vec![h, v, d]);
    assert_eq!(w.query(placed, Tags { victim: true, hunter: true, ..Tags::default() }), vec![]);
}
