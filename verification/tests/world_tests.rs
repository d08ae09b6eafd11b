use super_simple::components::{EntityData, Enemy, Kind, Position};
use super_simple::geom::Vec2;
use super_simple::world::{Access, Cap, CapSet, MutationQueue, World};

fn enemy_at(x: i64, y: i64, health: i64) -> EntityData {
    let mut d = EntityData::empty();
    d.position = Some(Position(Vec2 { x, y }));
    d.enemy = Some(Enemy { health });
    d
}

#[test]
fn insert_and_get() {
    let mut w = World::new();
    assert_eq!(w.entity_count(), 0);
    let id = w.insert_entity(enemy_at(1, 2, 50));
    assert_eq!(id, 0);
    assert_eq!(w.entity_count(), 1);
    let d = w.get(0).unwrap();
    assert_eq!(d.position.unwrap().0, Vec2 { x: 1, y: 2 });
    assert_eq!(d.enemy.unwrap().health, 50);
    assert!(w.get(1).is_none());
}

#[test]
fn remove_is_idempotent() {
    let mut w = World::new();
    let id = w.insert_entity(enemy_at(0, 0, 10));
    w.remove(id);
    assert!(w.get(id).is_none());
    // removing again, or removing an unknown id, is a silent no-op
    w.remove(id);
    w.remove(42);
    assert!(w.get(id).is_none());
    assert_eq!(w.entity_count(), 1);
}

#[test]
fn removed_ids_are_never_reused() {
    let mut w = World::new();
    let a = w.insert_entity(enemy_at(0, 0, 1));
    w.remove(a);
    let b = w.insert_entity(enemy_at(5, 5, 2));
    assert_ne!(a, b);
    assert!(w.get(a).is_none());
    assert_eq!(w.get(b).unwrap().enemy.unwrap().health, 2);
}

#[test]
fn capset_rejects_duplicate_kinds() {
    let ok = CapSet::new(vec![
        Cap { kind: Kind::Position, access: Access::Read },
        Cap { kind: Kind::Enemy, access: Access::Write },
    ]);
    assert!(ok.is_some());
    let dup = CapSet::new(vec![
        Cap { kind: Kind::Enemy, access: Access::Write },
        Cap { kind: Kind::Enemy, access: Access::Write },
    ]);
    assert!(dup.is_none());
}

#[test]
fn query_yields_matching_ids_in_order() {
    let mut w = World::new();
    let mut pos_only = EntityData::empty();
    pos_only.position = Some(Position(Vec2 { x: 9, y: 9 }));
    w.insert_entity(pos_only);
    w.insert_entity(enemy_at(1, 1, 10));
    w.insert_entity(enemy_at(2, 2, 20));
    let caps = CapSet::new(vec![
        Cap { kind: Kind::Position, access: Access::Read },
        Cap { kind: Kind::Enemy, access: Access::Write },
    ])
    .unwrap();
    let ids = w.query(&caps);
    assert_eq!(ids, vec![1, 2]);
    // a query never fails: an empty result is a valid outcome
    let caps2 = CapSet::new(vec![Cap { kind: Kind::Explosion, access: Access::Read }]).unwrap();
    assert_eq!(w.query(&caps2), Vec::<usize>::new());
}

#[test]
fn mutation_queue_applies_removals_before_creations() {
    let mut w = World::new();
    let a = w.insert_entity(enemy_at(0, 0, 1));
    let mut q = MutationQueue::new();
    q.remove_entity(a);
    q.spawn(enemy_at(7, 7, 77));
    q.apply(&mut w);
    assert!(w.get(a).is_none());
    // the creation landed on a fresh id, not on the removed one
    assert_eq!(w.entity_count(), 2);
    assert_eq!(w.get(1).unwrap().enemy.unwrap().health, 77);
}

#[test]
fn empty_batch_is_a_no_op() {
    let mut w = World::new();
    w.insert_entity(enemy_at(3, 4, 5));
    let q = MutationQueue::new();
    q.apply(&mut w);
    assert_eq!(w.entity_count(), 1);
    assert_eq!(w.get(0).unwrap().enemy.unwrap().health, 5);
}

#[test]
fn geom_isqrt_and_dist() {
    assert_eq!(super_simple::geom::isqrt(0), 0);
    assert_eq!(super_simple::geom::isqrt(1), 1);
    assert_eq!(super_simple::geom::isqrt(99), 9);
    assert_eq!(super_simple::geom::isqrt(100), 10);
    let a = Vec2 { x: 100, y: 100 };
    let b = Vec2 { x: 105, y: 100 };
    assert_eq!(super_simple::geom::dist_sq(a, b), 25);
}
