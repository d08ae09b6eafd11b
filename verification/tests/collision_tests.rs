use super_simple::bundles::{create_bullet, create_missile};
use super_simple::components::{
    AssetId, Damage, Enemy, EntityData, Position, ProjectileKind,
};
use super_simple::geom::Vec2;
use super_simple::pipeline::{SpawnMissileSystem, StandardMissileSystem};
use super_simple::world::World;

fn enemy_at(x: i64, y: i64, health: i64) -> EntityData {
    let mut d = EntityData::empty();
    d.position = Some(Position(Vec2 { x, y }));
    d.enemy = Some(Enemy { health });
    d
}

fn projectile_at(x: i64, y: i64, damage: u64, kind: ProjectileKind) -> EntityData {
    let mut d = EntityData::empty();
    d.position = Some(Position(Vec2 { x, y }));
    d.damage = Some(Damage(damage));
    d.projectile = Some(kind);
    d
}

#[test]
fn resolver_scenario_hit_damages_consumes_and_explodes() {
    let mut w = World::new();
    w.insert_entity(enemy_at(100, 100, 100));
    w.insert_entity(projectile_at(105, 100, 10, ProjectileKind::StandardMissile));
    StandardMissileSystem::new().hit(&mut w, 0);
    // enemy health 100 - 10, the projectile consumed, one explosion at the
    // impact point with radius zero
    assert_eq!(w.get(0).unwrap().enemy.unwrap().health, 90);
    assert!(w.get(1).is_none());
    let ex = w.get(2).unwrap();
    assert_eq!(ex.position.unwrap().0, Vec2 { x: 105, y: 100 });
    let e = ex.explosion.unwrap();
    assert_eq!(e.radius_milli, 0);
    assert_eq!(e.max_radius_milli, 25_000);
    assert_eq!(w.entity_count(), 3);
}

#[test]
fn resolver_hit_test_is_inclusive_at_the_radius() {
    let mut w = World::new();
    w.insert_entity(enemy_at(0, 0, 100));
    w.insert_entity(projectile_at(10, 0, 5, ProjectileKind::StandardMissile));
    w.insert_entity(projectile_at(11, 0, 5, ProjectileKind::StandardMissile));
    StandardMissileSystem::new().hit(&mut w, 0);
    // distance 10 hits, distance 11 misses
    assert_eq!(w.get(0).unwrap().enemy.unwrap().health, 95);
    assert!(w.get(1).is_none());
    assert!(w.get(2).is_some());
}

#[test]
fn two_projectiles_hit_the_same_enemy_independently() {
    let mut w = World::new();
    w.insert_entity(enemy_at(0, 0, 100));
    w.insert_entity(projectile_at(3, 0, 10, ProjectileKind::StandardMissile));
    w.insert_entity(projectile_at(-3, 0, 7, ProjectileKind::StandardMissile));
    StandardMissileSystem::new().hit(&mut w, 0);
    assert_eq!(w.get(0).unwrap().enemy.unwrap().health, 83);
    assert!(w.get(1).is_none());
    assert!(w.get(2).is_none());
}

#[test]
fn resolver_picks_first_enemy_by_id_not_nearest() {
    let mut w = World::new();
    w.insert_entity(enemy_at(8, 0, 100));
    w.insert_entity(enemy_at(1, 0, 100));
    w.insert_entity(projectile_at(0, 0, 10, ProjectileKind::StandardMissile));
    StandardMissileSystem::new().hit(&mut w, 0);
    assert_eq!(w.get(0).unwrap().enemy.unwrap().health, 90);
    assert_eq!(w.get(1).unwrap().enemy.unwrap().health, 100);
}

#[test]
fn resolver_is_idempotent_on_a_cleared_kind() {
    let mut w = World::new();
    w.insert_entity(enemy_at(100, 100, 100));
    w.insert_entity(projectile_at(105, 100, 10, ProjectileKind::StandardMissile));
    // a surviving projectile far from every enemy
    w.insert_entity(projectile_at(500, 500, 10, ProjectileKind::StandardMissile));
    StandardMissileSystem::new().hit(&mut w, 0);
    let count_after_first = w.entity_count();
    let health_after_first = w.get(0).unwrap().enemy.unwrap().health;
    StandardMissileSystem::new().hit(&mut w, 0);
    assert_eq!(w.entity_count(), count_after_first);
    assert_eq!(w.get(0).unwrap().enemy.unwrap().health, health_after_first);
    assert!(w.get(2).is_some());
}

#[test]
fn self_replicating_projectile_bursts_into_twelve_children() {
    let mut w = World::new();
    w.insert_entity(enemy_at(100, 100, 100));
    w.insert_entity(projectile_at(105, 100, 10, ProjectileKind::SpawnMissile));
    SpawnMissileSystem::new().hit(&mut w, 0);
    // enemy damaged, projectile gone, one explosion, twelve children
    assert_eq!(w.get(0).unwrap().enemy.unwrap().health, 90);
    assert!(w.get(1).is_none());
    assert!(w.get(2).unwrap().explosion.is_some());
    assert_eq!(w.entity_count(), 2 + 1 + 12);
    let mut velocities = Vec::new();
    let mut positions = Vec::new();
    for id in 3..15 {
        let c = w.get(id).unwrap();
        assert_eq!(c.projectile.unwrap(), ProjectileKind::StandardMissile);
        // each child stands the fixed offset away from the impact point,
        // in the direction it heads
        let p = c.position.unwrap().0;
        assert_eq!((p.x - 105).abs() + (p.y - 100).abs(), 15);
        assert!(c.damage.is_some());
        assert!(c.time_to_live.is_some());
        let v = c.velocity.unwrap().0;
        assert!(v.x != 0 || v.y != 0);
        // the heading points outward: same signs as the placement offset
        assert_eq!(v.x.signum(), (p.x - 105).signum());
        assert_eq!(v.y.signum(), (p.y - 100).signum());
        velocities.push(v);
        positions.push(p);
    }
    // the children fan outward at equal spacing: all twelve are distinct
    for a in 0..12 {
        for b in (a + 1)..12 {
            assert_ne!(velocities[a], velocities[b]);
            assert_ne!(positions[a], positions[b]);
        }
    }
}

#[test]
fn burst_children_hit_as_plain_missiles_next_pass() {
    let mut w = World::new();
    w.insert_entity(enemy_at(100, 100, 100));
    w.insert_entity(projectile_at(105, 100, 10, ProjectileKind::SpawnMissile));
    SpawnMissileSystem::new().hit(&mut w, 0);
    // children fan out one offset from the impact point; some land within
    // radius of the enemy, each carries damage 1, and the first standard
    // pass hits with one of them
    StandardMissileSystem::new().hit(&mut w, 0);
    assert!(w.get(0).unwrap().enemy.unwrap().health < 90);
}

#[test]
fn create_missile_bundle_is_complete() {
    let m = create_missile(
        AssetId::Missile,
        Position(Vec2 { x: 0, y: 0 }),
        Vec2 { x: 1, y: 0 },
        700,
        ProjectileKind::SpawnMissile,
        5_000,
    );
    assert_eq!(m.velocity.unwrap().0, Vec2 { x: 700, y: 0 });
    assert_eq!(m.damage.unwrap().0, 1);
    let ttl = m.time_to_live.unwrap();
    assert_eq!(ttl.created, 5_000);
    assert_eq!(ttl.time_until_death, 3_000);
    assert_eq!(m.projectile.unwrap(), ProjectileKind::SpawnMissile);
    assert!(m.orientation.is_some() && m.flip.is_some() && m.render.is_some());
    assert!(m.enemy.is_none() && m.shoot.is_none() && m.explosion.is_none());
}

#[test]
fn create_bullet_carries_no_damage() {
    let b = create_bullet(
        Position(Vec2 { x: 0, y: 0 }),
        Position(Vec2 { x: 0, y: 50 }),
        400,
        0,
    );
    assert_eq!(b.velocity.unwrap().0, Vec2 { x: 0, y: 400 });
    assert_eq!(b.projectile.unwrap(), ProjectileKind::Bullet);
    assert!(b.damage.is_none());
}
