use super_simple::components::{
    DeltaTime, Enemy, EntityData, Position, ProjectileKind, Recover, Shoot,
};
use super_simple::geom::Vec2;
use super_simple::pipeline::tick;
use super_simple::systems::{move_torwards, update_destination};
use super_simple::components::{MoveTorwards, Speed, Flip};
use super_simple::shoot::shoot_at_enemy;
use super_simple::spawn::{spawn_towers, EnemySpawner};
use super_simple::waypoints::{Sides, Waypoints};
use super_simple::world::World;

fn enemy_at(x: i64, y: i64, health: i64) -> EntityData {
    let mut d = EntityData::empty();
    d.position = Some(Position(Vec2 { x, y }));
    d.enemy = Some(Enemy { health });
    d
}

fn tower_at(x: i64, y: i64, last_action: Option<u64>, cooldown: u64) -> EntityData {
    let mut d = EntityData::empty();
    d.position = Some(Position(Vec2 { x, y }));
    d.shoot = Some(Shoot { recover: Recover { last_action, recover: cooldown } });
    d
}

fn test_sides() -> Sides {
    Sides::new(1000, 1000, 100, 5)
}

#[test]
fn waypoint_line_is_evenly_spaced() {
    let w = Waypoints::line(100, 1000, 100, 5);
    // step is (1000 - 200) / 5 = 160, starting one step below the inset
    let expected: Vec<Vec2> = vec![260, 420, 580, 740, 900]
        .into_iter()
        .map(|y| Vec2 { x: 100, y })
        .collect();
    assert_eq!(w.points, expected);
}

#[test]
fn retarget_alternates_sides() {
    let sides = test_sides();
    let m = sides.get_random_point(0);
    assert_eq!(m.side, 1);
    assert_eq!(m.destination.x, 900);
    let back = sides.get_random_point(m.side);
    assert_eq!(back.side, 0);
    assert_eq!(back.destination.x, 100);
}

#[test]
fn wave_spawner_produces_exactly_the_configured_grunts() {
    let sides = test_sides();
    let mut w = World::new();
    let mut spawner = EnemySpawner { enemies_to_spawn: 5 };
    spawner.spawn_enemies(&mut w, &sides);
    assert_eq!(w.entity_count(), 5);
    for id in 0..5 {
        let g = w.get(id).unwrap();
        assert_eq!(g.enemy.unwrap().health, 100);
        let m = g.move_torwards.unwrap();
        assert!(m.side < 2);
        // a valid waypoint target: on one of the two lines
        assert!(m.destination.x == 100 || m.destination.x == 900);
        let sp = g.speed.unwrap().0;
        assert!((150..200).contains(&sp));
        assert!(g.position.is_some() && g.render.is_some() && g.flip.is_some());
    }
}

#[test]
fn wave_spawner_waits_while_any_enemy_lives() {
    let sides = test_sides();
    let mut w = World::new();
    w.insert_entity(enemy_at(1, 1, 40));
    let mut spawner = EnemySpawner { enemies_to_spawn: 5 };
    spawner.spawn_enemies(&mut w, &sides);
    assert_eq!(w.entity_count(), 1);
}

#[test]
fn towers_stand_at_the_four_corners() {
    let mut w = World::new();
    spawn_towers(&mut w, 1000, 800, 50);
    assert_eq!(w.entity_count(), 4);
    let corners: Vec<Vec2> = (0..4).map(|i| w.get(i).unwrap().position.unwrap().0).collect();
    assert_eq!(
        corners,
        vec![
            Vec2 { x: 50, y: 50 },
            Vec2 { x: 950, y: 50 },
            Vec2 { x: 950, y: 750 },
            Vec2 { x: 50, y: 750 },
        ]
    );
    for i in 0..4 {
        let t = w.get(i).unwrap();
        assert_eq!(t.shoot.unwrap().recover.recover, 250);
        assert!(t.shoot.unwrap().recover.last_action.is_none());
    }
}

#[test]
fn blocked_emitter_fires_nothing() {
    let mut w = World::new();
    w.insert_entity(tower_at(0, 0, Some(1000), 250));
    w.insert_entity(enemy_at(50, 0, 100));
    shoot_at_enemy(&mut w, 1100);
    assert_eq!(w.entity_count(), 2);
    // the cooldown state is untouched by a blocked attempt
    assert_eq!(w.get(0).unwrap().shoot.unwrap().recover.last_action, Some(1000));
}

#[test]
fn ready_emitter_fires_one_aimed_missile_per_enemy() {
    let mut w = World::new();
    w.insert_entity(tower_at(0, 0, None, 250));
    w.insert_entity(enemy_at(50, 0, 100));
    shoot_at_enemy(&mut w, 1000);
    assert_eq!(w.entity_count(), 3);
    assert_eq!(w.get(0).unwrap().shoot.unwrap().recover.last_action, Some(1000));
    let m = w.get(2).unwrap();
    // spawned one muzzle-offset in front, heading at the enemy
    assert_eq!(m.position.unwrap().0, Vec2 { x: 30, y: 0 });
    assert_eq!(m.velocity.unwrap().0, Vec2 { x: 700, y: 0 });
    assert_eq!(m.projectile.unwrap(), ProjectileKind::SpawnMissile);
}

#[test]
fn ready_emitter_fires_at_most_ten() {
    let mut w = World::new();
    w.insert_entity(tower_at(0, 0, None, 250));
    for i in 0..15 {
        w.insert_entity(enemy_at(50 + i, 100, 100));
    }
    shoot_at_enemy(&mut w, 1000);
    assert_eq!(w.entity_count(), 1 + 15 + 10);
}

#[test]
fn full_tick_runs_all_systems_in_order() {
    let sides = test_sides();
    let mut w = World::new();
    spawn_towers(&mut w, 1000, 1000, 50);
    let mut spawner = EnemySpawner { enemies_to_spawn: 3 };
    tick(&mut w, &mut spawner, &sides, DeltaTime(16), 1_000);
    // the wave spawned before anything else ran
    let mut enemies = 0;
    for id in 0..w.entity_count() {
        if let Some(d) = w.get(id) {
            if d.enemy.is_some() {
                enemies += 1;
            }
        }
    }
    assert_eq!(enemies, 3);
    tick(&mut w, &mut spawner, &sides, DeltaTime(16), 1_016);
    assert_eq!(spawner.enemies_to_spawn, 3);
}

#[test]
fn seeker_standing_on_its_destination_stays_put() {
    let mut w = World::new();
    let mut d = EntityData::empty();
    d.position = Some(Position(Vec2 { x: 7, y: 7 }));
    d.move_torwards = Some(MoveTorwards { destination: Vec2 { x: 7, y: 7 }, side: 0 });
    d.speed = Some(Speed(150));
    d.flip = Some(Flip::Left);
    w.insert_entity(d);
    move_torwards(&mut w, DeltaTime(1000));
    let e = w.get(0).unwrap();
    assert_eq!(e.position.unwrap().0, Vec2 { x: 7, y: 7 });
    assert!(matches!(e.flip.unwrap(), Flip::Left));
}

#[test]
fn reaching_the_destination_retargets_the_opposite_side() {
    let sides = test_sides();
    let mut w = World::new();
    let mut d = EntityData::empty();
    d.position = Some(Position(Vec2 { x: 100, y: 260 }));
    d.move_torwards = Some(MoveTorwards { destination: Vec2 { x: 100, y: 260 }, side: 0 });
    w.insert_entity(d);
    update_destination(&mut w, &sides);
    let m = w.get(0).unwrap().move_torwards.unwrap();
    assert_eq!(m.side, 1);
    assert_eq!(m.destination.x, 900);

    // a seeker still far from its destination keeps it
    let mut w2 = World::new();
    let mut d2 = EntityData::empty();
    d2.position = Some(Position(Vec2 { x: 0, y: 0 }));
    d2.move_torwards = Some(MoveTorwards { destination: Vec2 { x: 100, y: 260 }, side: 0 });
    w2.insert_entity(d2);
    update_destination(&mut w2, &sides);
    let m2 = w2.get(0).unwrap().move_torwards.unwrap();
    assert_eq!(m2.destination, Vec2 { x: 100, y: 260 });
    assert_eq!(m2.side, 0);
}

#[test]
fn tick_on_an_empty_world_only_spawns_the_wave() {
    let sides = test_sides();
    let mut w = World::new();
    let mut spawner = EnemySpawner { enemies_to_spawn: 0 };
    tick(&mut w, &mut spawner, &sides, DeltaTime(16), 0);
    assert_eq!(w.entity_count(), 0);
}
