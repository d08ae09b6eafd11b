use super_simple::components::{
    DeltaTime, Enemy, EntityData, Explosion, Flip, MoveTorwards, Orientation, Position, Recover,
    Speed, TimeToLive, Velocity,
};
use super_simple::geom::Vec2;
use super_simple::systems::{
    animate_explosion, kill_enemies, kill_entities, move_torwards, move_velocity,
    update_orientation,
};
use super_simple::world::World;

#[test]
fn velocity_integration_moves_by_delta_seconds() {
    let mut w = World::new();
    let mut d = EntityData::empty();
    d.position = Some(Position(Vec2 { x: 0, y: 0 }));
    d.velocity = Some(Velocity(Vec2 { x: 100, y: -50 }));
    w.insert_entity(d);
    move_velocity(&mut w, DeltaTime(500));
    let p = w.get(0).unwrap().position.unwrap().0;
    assert_eq!(p, Vec2 { x: 50, y: -25 });
}

#[test]
fn waypoint_seeking_steps_toward_destination_and_faces_it() {
    let mut w = World::new();
    let mut d = EntityData::empty();
    d.position = Some(Position(Vec2 { x: 0, y: 0 }));
    d.move_torwards = Some(MoveTorwards { destination: Vec2 { x: 100, y: 0 }, side: 0 });
    d.speed = Some(Speed(150));
    d.flip = Some(Flip::Left);
    w.insert_entity(d);
    move_torwards(&mut w, DeltaTime(1000));
    let e = w.get(0).unwrap();
    assert_eq!(e.position.unwrap().0, Vec2 { x: 150, y: 0 });
    assert!(matches!(e.flip.unwrap(), Flip::Right));

    // moving left flips the sprite
    let mut w2 = World::new();
    let mut d2 = EntityData::empty();
    d2.position = Some(Position(Vec2 { x: 0, y: 0 }));
    d2.move_torwards = Some(MoveTorwards { destination: Vec2 { x: -100, y: 0 }, side: 0 });
    d2.speed = Some(Speed(100));
    d2.flip = Some(Flip::Right);
    w2.insert_entity(d2);
    move_torwards(&mut w2, DeltaTime(1000));
    let e2 = w2.get(0).unwrap();
    assert_eq!(e2.position.unwrap().0, Vec2 { x: -100, y: 0 });
    assert!(matches!(e2.flip.unwrap(), Flip::Left));
}

#[test]
fn lifetime_expiry_removes_exactly_the_expired() {
    let mut w = World::new();
    let mut d = EntityData::empty();
    d.position = Some(Position(Vec2 { x: 0, y: 0 }));
    d.time_to_live = Some(TimeToLive { created: 0, time_until_death: 100 });
    w.insert_entity(d);
    kill_entities(&mut w, 99);
    assert!(w.get(0).is_some());
    kill_entities(&mut w, 100);
    assert!(w.get(0).is_none());
}

#[test]
fn enemy_death_cleanup_removes_at_zero_health_never_before() {
    let mut w = World::new();
    let mut alive = EntityData::empty();
    alive.enemy = Some(Enemy { health: 1 });
    w.insert_entity(alive);
    let mut dead = EntityData::empty();
    dead.enemy = Some(Enemy { health: 0 });
    w.insert_entity(dead);
    let mut overkilled = EntityData::empty();
    overkilled.enemy = Some(Enemy { health: -30 });
    w.insert_entity(overkilled);
    kill_enemies(&mut w);
    assert!(w.get(0).is_some());
    assert!(w.get(1).is_none());
    assert!(w.get(2).is_none());
}

#[test]
fn orientation_follows_velocity_direction() {
    let mut w = World::new();
    let mut d = EntityData::empty();
    d.velocity = Some(Velocity(Vec2 { x: 3, y: 4 }));
    d.orientation = Some(Orientation(Vec2 { x: 1, y: 0 }));
    w.insert_entity(d);
    let mut still = EntityData::empty();
    still.velocity = Some(Velocity(Vec2 { x: 0, y: 0 }));
    still.orientation = Some(Orientation(Vec2 { x: 7, y: 7 }));
    w.insert_entity(still);
    update_orientation(&mut w);
    assert_eq!(w.get(0).unwrap().orientation.unwrap().0, Vec2 { x: 3, y: 4 });
    // a zero velocity has no direction: the facing is kept
    assert_eq!(w.get(1).unwrap().orientation.unwrap().0, Vec2 { x: 7, y: 7 });
}

#[test]
fn explosion_grows_and_is_removed_the_tick_it_reaches_max() {
    let mut w = World::new();
    let mut d = EntityData::empty();
    d.position = Some(Position(Vec2 { x: 0, y: 0 }));
    d.explosion = Some(Explosion { radius_milli: 0, max_radius_milli: 25_000 });
    w.insert_entity(d);
    // 25 milli-units per millisecond: 100 ms grows the radius by 2500
    animate_explosion(&mut w, DeltaTime(100));
    let e = w.get(0).unwrap().explosion.unwrap();
    assert_eq!(e.radius_milli, 2_500);
    // 900 ms more crosses the threshold exactly; removed the same tick
    animate_explosion(&mut w, DeltaTime(900));
    assert!(w.get(0).is_none());
}

#[test]
fn recover_allows_action_only_after_cooldown() {
    let mut r = Recover::new(250);
    assert!(r.action(1000).is_some());
    assert!(r.action(1100).is_none());
    assert!(r.action(1249).is_none());
    assert!(r.action(1250).is_some());
    assert_eq!(r.last_action, Some(1250));
    assert_eq!(r.recover, 250);
}
