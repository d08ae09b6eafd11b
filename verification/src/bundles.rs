//! Entity bundles: the fixed component sets created together for each named
//! archetype. A bundle constructor always yields the complete set, so a
//! partial bundle can never enter the world.
use vstd::prelude::*;

use crate::components::AssetId;
use crate::components::Damage;
use crate::components::EntityData;
use crate::components::Explosion;
use crate::components::Flip;
use crate::components::Orientation;
use crate::components::Position;
use crate::components::ProjectileKind;
use crate::components::Render;
use crate::components::TIME_MAX;
use crate::components::TimeToLive;
use crate::components::VEL_MAX;
use crate::components::Velocity;
use crate::components::empty_entity;
use crate::components::entity_wf;
use crate::geom::Vec2;
use crate::geom::isqrt;
use crate::geom::isqrt_spec;
use crate::geom::lemma_component_le_isqrt;
use crate::geom::mul_div;
use crate::geom::mul_div_spec;
use crate::geom::vec2_in_bound;

verus! {

/// How long a projectile lives, in milliseconds.
pub const PROJECTILE_TTL: u64 = 3_000;

/// `dir` scaled to length `scale`: the integer analogue of normalising and
/// multiplying. Meaningful only for a nonzero `dir`.
pub open spec fn norm_scaled(dir: Vec2, scale: u64) -> Vec2 {
    let d = isqrt_spec(dir.x * dir.x + dir.y * dir.y);
    Vec2 {
        x: mul_div_spec(dir.x as int, scale as int, d) as i64,
        y: mul_div_spec(dir.y as int, scale as int, d) as i64,
    }
}

/// Scales a direction vector to the given length.
pub fn norm_scaled_exec(dir: Vec2, scale: u64) -> (r: Vec2)
    requires
        -2_000_000_000 <= dir.x <= 2_000_000_000,
        -2_000_000_000 <= dir.y <= 2_000_000_000,
        !(dir.x == 0 && dir.y == 0),
        scale <= VEL_MAX,
    ensures
        r == norm_scaled(dir, scale),
        -(scale as int) <= r.x <= scale as int,
        -(scale as int) <= r.y <= scale as int,
{
    proof {
        assert(0 <= dir.x * dir.x <= 4_000_000_000_000_000_000 && 0 <= dir.y * dir.y
            <= 4_000_000_000_000_000_000 && dir.x * dir.x + dir.y * dir.y
            >= 1) by (nonlinear_arith)
            requires
                -2_000_000_000 <= dir.x <= 2_000_000_000,
                -2_000_000_000 <= dir.y <= 2_000_000_000,
                !(dir.x == 0 && dir.y == 0),
        ;
    }
    let n2: u64 = ((dir.x * dir.x) as u64) + ((dir.y * dir.y) as u64);
    let d = isqrt(n2);
    proof {
        lemma_component_le_isqrt(dir.x as int, dir.y as int, d as int);
        assert(d > 0);
        assert(-4_000_000_000_000_000_000 <= dir.x * scale <= 4_000_000_000_000_000_000
            && -4_000_000_000_000_000_000 <= dir.y * scale <= 4_000_000_000_000_000_000)
            by (nonlinear_arith)
            requires
                -2_000_000_000 <= dir.x <= 2_000_000_000,
                -2_000_000_000 <= dir.y <= 2_000_000_000,
                0 <= scale <= VEL_MAX,
        ;
    }
    Vec2 { x: mul_div(dir.x, scale, d), y: mul_div(dir.y, scale, d) }
}

/// The missile bundle: the full fixed set of components a missile-class
/// projectile carries, aimed along `dir` at the given speed.
pub open spec fn missile_bundle(
    asset: AssetId,
    location: Position,
    dir: Vec2,
    speed: u64,
    projectile: ProjectileKind,
    now: u64,
) -> EntityData {
    EntityData {
        position: Some(location),
        velocity: Some(Velocity(norm_scaled(dir, speed))),
        render: Some(Render { asset, scale_milli: 1000, inital_rotation_milli: 1571 }),
        orientation: Some(Orientation(Vec2 { x: 1, y: 0 })),
        time_to_live: Some(TimeToLive { created: now, time_until_death: PROJECTILE_TTL }),
        flip: Some(Flip::Right),
        damage: Some(Damage(1)),
        projectile: Some(projectile),
        ..empty_entity()
    }
}

/// Builds a missile-class projectile at `location` heading along `dir`.
pub fn create_missile(
    asset: AssetId,
    location: Position,
    dir: Vec2,
    speed: u64,
    projectile: ProjectileKind,
    now: u64,
) -> (r: EntityData)
    requires
        vec2_in_bound(location.0),
        -2_000_000_000 <= dir.x <= 2_000_000_000,
        -2_000_000_000 <= dir.y <= 2_000_000_000,
        !(dir.x == 0 && dir.y == 0),
        speed <= VEL_MAX,
        now <= TIME_MAX,
    ensures
        r == missile_bundle(asset, location, dir, speed, projectile, now),
        entity_wf(r),
{
    let vel = norm_scaled_exec(dir, speed);
    let mut r = EntityData::empty();
    r.position = Some(location);
    r.velocity = Some(Velocity(vel));
    r.render = Some(Render { asset, scale_milli: 1000, inital_rotation_milli: 1571 });
    r.orientation = Some(Orientation(Vec2 { x: 1, y: 0 }));
    r.time_to_live = Some(TimeToLive { created: now, time_until_death: PROJECTILE_TTL });
    r.flip = Some(Flip::Right);
    r.damage = Some(Damage(1));
    r.projectile = Some(projectile);
    r
}

/// The bullet bundle: like a missile but with no Damage component and the
/// Bullet projectile tag; it flies from `location` toward `target`.
pub open spec fn bullet_bundle(location: Position, target: Position, speed: u64, now: u64) -> EntityData {
    let dir = Vec2 { x: (target.0.x - location.0.x) as i64, y: (target.0.y - location.0.y) as i64 };
    EntityData {
        position: Some(location),
        velocity: Some(Velocity(norm_scaled(dir, speed))),
        render: Some(Render { asset: AssetId::Missile, scale_milli: 200, inital_rotation_milli: 1571 }),
        orientation: Some(Orientation(Vec2 { x: 1, y: 0 })),
        time_to_live: Some(TimeToLive { created: now, time_until_death: PROJECTILE_TTL }),
        flip: Some(Flip::Right),
        projectile: Some(ProjectileKind::Bullet),
        ..empty_entity()
    }
}

/// Builds a bullet flying from `location` toward a distinct `target`.
pub fn create_bullet(location: Position, target: Position, speed: u64, now: u64) -> (r: EntityData)
    requires
        vec2_in_bound(location.0),
        vec2_in_bound(target.0),
        location.0 != target.0,
        speed <= VEL_MAX,
        now <= TIME_MAX,
    ensures
        r == bullet_bundle(location, target, speed, now),
        entity_wf(r),
{
    let dir = Vec2 { x: target.0.x - location.0.x, y: target.0.y - location.0.y };
    let vel = norm_scaled_exec(dir, speed);
    let mut r = EntityData::empty();
    r.position = Some(location);
    r.velocity = Some(Velocity(vel));
    r.render = Some(Render { asset: AssetId::Missile, scale_milli: 200, inital_rotation_milli: 1571 });
    r.orientation = Some(Orientation(Vec2 { x: 1, y: 0 }));
    r.time_to_live = Some(TimeToLive { created: now, time_until_death: PROJECTILE_TTL });
    r.flip = Some(Flip::Right);
    r.projectile = Some(ProjectileKind::Bullet);
    r
}

/// Full radius of the visual explosion spawned at an impact, in thousandths
/// of a unit (25 world units).
pub const EXPLOSION_MAX_RADIUS_MILLI: u64 = 25_000;

/// The explosion bundle spawned at an impact point: radius starts at zero.
pub open spec fn explosion_bundle(at: Position) -> EntityData {
    EntityData {
        position: Some(at),
        explosion: Some(Explosion { radius_milli: 0, max_radius_milli: EXPLOSION_MAX_RADIUS_MILLI }),
        ..empty_entity()
    }
}

/// Builds the decaying-explosion entity placed at an impact point.
pub fn create_explosion(at: Position) -> (r: EntityData)
    requires
        vec2_in_bound(at.0),
    ensures
        r == explosion_bundle(at),
        entity_wf(r),
{
    let mut r = EntityData::empty();
    r.position = Some(at);
    r.explosion = Some(
        Explosion { radius_milli: 0, max_radius_milli: EXPLOSION_MAX_RADIUS_MILLI },
    );
    r
}

} // verus!
