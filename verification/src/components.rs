//! Component kinds attached to entities, the per-entity component record,
//! and the fixed bundles (grunt, tower, missile, bullet, explosion) that
//! gameplay systems create as a whole.
//!
//! Times are wall-clock milliseconds handed in by the driver, never tick
//! counts, so cooldowns and lifetimes are frame-rate independent. A facing
//! angle is represented by its direction vector; the rendering collaborator
//! derives the angle itself.
use vstd::prelude::*;

use crate::geom::Vec2;
use crate::geom::vec2_in_bound;

verus! {

/// Velocities and speeds are bounded (world units per second) so that a
/// movement step over one tick fits comfortably in an `i64`.
pub const VEL_MAX: i64 = 1_000_000;

/// Upper bound on timestamps and durations, in milliseconds.
pub const TIME_MAX: u64 = 1_000_000_000_000_000;

/// Upper bound on a projectile's damage and on an explosion radius
/// (radii are measured in thousandths of a world unit).
pub const DMG_MAX: u64 = 1_000_000_000;

/// Upper bound on `max_radius_milli` of an explosion.
pub const RADIUS_MAX: u64 = 1_000_000_000_000;

/// Where an entity stands.
#[derive(Clone, Copy, PartialEq, Eq, Structural, Debug)]
pub struct Position(pub Vec2);

/// Straight-line motion in world units per second.
#[derive(Clone, Copy, PartialEq, Eq, Structural, Debug)]
pub struct Velocity(pub Vec2);

/// Scalar magnitude, world units per second, for waypoint seekers.
#[derive(Clone, Copy, PartialEq, Eq, Structural, Debug)]
pub struct Speed(pub u64);

/// Health; the entity is eligible for removal once it drops to zero or below.
#[derive(Clone, Copy, PartialEq, Eq, Structural, Debug)]
pub struct Enemy {
    pub health: i64,
}

/// A growing blast ring; radii in thousandths of a world unit.
#[derive(Clone, Copy, PartialEq, Eq, Structural, Debug)]
pub struct Explosion {
    pub radius_milli: u64,
    pub max_radius_milli: u64,
}

/// Amount subtracted from an enemy's health on a confirmed hit.
#[derive(Clone, Copy, PartialEq, Eq, Structural, Debug)]
pub struct Damage(pub u64);

/// Creation instant plus how long the holder may live, both in milliseconds.
#[derive(Clone, Copy, PartialEq, Eq, Structural, Debug)]
pub struct TimeToLive {
    pub created: u64,
    pub time_until_death: u64,
}

/// Asset reference consumed only by the rendering collaborator.
#[derive(Clone, Copy, PartialEq, Eq, Structural, Debug)]
pub enum AssetId {
    Grunt,
    Missile,
    SmallMissile,
    Tower,
    Explosion,
}

/// Draw settings: scale in thousandths, initial rotation in milliradians.
/// Consumed only by the rendering collaborator.
#[derive(Clone, Copy, PartialEq, Eq, Structural, Debug)]
pub struct Render {
    pub asset: AssetId,
    pub scale_milli: u64,
    pub inital_rotation_milli: i64,
}

/// Waypoint target plus the index of the side it lies on, used to alternate
/// sides on re-target.
#[derive(Clone, Copy, PartialEq, Eq, Structural, Debug)]
pub struct MoveTorwards {
    pub destination: Vec2,
    pub side: usize,
}

/// Facing, as the direction vector whose angle the renderer draws.
#[derive(Clone, Copy, PartialEq, Eq, Structural, Debug)]
pub struct Orientation(pub Vec2);

/// Two-valued facing flag derived from movement direction.
#[derive(Clone, Copy, PartialEq, Eq, Structural, Debug)]
pub enum Flip {
    Left,
    Right,
}

/// Cooldown state: the last time the action succeeded, if ever, and the
/// cooldown duration, both in milliseconds.
#[derive(Clone, Copy, PartialEq, Eq, Structural, Debug)]
pub struct Recover {
    pub last_action: Option<u64>,
    pub recover: u64,
}

/// The cooldown allows an action at `now`: either no action was ever taken,
/// or the cooldown has elapsed since the last one.
pub open spec fn recover_ready(r: Recover, now: u64) -> bool {
    match r.last_action {
        Option::None => true,
        Option::Some(last) => now >= last + r.recover,
    }
}

impl Recover {
    pub fn new(recover: u64) -> (r: Recover)
        ensures
            r.last_action is None,
            r.recover == recover,
    {
        Recover { last_action: None, recover }
    }

    /// Attempt the cooldown-guarded action at instant `now`: succeeds and
    /// records `now` exactly when the cooldown permits it.
    pub fn action(&mut self, now: u64) -> (r: Option<()>)
        requires
            old(self).recover <= TIME_MAX,
            now <= TIME_MAX,
            match old(self).last_action {
                Option::None => true,
                Option::Some(last) => last <= TIME_MAX,
            },
        ensures
            r is Some <==> recover_ready(*old(self), now),
            recover_ready(*old(self), now) ==> *final(self) == (Recover {
                last_action: Some(now),
                recover: old(self).recover,
            }),
            !recover_ready(*old(self), now) ==> *final(self) == *old(self),
    {
        match self.last_action {
            None => {
                self.last_action = Some(now);
                Some(())
            },
            Some(last) => {
                if now >= last && now - last >= self.recover {
                    self.last_action = Some(now);
                    Some(())
                } else {
                    None
                }
            },
        }
    }
}

/// Marks an entity as a weapon emitter; holds its cooldown.
#[derive(Clone, Copy, PartialEq, Eq, Structural, Debug)]
pub struct Shoot {
    pub recover: Recover,
}

/// Elapsed wall-clock time of the tick, in milliseconds.
#[derive(Clone, Copy, PartialEq, Eq, Structural, Debug)]
pub struct DeltaTime(pub u64);

/// Tag selecting which collision-resolution behavior applies to an entity
/// carrying Position + Damage + this tag.
#[derive(Clone, Copy, PartialEq, Eq, Structural, Debug)]
pub enum ProjectileKind {
    Bullet,
    StandardMissile,
    SpawnMissile,
}

/// Every component an entity may carry, each attached zero-or-one times.
#[derive(Clone, Copy, PartialEq, Eq, Structural, Debug)]
pub struct EntityData {
    pub position: Option<Position>,
    pub velocity: Option<Velocity>,
    pub speed: Option<Speed>,
    pub orientation: Option<Orientation>,
    pub flip: Option<Flip>,
    pub render: Option<Render>,
    pub enemy: Option<Enemy>,
    pub damage: Option<Damage>,
    pub move_torwards: Option<MoveTorwards>,
    pub shoot: Option<Shoot>,
    pub time_to_live: Option<TimeToLive>,
    pub explosion: Option<Explosion>,
    pub projectile: Option<ProjectileKind>,
}

impl EntityData {
    /// A record with no components; bundles are built from it.
    pub fn empty() -> (r: EntityData)
        ensures
            r == empty_entity(),
    {
        EntityData {
            position: None,
            velocity: None,
            speed: None,
            orientation: None,
            flip: None,
            render: None,
            enemy: None,
            damage: None,
            move_torwards: None,
            shoot: None,
            time_to_live: None,
            explosion: None,
            projectile: None,
        }
    }
}

pub open spec fn empty_entity() -> EntityData {
    EntityData {
        position: None,
        velocity: None,
        speed: None,
        orientation: None,
        flip: None,
        render: None,
        enemy: None,
        damage: None,
        move_torwards: None,
        shoot: None,
        time_to_live: None,
        explosion: None,
        projectile: None,
    }
}

/// Numeric sanity of one entity: coordinates inside the playing field,
/// velocities, times and damage within their fixed bounds. Every entity in a
/// well-formed world satisfies it, so per-tick arithmetic cannot overflow.
pub open spec fn entity_wf(d: EntityData) -> bool {
    &&& match d.position {
        Option::None => true,
        Option::Some(p) => vec2_in_bound(p.0),
    }
    &&& match d.velocity {
        Option::None => true,
        Option::Some(v) => -VEL_MAX <= v.0.x <= VEL_MAX && -VEL_MAX <= v.0.y <= VEL_MAX,
    }
    &&& match d.speed {
        Option::None => true,
        Option::Some(s) => s.0 <= VEL_MAX,
    }
    &&& match d.damage {
        Option::None => true,
        Option::Some(dm) => dm.0 <= DMG_MAX,
    }
    &&& match d.move_torwards {
        Option::None => true,
        Option::Some(m) => vec2_in_bound(m.destination) && m.side < 2,
    }
    &&& match d.shoot {
        Option::None => true,
        Option::Some(s) => s.recover.recover <= TIME_MAX && match s.recover.last_action {
            Option::None => true,
            Option::Some(last) => last <= TIME_MAX,
        },
    }
    &&& match d.time_to_live {
        Option::None => true,
        Option::Some(t) => t.created <= TIME_MAX && t.time_until_death <= TIME_MAX,
    }
    &&& match d.explosion {
        Option::None => true,
        Option::Some(e) => e.radius_milli <= RADIUS_MAX && e.max_radius_milli <= RADIUS_MAX,
    }
}

/// The component kinds a query can request.
#[derive(Clone, Copy, PartialEq, Eq, Structural, Debug)]
pub enum Kind {
    Position,
    Velocity,
    Speed,
    Orientation,
    Flip,
    Render,
    Enemy,
    Damage,
    MoveTorwards,
    Shoot,
    TimeToLive,
    Explosion,
    Projectile,
}

/// The entity carries a component of the given kind.
pub open spec fn has_kind_spec(d: EntityData, k: Kind) -> bool {
    match k {
        Kind::Position => d.position is Some,
        Kind::Velocity => d.velocity is Some,
        Kind::Speed => d.speed is Some,
        Kind::Orientation => d.orientation is Some,
        Kind::Flip => d.flip is Some,
        Kind::Render => d.render is Some,
        Kind::Enemy => d.enemy is Some,
        Kind::Damage => d.damage is Some,
        Kind::MoveTorwards => d.move_torwards is Some,
        Kind::Shoot => d.shoot is Some,
        Kind::TimeToLive => d.time_to_live is Some,
        Kind::Explosion => d.explosion is Some,
        Kind::Projectile => d.projectile is Some,
    }
}

pub fn has_kind(d: &EntityData, k: Kind) -> (r: bool)
    ensures
        r == has_kind_spec(*d, k),
{
    match k {
        Kind::Position => d.position.is_some(),
        Kind::Velocity => d.velocity.is_some(),
        Kind::Speed => d.speed.is_some(),
        Kind::Orientation => d.orientation.is_some(),
        Kind::Flip => d.flip.is_some(),
        Kind::Render => d.render.is_some(),
        Kind::Enemy => d.enemy.is_some(),
        Kind::Damage => d.damage.is_some(),
        Kind::MoveTorwards => d.move_torwards.is_some(),
        Kind::Shoot => d.shoot.is_some(),
        Kind::TimeToLive => d.time_to_live.is_some(),
        Kind::Explosion => d.explosion.is_some(),
        Kind::Projectile => d.projectile.is_some(),
    }
}

} // verus!
