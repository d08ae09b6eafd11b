//! The wave spawner and the fixed tower emplacements. A wave appears only
//! when no enemy is alive; every spawned grunt carries the full enemy
//! bundle with full health and a valid waypoint target.
use vstd::prelude::*;

use crate::components::AssetId;
use crate::components::Enemy;
use crate::components::EntityData;
use crate::components::Flip;
use crate::components::Orientation;
use crate::components::Position;
use crate::components::Recover;
use crate::components::Render;
use crate::components::Shoot;
use crate::components::Speed;
use crate::components::empty_entity;
use crate::components::entity_wf;
use crate::geom::Vec2;
use crate::geom::WORLD_BOUND;
use crate::geom::vec2_in_bound;
use crate::rng::random_in_range;
use crate::waypoints::Sides;
use crate::waypoints::side_points;
use crate::waypoints::sides_wf;
use crate::world::World;
use crate::world::world_wf;

verus! {

/// A freshly spawned grunt's health.
pub const GRUNT_HEALTH: i64 = 100;

/// A grunt's speed lies in this half-open range, units per second.
pub const GRUNT_SPEED_MIN: u64 = 150;

pub const GRUNT_SPEED_MAX: u64 = 200;

/// A tower's cooldown between shots, in milliseconds.
pub const TOWER_COOLDOWN: u64 = 250;

/// The full grunt bundle: an enemy at full health with waypoint AI, whose
/// target lies on one waypoint line and whose position lies on the
/// opposite line.
pub open spec fn is_grunt(d: EntityData, sides: Sides) -> bool {
    &&& d.move_torwards matches Some(m) && m.side < 2 && side_points(
        sides,
        m.side as int,
    ).contains(m.destination)
    &&& d.position matches Some(p) && side_points(
        sides,
        ((d.move_torwards->Some_0.side + 1) % 2) as int,
    ).contains(p.0)
    &&& d.speed matches Some(sp) && GRUNT_SPEED_MIN <= sp.0 < GRUNT_SPEED_MAX
    &&& d.orientation == Some(Orientation(Vec2 { x: 1, y: 0 }))
    &&& d.render == Some(Render { asset: AssetId::Grunt, scale_milli: 1000, inital_rotation_milli: 0 })
    &&& d.flip == Some(Flip::Right)
    &&& d.enemy == Some(Enemy { health: GRUNT_HEALTH })
    &&& d.velocity is None
    &&& d.damage is None
    &&& d.shoot is None
    &&& d.time_to_live is None
    &&& d.explosion is None
    &&& d.projectile is None
}

/// Appends `count` grunts at randomized waypoint-line positions, each with
/// full health and a waypoint target; nothing else changes.
pub fn spawn_random_grunts(world: &mut World, count: usize, sides: &Sides)
    requires
        world_wf(*old(world)),
        sides_wf(*sides),
    ensures
        final(world).slots@.len() == old(world).slots@.len() + count,
        forall|i: int| 0 <= i < old(world).slots@.len() ==> final(world).slots@[i] == old(
            world,
        ).slots@[i],
        forall|k: int|
            0 <= k < count ==> ((#[trigger] final(world).slots@[old(world).slots@.len() + k])
                matches Some(d) && is_grunt(d, *sides)),
        world_wf(*final(world)),
{
    let ghost n0 = world.slots@.len();
    let mut k: usize = 0;
    while k < count
        invariant
            k <= count,
            world_wf(*old(world)),
            sides_wf(*sides),
            n0 == old(world).slots@.len(),
            world.slots@.len() == n0 + k,
            forall|i: int| 0 <= i < n0 ==> world.slots@[i] == old(world).slots@[i],
            forall|j: int|
                0 <= j < k ==> ((#[trigger] world.slots@[n0 + j]) matches Some(d) && is_grunt(
                    d,
                    *sides,
                )),
            world_wf(*world),
        decreases count - k,
    {
        let move_torwards = sides.get_random_point(sides.get_random_side());
        let start = sides.get_random_point(move_torwards.side);
        let speed = random_in_range(GRUNT_SPEED_MIN, GRUNT_SPEED_MAX);
        let mut d = EntityData::empty();
        d.position = Some(Position(start.destination));
        d.move_torwards = Some(move_torwards);
        d.orientation = Some(Orientation(Vec2 { x: 1, y: 0 }));
        d.speed = Some(Speed(speed));
        d.render = Some(
            Render { asset: AssetId::Grunt, scale_milli: 1000, inital_rotation_milli: 0 },
        );
        d.flip = Some(Flip::Right);
        d.enemy = Some(Enemy { health: GRUNT_HEALTH });
        proof {
            assert(start.side == (move_torwards.side + 1) % 2);
            assert(is_grunt(d, *sides));
            assert(entity_wf(d));
        }
        world.insert_entity(d);
        k += 1;
    }
}

/// The wave spawner: a configured number of enemies per wave.
pub struct EnemySpawner {
    pub enemies_to_spawn: usize,
}

impl EnemySpawner {
    /// Spawns a fresh wave exactly when no enemy is alive; with any enemy
    /// still alive the world is untouched.
    pub fn spawn_enemies(&mut self, world: &mut World, sides: &Sides)
        requires
            world_wf(*old(world)),
            sides_wf(*sides),
        ensures
            *final(self) == *old(self),
            (exists|i: int|
                0 <= i < old(world).slots@.len() && ((#[trigger] old(world).slots@[i]) matches Some(
                    d,
                ) && d.enemy is Some)) ==> *final(world) == *old(world),
            !(exists|i: int|
                0 <= i < old(world).slots@.len() && ((#[trigger] old(world).slots@[i]) matches Some(
                    d,
                ) && d.enemy is Some)) ==> {
                &&& final(world).slots@.len() == old(world).slots@.len()
                    + old(self).enemies_to_spawn
                &&& forall|i: int|
                    0 <= i < old(world).slots@.len() ==> final(world).slots@[i] == old(
                        world,
                    ).slots@[i]
                &&& forall|k: int|
                    0 <= k < old(self).enemies_to_spawn ==> ((#[trigger] final(world).slots@[old(
                        world,
                    ).slots@.len() + k]) matches Some(d) && is_grunt(d, *sides))
            },
            world_wf(*final(world)),
    {
        let n = world.entity_count();
        let mut i: usize = 0;
        while i < n
            invariant
                i <= n,
                n == world.slots@.len(),
                *world == *old(world),
                world_wf(*old(world)),
                forall|j: int|
                    0 <= j < i ==> !((#[trigger] world.slots@[j]) matches Some(d)
                        && d.enemy is Some),
            decreases n - i,
        {
            let slot = world.slots[i];
            if let Some(d) = slot {
                if d.enemy.is_some() {
                    return ;
                }
            }
            i += 1;
        }
        spawn_random_grunts(world, self.enemies_to_spawn, sides);
    }
}

/// The full tower bundle: a fixed weapon emplacement at `pos`.
pub open spec fn tower_bundle(pos: Vec2) -> EntityData {
    EntityData {
        position: Some(Position(pos)),
        render: Some(Render { asset: AssetId::Tower, scale_milli: 1000, inital_rotation_milli: 0 }),
        shoot: Some(Shoot { recover: Recover { last_action: None, recover: TOWER_COOLDOWN } }),
        orientation: Some(Orientation(Vec2 { x: 1, y: 0 })),
        flip: Some(Flip::Right),
        ..empty_entity()
    }
}

/// Appends the four corner towers of a field of the given width and
/// height, each inset by `offset`.
pub fn spawn_towers(world: &mut World, width: i64, height: i64, offset: i64)
    requires
        world_wf(*old(world)),
        0 <= offset <= width <= WORLD_BOUND,
        offset <= height <= WORLD_BOUND,
    ensures
        final(world).slots@.len() == old(world).slots@.len() + 4,
        forall|i: int| 0 <= i < old(world).slots@.len() ==> final(world).slots@[i] == old(
            world,
        ).slots@[i],
        final(world).slots@[old(world).slots@.len() as int] == Some(
            tower_bundle(Vec2 { x: offset, y: offset }),
        ),
        final(world).slots@[old(world).slots@.len() as int + 1] == Some(
            tower_bundle(Vec2 { x: (width - offset) as i64, y: offset }),
        ),
        final(world).slots@[old(world).slots@.len() as int + 2] == Some(
            tower_bundle(Vec2 { x: (width - offset) as i64, y: (height - offset) as i64 }),
        ),
        final(world).slots@[old(world).slots@.len() as int + 3] == Some(
            tower_bundle(Vec2 { x: offset, y: (height - offset) as i64 }),
        ),
        world_wf(*final(world)),
{
    let p1 = Vec2 { x: offset, y: offset };
    let p2 = Vec2 { x: width - offset, y: offset };
    let p3 = Vec2 { x: width - offset, y: height - offset };
    let p4 = Vec2 { x: offset, y: height - offset };
    build_tower(world, p1);
    build_tower(world, p2);
    build_tower(world, p3);
    build_tower(world, p4);
}

/// Appends one tower at `pos`.
fn build_tower(world: &mut World, pos: Vec2)
    requires
        world_wf(*old(world)),
        vec2_in_bound(pos),
    ensures
        final(world).slots@ == old(world).slots@.push(Some(tower_bundle(pos))),
        world_wf(*final(world)),
{
    let mut d = EntityData::empty();
    d.position = Some(Position(pos));
    d.render = Some(Render { asset: AssetId::Tower, scale_milli: 1000, inital_rotation_milli: 0 });
    d.shoot = Some(Shoot { recover: Recover { last_action: None, recover: TOWER_COOLDOWN } });
    d.orientation = Some(Orientation(Vec2 { x: 1, y: 0 }));
    d.flip = Some(Flip::Right);
    world.insert_entity(d);
}

} // verus!
