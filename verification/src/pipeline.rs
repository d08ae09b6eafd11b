//! The fixed, ordered system pipeline, run exactly once per tick, and the
//! per-kind collision systems it ends with. The spawner runs first so idle
//! enemies are immediately targetable; enemy-death cleanup precedes
//! collision resolution so a dead enemy removed earlier in the tick cannot
//! be hit again.
use vstd::prelude::*;

use crate::collision::HitBehavior;
use crate::collision::resolve_hits;
use crate::collision::resolve_post;
use crate::components::EntityData;
use crate::shoot::all_shots;
use crate::shoot::shoot_slot;
use crate::spawn::is_grunt;
use crate::systems::enemy_dead;
use crate::systems::explosion_done;
use crate::systems::grow_slot;
use crate::systems::integrate_slot;
use crate::systems::orient_slot;
use crate::systems::retarget_frame;
use crate::systems::seek_slot;
use crate::components::DeltaTime;
use crate::components::ProjectileKind;
use crate::components::TIME_MAX;
use crate::shoot::shoot_at_enemy;
use crate::spawn::EnemySpawner;
use crate::systems::DT_MAX;
use crate::systems::animate_explosion;
use crate::systems::update_destination;
use crate::systems::kill_enemies;
use crate::systems::kill_entities;
use crate::systems::move_torwards;
use crate::systems::move_velocity;
use crate::systems::update_orientation;
use crate::systems::ttl_expired;
use crate::waypoints::Sides;
use crate::waypoints::sides_wf;
use crate::world::World;
use crate::world::world_wf;

verus! {

/// How many child projectiles a self-replicating missile bursts into.
pub const BURST_COUNT: usize = 12;

/// Speed of a burst's child projectiles, units per second.
pub const BURST_SPEED: u64 = 150;

/// How far from the impact point a burst's children appear (the radius of
/// the direction diamond, which also scales their headings).
pub const BURST_OFFSET: u64 = 15;

/// Resolves collisions of plain standard missiles: no side effect on hit.
pub struct StandardMissileSystem {}

impl StandardMissileSystem {
    pub fn new() -> (r: StandardMissileSystem) {
        StandardMissileSystem {  }
    }

    /// One resolver pass over all standard missiles.
    pub fn hit(&mut self, world: &mut World, now: u64)
        requires
            world_wf(*old(world)),
            now <= TIME_MAX,
        ensures
            final(world).slots@ =~= resolve_post(
                old(world).slots@,
                ProjectileKind::StandardMissile,
                HitBehavior::Plain,
                now,
            ),
            world_wf(*final(world)),
    {
        resolve_hits(world, ProjectileKind::StandardMissile, HitBehavior::Plain, now);
    }
}

/// Resolves collisions of self-replicating missiles: each hit bursts into
/// child projectiles, committed by the finish step.
pub struct SpawnMissileSystem {}

impl SpawnMissileSystem {
    pub fn new() -> (r: SpawnMissileSystem) {
        SpawnMissileSystem {  }
    }

    /// One resolver pass over all self-replicating missiles.
    pub fn hit(&mut self, world: &mut World, now: u64)
        requires
            world_wf(*old(world)),
            now <= TIME_MAX,
        ensures
            final(world).slots@ =~= resolve_post(
                old(world).slots@,
                ProjectileKind::SpawnMissile,
                (HitBehavior::RadialBurst {
                    count: BURST_COUNT,
                    speed: BURST_SPEED,
                    offset: BURST_OFFSET,
                    child: ProjectileKind::StandardMissile,
                }),
                now,
            ),
            world_wf(*final(world)),
    {
        resolve_hits(
            world,
            ProjectileKind::SpawnMissile,
            HitBehavior::RadialBurst {
                count: BURST_COUNT,
                speed: BURST_SPEED,
                offset: BURST_OFFSET,
                child: ProjectileKind::StandardMissile,
            },
            now,
        );
    }
}

/// The burst the self-replicating missile kind is configured with.
pub open spec fn spawn_missile_burst() -> HitBehavior {
    HitBehavior::RadialBurst {
        count: BURST_COUNT,
        speed: BURST_SPEED,
        offset: BURST_OFFSET,
        child: ProjectileKind::StandardMissile,
    }
}

/// The whole world after waypoint seeking.
pub open spec fn seek_all(s: Seq<Option<EntityData>>, dt: u64) -> Seq<Option<EntityData>> {
    Seq::new(s.len(), |i: int| seek_slot(s[i], dt))
}

/// The whole world after velocity integration.
pub open spec fn integrate_all(s: Seq<Option<EntityData>>, dt: u64) -> Seq<Option<EntityData>> {
    Seq::new(s.len(), |i: int| integrate_slot(s[i], dt))
}

/// The whole world after lifetime expiry at instant `now`.
pub open spec fn expire_all(s: Seq<Option<EntityData>>, now: u64) -> Seq<Option<EntityData>> {
    Seq::new(
        s.len(),
        |i: int|
            if s[i] is Some && ttl_expired(s[i]->Some_0, now) {
                None
            } else {
                s[i]
            },
    )
}

/// The whole world after the orientation update.
pub open spec fn orient_all(s: Seq<Option<EntityData>>) -> Seq<Option<EntityData>> {
    Seq::new(s.len(), |i: int| orient_slot(s[i]))
}

/// The whole world after explosion animation: grown, and gone if full.
pub open spec fn explode_all(s: Seq<Option<EntityData>>, dt: u64) -> Seq<Option<EntityData>> {
    Seq::new(
        s.len(),
        |i: int|
            {
                let g = grow_slot(s[i], dt);
                if g is Some && explosion_done(g->Some_0) {
                    None
                } else {
                    g
                }
            },
    )
}

/// The whole world after weapon fire: cooldowns recharged, every ready
/// emitter's missiles appended.
pub open spec fn fire_all(s: Seq<Option<EntityData>>, now: u64) -> Seq<Option<EntityData>> {
    Seq::new(s.len(), |i: int| shoot_slot(s[i], now)) + all_shots(
        s,
        now,
        s.len() as int,
    ).map_values(|d: EntityData| Some(d))
}

/// The whole world after enemy-death cleanup.
pub open spec fn cleanup_all(s: Seq<Option<EntityData>>) -> Seq<Option<EntityData>> {
    Seq::new(
        s.len(),
        |i: int|
            if s[i] is Some && enemy_dead(s[i]->Some_0) {
                None
            } else {
                s[i]
            },
    )
}

/// The wave spawner's outcome: with any enemy alive the world is untouched;
/// otherwise exactly `count` grunts are appended.
pub open spec fn wave_spawn_rel(
    s0: Seq<Option<EntityData>>,
    s1: Seq<Option<EntityData>>,
    count: int,
    sides: Sides,
) -> bool {
    if exists|i: int|
        0 <= i < s0.len() && ((#[trigger] s0[i]) matches Some(d) && d.enemy is Some) {
        s1 == s0
    } else {
        &&& s1.len() == s0.len() + count
        &&& forall|i: int| 0 <= i < s0.len() ==> s1[i] == s0[i]
        &&& forall|k: int|
            0 <= k < count ==> ((#[trigger] s1[s0.len() + k]) matches Some(d) && is_grunt(
                d,
                sides,
            ))
    }
}

/// The destination re-roll's outcome, slot by slot.
pub open spec fn retarget_rel(
    s_in: Seq<Option<EntityData>>,
    s_out: Seq<Option<EntityData>>,
    sides: Sides,
) -> bool {
    &&& s_out.len() == s_in.len()
    &&& forall|i: int| 0 <= i < s_in.len() ==> retarget_frame(#[trigger] s_in[i], s_out[i], sides)
}

/// The deterministic remainder of the pipeline, from the state after the
/// destination re-roll: velocity integration, lifetime expiry, orientation,
/// explosion animation, weapon fire, enemy-death cleanup, then one resolver
/// pass per projectile kind — standard missiles first, self-replicating
/// missiles last.
pub open spec fn tick_post(s3: Seq<Option<EntityData>>, dt: u64, now: u64) -> Seq<
    Option<EntityData>,
> {
    resolve_post(
        resolve_post(
            cleanup_all(fire_all(explode_all(orient_all(expire_all(integrate_all(s3, dt), now)), dt), now)),
            ProjectileKind::StandardMissile,
            HitBehavior::Plain,
            now,
        ),
        ProjectileKind::SpawnMissile,
        spawn_missile_burst(),
        now,
    )
}

/// The tick's composed outcome: the wave spawner's (randomized) result,
/// then waypoint seeking, then the (randomized) destination re-roll, then
/// the deterministic remainder of the pipeline in its fixed order.
pub open spec fn tick_rel(
    s0: Seq<Option<EntityData>>,
    s_final: Seq<Option<EntityData>>,
    spawn_count: int,
    sides: Sides,
    dt: u64,
    now: u64,
) -> bool {
    exists|s1: Seq<Option<EntityData>>, s3: Seq<Option<EntityData>>|
        wave_spawn_rel(s0, s1, spawn_count, sides) && #[trigger] retarget_rel(
            seek_all(s1, dt),
            s3,
            sides,
        ) && s_final == tick_post(s3, dt, now)
}

/// One full simulation tick: every system exactly once, in the fixed order
/// — wave spawner, waypoint seeking, destination re-roll, velocity
/// integration, lifetime expiry, orientation, explosion animation, weapon
/// fire, enemy-death cleanup, then one resolver pass per projectile kind.
/// `tick_rel` fixes the composed outcome, relational exactly where a random
/// draw enters (the wave's placements, the re-rolled targets). `dt` is the
/// elapsed wall-clock delta of the frame and `now` the current instant in
/// milliseconds.
#[verifier::rlimit(100)]
pub fn tick(
    world: &mut World,
    spawner: &mut EnemySpawner,
    sides: &Sides,
    dt: DeltaTime,
    now: u64,
)
    requires
        world_wf(*old(world)),
        sides_wf(*sides),
        dt.0 <= DT_MAX,
        now <= TIME_MAX,
    ensures
        tick_rel(
            old(world).slots@,
            final(world).slots@,
            old(spawner).enemies_to_spawn as int,
            *sides,
            dt.0,
            now,
        ),
        world_wf(*final(world)),
        *final(spawner) == *old(spawner),
        final(world).slots@.len() >= old(world).slots@.len(),
        forall|i: int|
            0 <= i < old(world).slots@.len() && old(world).slots@[i] is Some && ttl_expired(
                #[trigger] old(world).slots@[i]->Some_0,
                now,
            ) ==> final(world).slots@[i] is None,
{
    let ghost s0 = world.slots@;
    spawner.spawn_enemies(world, sides);
    let ghost s1 = world.slots@;
    proof {
        assert(wave_spawn_rel(s0, s1, spawner.enemies_to_spawn as int, *sides));
        assert forall|i: int| 0 <= i < s0.len() implies slot_ttl(s1[i]) == slot_ttl(s0[i]) by {
            assert(s1[i] == s0[i]);
        }
    }
    move_torwards(world, dt);
    let ghost s2 = world.slots@;
    proof {
        assert(s2 =~= seek_all(s1, dt.0));
        assert forall|i: int| 0 <= i < s0.len() implies slot_ttl(s2[i]) == slot_ttl(s0[i]) by {
            assert(s2[i] == seek_slot(s1[i], dt.0));
        }
    }
    update_destination(world, sides);
    let ghost s3 = world.slots@;
    proof {
        assert(retarget_rel(s2, s3, *sides));
        assert forall|i: int| 0 <= i < s0.len() implies slot_ttl(s3[i]) == slot_ttl(s0[i]) by {}
    }
    move_velocity(world, dt);
    let ghost s4 = world.slots@;
    proof {
        assert(s4 =~= integrate_all(s3, dt.0));
        assert forall|i: int| 0 <= i < s0.len() implies slot_ttl(s4[i]) == slot_ttl(s0[i]) by {
            assert(s4[i] == integrate_slot(s3[i], dt.0));
        }
    }
    kill_entities(world, now);
    let ghost s5 = world.slots@;
    proof {
        assert(s5 =~= expire_all(s4, now));
        assert forall|i: int|
            0 <= i < s0.len() && s0[i] is Some && ttl_expired(s0[i]->Some_0, now) implies s5[i]
            is None by {
            assert(slot_ttl(s4[i]) == slot_ttl(s0[i]));
            assert(s4[i] is Some && ttl_expired(s4[i]->Some_0, now));
        }
    }
    update_orientation(world);
    let ghost s6 = world.slots@;
    proof {
        assert(s6 =~= orient_all(s5));
    }
    animate_explosion(world, dt);
    let ghost s7 = world.slots@;
    proof {
        assert(s7 =~= explode_all(s6, dt.0));
    }
    shoot_at_enemy(world, now);
    let ghost s8 = world.slots@;
    proof {
        assert(s8 =~= fire_all(s7, now));
    }
    kill_enemies(world);
    let ghost s9 = world.slots@;
    proof {
        assert(s9 =~= cleanup_all(s8));
    }
    let mut standard = StandardMissileSystem::new();
    standard.hit(world, now);
    let ghost s10 = world.slots@;
    let mut spawning = SpawnMissileSystem::new();
    spawning.hit(world, now);
    proof {
        assert(s10 =~= resolve_post(s9, ProjectileKind::StandardMissile, HitBehavior::Plain, now));
        assert(world.slots@ =~= resolve_post(
            s10,
            ProjectileKind::SpawnMissile,
            spawn_missile_burst(),
            now,
        ));
        assert(world.slots@ == tick_post(s3, dt.0, now));
        assert(retarget_rel(seek_all(s1, dt.0), s3, *sides));
        assert(tick_rel(s0, world.slots@, spawner.enemies_to_spawn as int, *sides, dt.0, now));
        assert forall|i: int| 0 <= i < s0.len() && s5[i] is None implies world.slots@[i]
            is None by {}
    }
}

/// The TimeToLive a slot carries, if any; what the movement systems leave
/// untouched.
pub open spec fn slot_ttl(s_i: Option<crate::components::EntityData>) -> Option<
    crate::components::TimeToLive,
> {
    match s_i {
        Option::None => None,
        Option::Some(d) => d.time_to_live,
    }
}

} // verus!
