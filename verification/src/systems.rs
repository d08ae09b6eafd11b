//! Per-tick gameplay systems over the world: velocity integration, waypoint
//! seeking, orientation update, lifetime expiry, enemy-death cleanup and
//! explosion animation. Each system is specified slot by slot: the ensures
//! give the new value of every entity as a function of its old value.
use vstd::prelude::*;

use crate::components::DMG_MAX;
use crate::components::DeltaTime;
use crate::components::EntityData;
use crate::components::Flip;
use crate::components::Orientation;
use crate::components::Position;
use crate::components::RADIUS_MAX;
use crate::components::TIME_MAX;
use crate::components::VEL_MAX;
use crate::components::entity_wf;
use crate::components::Explosion;
use crate::geom::Vec2;
use crate::geom::clamp_add_vec;
use crate::geom::clamp_add_vec_spec;
use crate::geom::dist_sq;
use crate::geom::dist_sq_spec;
use crate::geom::isqrt;
use crate::geom::isqrt_spec;
use crate::geom::lemma_component_le_isqrt;
use crate::geom::mul_div;
use crate::geom::mul_div_spec;
use crate::waypoints::Sides;
use crate::waypoints::side_points;
use crate::waypoints::sides_wf;
use crate::world::MutationQueue;
use crate::world::World;
use crate::world::world_wf;

verus! {

broadcast use vstd::seq_lib::lemma_seq_contains_after_push;

/// Longest tick the systems accept, in milliseconds.
pub const DT_MAX: u64 = 10_000;

/// Explosion growth rate: thousandths of a unit per millisecond, i.e. 25
/// world units per second.
pub const EXPANSION_SPEED_MILLI: u64 = 25;

/// Velocity integration of one entity: position moves by velocity times the
/// tick's seconds, clamped into the playing field; anything without both
/// Position and Velocity is untouched.
pub open spec fn integrate_entity(d: EntityData, dt: u64) -> EntityData {
    if d.position is Some && d.velocity is Some {
        let p = d.position->Some_0.0;
        let v = d.velocity->Some_0.0;
        let step = Vec2 {
            x: mul_div_spec(v.x as int, dt as int, 1000) as i64,
            y: mul_div_spec(v.y as int, dt as int, 1000) as i64,
        };
        EntityData { position: Some(Position(clamp_add_vec_spec(p, step))), ..d }
    } else {
        d
    }
}

pub open spec fn integrate_slot(s: Option<EntityData>, dt: u64) -> Option<EntityData> {
    match s {
        Option::None => None,
        Option::Some(d) => Some(integrate_entity(d, dt)),
    }
}

/// Position += Velocity x delta, for every entity carrying both; used by
/// projectiles, which have no waypoint AI.
pub fn move_velocity(world: &mut World, dt: DeltaTime)
    requires
        world_wf(*old(world)),
        dt.0 <= DT_MAX,
    ensures
        final(world).slots@.len() == old(world).slots@.len(),
        forall|i: int| 0 <= i < old(world).slots@.len() ==> final(world).slots@[i]
            == integrate_slot(#[trigger] old(world).slots@[i], dt.0),
        world_wf(*final(world)),
{
    let n = world.entity_count();
    let mut id: usize = 0;
    while id < n
        invariant
            id <= n,
            n == old(world).slots@.len(),
            world.slots@.len() == n,
            dt.0 <= DT_MAX,
            world_wf(*old(world)),
            world_wf(*world),
            forall|i: int| 0 <= i < id ==> world.slots@[i] == integrate_slot(
                #[trigger] old(world).slots@[i],
                dt.0,
            ),
            forall|i: int| id <= i < n ==> world.slots@[i] == old(world).slots@[i],
        decreases n - id,
    {
        let slot = world.slots[id];
        if let Some(d) = slot {
            if d.position.is_some() && d.velocity.is_some() {
                let p = d.position.unwrap();
                let v = d.velocity.unwrap();
                proof {
                    assert(-4_000_000_000_000_000_000 <= v.0.x * dt.0 <= 4_000_000_000_000_000_000
                        && -4_000_000_000_000_000_000 <= v.0.y * dt.0
                        <= 4_000_000_000_000_000_000 && v.0.x * dt.0 <= 10_000_000_000
                        && v.0.x * dt.0 >= -10_000_000_000 && v.0.y * dt.0 <= 10_000_000_000 && v.0.y
                        * dt.0 >= -10_000_000_000) by (nonlinear_arith)
                        requires
                            -VEL_MAX <= v.0.x <= VEL_MAX,
                            -VEL_MAX <= v.0.y <= VEL_MAX,
                            0 <= dt.0 <= DT_MAX,
                    ;
                }
                let sx = mul_div(v.0.x, dt.0, 1000);
                let sy = mul_div(v.0.y, dt.0, 1000);
                let np = clamp_add_vec(p.0, Vec2 { x: sx, y: sy });
                let mut nd = d;
                nd.position = Some(Position(np));
                world.slots[id] = Some(nd);
            }
        }
        id += 1;
    }
}

/// Waypoint seeking of one entity: step of length speed x delta toward the
/// destination along the straight line, and facing flag from the step's
/// horizontal sign. An entity standing exactly on its destination does not
/// move (there is no direction to normalise).
pub open spec fn seek_entity(d: EntityData, dt: u64) -> EntityData {
    if d.position is Some && d.move_torwards is Some && d.speed is Some && d.flip is Some {
        let p = d.position->Some_0.0;
        let t = d.move_torwards->Some_0.destination;
        let sp = d.speed->Some_0.0;
        let dx = t.x - p.x;
        let dy = t.y - p.y;
        let dist = isqrt_spec(dx * dx + dy * dy);
        if dist == 0 {
            d
        } else {
            let qx = mul_div_spec(dx as int, sp as int, dist);
            let qy = mul_div_spec(dy as int, sp as int, dist);
            let step = Vec2 {
                x: mul_div_spec(qx, dt as int, 1000) as i64,
                y: mul_div_spec(qy, dt as int, 1000) as i64,
            };
            EntityData {
                position: Some(Position(clamp_add_vec_spec(p, step))),
                flip: Some(
                    if dx < 0 {
                        Flip::Left
                    } else {
                        Flip::Right
                    },
                ),
                ..d
            }
        }
    } else {
        d
    }
}

pub open spec fn seek_slot(s: Option<EntityData>, dt: u64) -> Option<EntityData> {
    match s {
        Option::None => None,
        Option::Some(d) => Some(seek_entity(d, dt)),
    }
}

/// Waypoint AI: every entity with Position, MoveTorwards, Speed and Flip
/// steps toward its destination and faces the direction it moves in.
pub fn move_torwards(world: &mut World, dt: DeltaTime)
    requires
        world_wf(*old(world)),
        dt.0 <= DT_MAX,
    ensures
        final(world).slots@.len() == old(world).slots@.len(),
        forall|i: int| 0 <= i < old(world).slots@.len() ==> final(world).slots@[i] == seek_slot(
            #[trigger] old(world).slots@[i],
            dt.0,
        ),
        world_wf(*final(world)),
{
    let n = world.entity_count();
    let mut id: usize = 0;
    while id < n
        invariant
            id <= n,
            n == old(world).slots@.len(),
            world.slots@.len() == n,
            dt.0 <= DT_MAX,
            world_wf(*old(world)),
            world_wf(*world),
            forall|i: int| 0 <= i < id ==> world.slots@[i] == seek_slot(
                #[trigger] old(world).slots@[i],
                dt.0,
            ),
            forall|i: int| id <= i < n ==> world.slots@[i] == old(world).slots@[i],
        decreases n - id,
    {
        let slot = world.slots[id];
        if let Some(d) = slot {
            if d.position.is_some() && d.move_torwards.is_some() && d.speed.is_some()
                && d.flip.is_some() {
                let p = d.position.unwrap().0;
                let t = d.move_torwards.unwrap().destination;
                let sp = d.speed.unwrap().0;
                let dx = t.x - p.x;
                let dy = t.y - p.y;
                let d2 = dist_sq(t, p);
                proof {
                    assert(dist_sq_spec(t, p) == dx * dx + dy * dy) by (nonlinear_arith)
                        requires
                            dx == t.x - p.x,
                            dy == t.y - p.y,
                            dist_sq_spec(t, p) == (t.x - p.x) * (t.x - p.x) + (t.y - p.y) * (t.y
                                - p.y),
                    ;
                }
                let dist = isqrt(d2 as u64);
                if dist > 0 {
                    proof {
                        lemma_component_le_isqrt(dx as int, dy as int, dist as int);
                        assert(-4_000_000_000_000_000_000 <= dx * sp <= 4_000_000_000_000_000_000
                            && -4_000_000_000_000_000_000 <= dy * sp
                            <= 4_000_000_000_000_000_000) by (nonlinear_arith)
                            requires
                                -2_000_000_000 <= dx <= 2_000_000_000,
                                -2_000_000_000 <= dy <= 2_000_000_000,
                                0 <= sp <= VEL_MAX,
                        ;
                    }
                    let qx = mul_div(dx, sp, dist);
                    let qy = mul_div(dy, sp, dist);
                    proof {
                        assert(-4_000_000_000_000_000_000 <= qx * dt.0 <= 4_000_000_000_000_000_000
                            && -4_000_000_000_000_000_000 <= qy * dt.0
                            <= 4_000_000_000_000_000_000 && -10_000_000_000 <= qx * dt.0
                            <= 10_000_000_000 && -10_000_000_000 <= qy * dt.0
                            <= 10_000_000_000) by (nonlinear_arith)
                            requires
                                -VEL_MAX <= qx <= VEL_MAX,
                                -VEL_MAX <= qy <= VEL_MAX,
                                0 <= dt.0 <= DT_MAX,
                        ;
                    }
                    let sx = mul_div(qx, dt.0, 1000);
                    let sy = mul_div(qy, dt.0, 1000);
                    let np = clamp_add_vec(p, Vec2 { x: sx, y: sy });
                    let mut nd = d;
                    nd.position = Some(Position(np));
                    nd.flip = Some(
                        if dx < 0 {
                            Flip::Left
                        } else {
                            Flip::Right
                        },
                    );
                    world.slots[id] = Some(nd);
                }
            }
        }
        id += 1;
    }
}

/// Orientation update of one entity: the facing direction becomes the
/// velocity vector; a zero velocity has no direction and leaves the
/// orientation as it was.
pub open spec fn orient_entity(d: EntityData) -> EntityData {
    if d.velocity is Some && d.orientation is Some && !(d.velocity->Some_0.0 == Vec2 {
        x: 0,
        y: 0,
    }) {
        EntityData { orientation: Some(Orientation(d.velocity->Some_0.0)), ..d }
    } else {
        d
    }
}

pub open spec fn orient_slot(s: Option<EntityData>) -> Option<EntityData> {
    match s {
        Option::None => None,
        Option::Some(d) => Some(orient_entity(d)),
    }
}

/// Derives each entity's facing angle from its velocity direction.
pub fn update_orientation(world: &mut World)
    requires
        world_wf(*old(world)),
    ensures
        final(world).slots@.len() == old(world).slots@.len(),
        forall|i: int| 0 <= i < old(world).slots@.len() ==> final(world).slots@[i] == orient_slot(
            #[trigger] old(world).slots@[i],
        ),
        world_wf(*final(world)),
{
    let n = world.entity_count();
    let mut id: usize = 0;
    while id < n
        invariant
            id <= n,
            n == old(world).slots@.len(),
            world.slots@.len() == n,
            world_wf(*old(world)),
            world_wf(*world),
            forall|i: int| 0 <= i < id ==> world.slots@[i] == orient_slot(
                #[trigger] old(world).slots@[i],
            ),
            forall|i: int| id <= i < n ==> world.slots@[i] == old(world).slots@[i],
        decreases n - id,
    {
        let slot = world.slots[id];
        if let Some(d) = slot {
            if d.velocity.is_some() && d.orientation.is_some() {
                let v = d.velocity.unwrap().0;
                if !(v.x == 0 && v.y == 0) {
                    let mut nd = d;
                    nd.orientation = Some(Orientation(v));
                    world.slots[id] = Some(nd);
                }
            }
        }
        id += 1;
    }
}

/// The entity's lifetime has elapsed at instant `now`.
pub open spec fn ttl_expired(d: EntityData, now: u64) -> bool {
    match d.time_to_live {
        Option::None => false,
        Option::Some(t) => now >= t.created + t.time_until_death,
    }
}

/// Lifetime expiry: every entity whose TimeToLive has elapsed by `now` is
/// absent afterwards; every other entity is untouched.
pub fn kill_entities(world: &mut World, now: u64)
    requires
        world_wf(*old(world)),
        now <= TIME_MAX,
    ensures
        final(world).slots@.len() == old(world).slots@.len(),
        forall|i: int| 0 <= i < old(world).slots@.len() ==> final(world).slots@[i] == (
        if old(world).slots@[i] is Some && ttl_expired(#[trigger] old(world).slots@[i]->Some_0, now) {
            Option::<EntityData>::None
        } else {
            old(world).slots@[i]
        }),
        world_wf(*final(world)),
{
    let n = world.entity_count();
    let mut queue = MutationQueue::new();
    let mut id: usize = 0;
    while id < n
        invariant
            id <= n,
            n == world.slots@.len(),
            queue.spawns@.len() == 0,
            forall|k: int| 0 <= k < queue.removals@.len() ==> #[trigger] queue.removals@[k] < id,
            forall|i: int| 0 <= i < id ==> (queue.removals@.contains(i as usize) <==> (
            world.slots@[i] is Some && ttl_expired(#[trigger] world.slots@[i]->Some_0, now))),
        decreases n - id,
    {
        let slot = world.slots[id];
        if let Some(d) = slot {
            if let Some(t) = d.time_to_live {
                if now >= t.created && now - t.created >= t.time_until_death {
                    queue.remove_entity(id);
                }
            }
        }
        id += 1;
    }
    queue.apply(world);
}

/// The enemy's health has dropped to zero or below.
pub open spec fn enemy_dead(d: EntityData) -> bool {
    match d.enemy {
        Option::None => false,
        Option::Some(e) => e.health <= 0,
    }
}

/// Enemy-death cleanup: every enemy with health <= 0 is absent afterwards;
/// every other entity is untouched.
pub fn kill_enemies(world: &mut World)
    requires
        world_wf(*old(world)),
    ensures
        final(world).slots@.len() == old(world).slots@.len(),
        forall|i: int| 0 <= i < old(world).slots@.len() ==> final(world).slots@[i] == (
        if old(world).slots@[i] is Some && enemy_dead(#[trigger] old(world).slots@[i]->Some_0) {
            Option::<EntityData>::None
        } else {
            old(world).slots@[i]
        }),
        world_wf(*final(world)),
{
    let n = world.entity_count();
    let mut queue = MutationQueue::new();
    let mut id: usize = 0;
    while id < n
        invariant
            id <= n,
            n == world.slots@.len(),
            queue.spawns@.len() == 0,
            forall|k: int| 0 <= k < queue.removals@.len() ==> #[trigger] queue.removals@[k] < id,
            forall|i: int| 0 <= i < id ==> (queue.removals@.contains(i as usize) <==> (
            world.slots@[i] is Some && enemy_dead(#[trigger] world.slots@[i]->Some_0))),
        decreases n - id,
    {
        let slot = world.slots[id];
        if let Some(d) = slot {
            if let Some(e) = d.enemy {
                if e.health <= 0 {
                    queue.remove_entity(id);
                }
            }
        }
        id += 1;
    }
    queue.apply(world);
}

/// Explosion growth of one entity: the radius grows by the expansion speed
/// times the tick's milliseconds. Only entities with both Explosion and
/// Position grow.
pub open spec fn grow_entity(d: EntityData, dt: u64) -> EntityData {
    if d.explosion is Some && d.position is Some {
        let e = d.explosion->Some_0;
        EntityData {
            explosion: Some(
                Explosion {
                    radius_milli: (e.radius_milli + EXPANSION_SPEED_MILLI * dt) as u64,
                    max_radius_milli: e.max_radius_milli,
                },
            ),
            ..d
        }
    } else {
        d
    }
}

pub open spec fn grow_slot(s: Option<EntityData>, dt: u64) -> Option<EntityData> {
    match s {
        Option::None => None,
        Option::Some(d) => Some(grow_entity(d, dt)),
    }
}

/// The explosion has reached its full radius.
pub open spec fn explosion_done(d: EntityData) -> bool {
    match d.explosion {
        Option::None => false,
        Option::Some(e) => e.radius_milli >= e.max_radius_milli,
    }
}

/// Explosion animation: every explosion grows by the expansion rate times
/// the delta, and any explosion at or past its full radius is removed in
/// the same tick it crosses the threshold.
pub fn animate_explosion(world: &mut World, dt: DeltaTime)
    requires
        world_wf(*old(world)),
        dt.0 <= DT_MAX,
    ensures
        final(world).slots@.len() == old(world).slots@.len(),
        forall|i: int| 0 <= i < old(world).slots@.len() ==> final(world).slots@[i] == (
        {
            let g = grow_slot(#[trigger] old(world).slots@[i], dt.0);
            if g is Some && explosion_done(g->Some_0) {
                Option::<EntityData>::None
            } else {
                g
            }
        }),
        world_wf(*final(world)),
{
    let n = world.entity_count();
    let mut id: usize = 0;
    while id < n
        invariant
            id <= n,
            n == old(world).slots@.len(),
            world.slots@.len() == n,
            dt.0 <= DT_MAX,
            world_wf(*old(world)),
            forall|i: int| 0 <= i < id ==> world.slots@[i] == grow_slot(
                #[trigger] old(world).slots@[i],
                dt.0,
            ),
            forall|i: int| id <= i < n ==> world.slots@[i] == old(world).slots@[i],
        decreases n - id,
    {
        let slot = world.slots[id];
        if let Some(d) = slot {
            if d.explosion.is_some() && d.position.is_some() {
                let e = d.explosion.unwrap();
                let mut nd = d;
                nd.explosion = Some(
                    Explosion {
                        radius_milli: e.radius_milli + EXPANSION_SPEED_MILLI * dt.0,
                        max_radius_milli: e.max_radius_milli,
                    },
                );
                world.slots[id] = Some(nd);
            }
        }
        id += 1;
    }
    let mut queue = MutationQueue::new();
    let mut id2: usize = 0;
    while id2 < n
        invariant
            id2 <= n,
            n == old(world).slots@.len(),
            world.slots@.len() == n,
            dt.0 <= DT_MAX,
            queue.spawns@.len() == 0,
            forall|i: int| 0 <= i < n ==> world.slots@[i] == grow_slot(
                #[trigger] old(world).slots@[i],
                dt.0,
            ),
            forall|k: int| 0 <= k < queue.removals@.len() ==> #[trigger] queue.removals@[k] < id2,
            forall|i: int| 0 <= i < id2 ==> (queue.removals@.contains(i as usize) <==> (
            world.slots@[i] is Some && explosion_done(#[trigger] world.slots@[i]->Some_0))),
        decreases n - id2,
    {
        let slot = world.slots[id2];
        if let Some(d) = slot {
            if let Some(e) = d.explosion {
                if e.radius_milli >= e.max_radius_milli {
                    queue.remove_entity(id2);
                }
            }
        }
        id2 += 1;
    }
    queue.apply(world);
    proof {
        assert forall|i: int|
            0 <= i < world.slots@.len() && world.slots@[i] is Some implies entity_wf(
            #[trigger] world.slots@[i]->Some_0,
        ) by {
            assert(old(world).slots@[i] is Some);
            assert(entity_wf(old(world).slots@[i]->Some_0));
            assert(world.slots@[i] == grow_slot(old(world).slots@[i], dt.0));
            assert(!explosion_done(world.slots@[i]->Some_0));
        }
    }
}

/// One slot's outcome of the destination re-roll: a seeker within one unit
/// of its destination carries a fresh target on the opposite side;
/// everything else is exactly as it was.
pub open spec fn retarget_frame(
    s_i: Option<EntityData>,
    f_i: Option<EntityData>,
    sides: crate::waypoints::Sides,
) -> bool {
    if s_i is Some && s_i->Some_0.position is Some && s_i->Some_0.move_torwards is Some
        && dist_sq_spec(
        s_i->Some_0.move_torwards->Some_0.destination,
        s_i->Some_0.position->Some_0.0,
    ) <= 1 {
        &&& f_i is Some
        &&& f_i->Some_0.move_torwards matches Some(m) && m.side == (
        s_i->Some_0.move_torwards->Some_0.side + 1) % 2 && side_points(
            sides,
            m.side as int,
        ).contains(m.destination)
        &&& f_i->Some_0 == (EntityData { move_torwards: f_i->Some_0.move_torwards, ..s_i->Some_0 })
    } else {
        f_i == s_i
    }
}

/// Destination re-roll: every waypoint seeker within one unit of its
/// destination is re-targeted to a random waypoint on the opposite side;
/// everything else is untouched.
pub fn update_destination(world: &mut World, sides: &Sides)
    requires
        world_wf(*old(world)),
        sides_wf(*sides),
    ensures
        final(world).slots@.len() == old(world).slots@.len(),
        forall|i: int|
            0 <= i < old(world).slots@.len() ==> retarget_frame(
                #[trigger] old(world).slots@[i],
                final(world).slots@[i],
                *sides,
            ),
        world_wf(*final(world)),
{
    let ghost s = old(world).slots@;
    let n = world.entity_count();
    let mut id: usize = 0;
    while id < n
        invariant
            id <= n,
            n == s.len(),
            s == old(world).slots@,
            world.slots@.len() == n,
            world_wf(*old(world)),
            sides_wf(*sides),
            world_wf(*world),
            forall|i: int|
                0 <= i < id ==> retarget_frame(#[trigger] s[i], world.slots@[i], *sides),
            forall|i: int| id <= i < n ==> world.slots@[i] == s[i],
        decreases n - id,
    {
        let slot = world.slots[id];
        if let Some(d) = slot {
            if d.position.is_some() && d.move_torwards.is_some() {
                let p = d.position.unwrap().0;
                let m = d.move_torwards.unwrap();
                if dist_sq(m.destination, p) <= 1 {
                    let nt = sides.get_random_point(m.side);
                    let mut nd = d;
                    nd.move_torwards = Some(nt);
                    world.slots[id] = Some(nd);
                }
            }
        }
        id += 1;
    }
}

} // verus!
