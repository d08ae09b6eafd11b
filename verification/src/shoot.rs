//! The weapon targeting/fire system. Each emitter (Position + Shoot)
//! attempts its cooldown action once per tick; on success it aims one
//! missile at each of up to ten living enemies, offset forward so the
//! missile does not spawn inside the emitter. An emitter whose cooldown has
//! not elapsed spawns nothing.
use vstd::prelude::*;

use crate::bundles::create_missile;
use crate::bundles::missile_bundle;
use crate::collision::is_enemy_slot;
use crate::collision::slot_pos;
use crate::components::AssetId;
use crate::components::EntityData;
use crate::components::ProjectileKind;
use crate::components::Position;
use crate::components::Recover;
use crate::components::Shoot;
use crate::components::TIME_MAX;
use crate::components::VEL_MAX;
use crate::components::entity_wf;
use crate::components::recover_ready;
use crate::geom::Vec2;
use crate::geom::clamp_add;
use crate::geom::clamp_add_spec;
use crate::geom::dist_sq;
use crate::geom::dist_sq_spec;
use crate::geom::isqrt;
use crate::geom::isqrt_spec;
use crate::geom::lemma_component_le_isqrt;
use crate::geom::mul_div;
use crate::geom::mul_div_spec;
use crate::geom::vec2_in_bound;
use crate::world::World;
use crate::world::world_wf;

verus! {

/// How many enemies one emitter may target in one tick.
pub const MAX_TARGETS: usize = 10;

/// Speed of a fired missile, world units per second.
pub const MISSILE_SPEED: u64 = 700;

/// How far in front of the emitter a missile appears.
pub const MUZZLE_OFFSET: u64 = 30;

/// The entity at `i` is a weapon emitter: it carries Position and Shoot.
pub open spec fn is_emitter(s: Seq<Option<EntityData>>, i: int) -> bool {
    &&& 0 <= i < s.len()
    &&& s[i] is Some
    &&& s[i]->Some_0.position is Some
    &&& s[i]->Some_0.shoot is Some
}

pub open spec fn emitter_ready(s: Seq<Option<EntityData>>, i: int, now: u64) -> bool {
    recover_ready(s[i]->Some_0.shoot->Some_0.recover, now)
}

/// One slot after the cooldown attempts: a ready emitter records `now` as
/// its last action; everything else is untouched.
pub open spec fn shoot_slot(s_i: Option<EntityData>, now: u64) -> Option<EntityData> {
    match s_i {
        Option::None => None,
        Option::Some(d) => if d.position is Some && d.shoot is Some && recover_ready(
            d.shoot->Some_0.recover,
            now,
        ) {
            Some(
                EntityData {
                    shoot: Some(
                        Shoot {
                            recover: Recover {
                                last_action: Some(now),
                                recover: d.shoot->Some_0.recover.recover,
                            },
                        },
                    ),
                    ..d
                },
            )
        } else {
            Some(d)
        },
    }
}

/// The ids of the living enemies among the first `n` slots, ascending.
pub open spec fn enemy_ids(s: Seq<Option<EntityData>>, n: int) -> Seq<int>
    decreases n,
{
    if n <= 0 {
        Seq::empty()
    } else if is_enemy_slot(s, n - 1) {
        enemy_ids(s, n - 1).push(n - 1)
    } else {
        enemy_ids(s, n - 1)
    }
}

/// The up-to-ten enemies an emitter aims at this tick.
pub open spec fn first_targets(s: Seq<Option<EntityData>>) -> Seq<int> {
    let ids = enemy_ids(s, s.len() as int);
    if ids.len() <= MAX_TARGETS {
        ids
    } else {
        ids.take(MAX_TARGETS as int)
    }
}

/// The missile an emitter at `spawn` fires at the enemy in slot `t`: aimed
/// along the line to the enemy, spawned one muzzle-offset forward. An enemy
/// standing exactly on the emitter gives no direction and no missile.
pub open spec fn shot_for(s: Seq<Option<EntityData>>, spawn: Vec2, t: int, now: u64) -> Option<
    EntityData,
> {
    let tp = slot_pos(s, t);
    if tp == spawn {
        None
    } else {
        let dx = tp.x - spawn.x;
        let dy = tp.y - spawn.y;
        let d = isqrt_spec(dx * dx + dy * dy);
        let muzzle = Vec2 {
            x: clamp_add_spec(spawn.x as int, mul_div_spec(dx, MUZZLE_OFFSET as int, d)) as i64,
            y: clamp_add_spec(spawn.y as int, mul_div_spec(dy, MUZZLE_OFFSET as int, d)) as i64,
        };
        Some(
            missile_bundle(
                AssetId::Missile,
                Position(muzzle),
                Vec2 { x: dx as i64, y: dy as i64 },
                MISSILE_SPEED,
                ProjectileKind::SpawnMissile,
                now,
            ),
        )
    }
}

/// The missiles fired from `spawn` at the given targets, in target order.
pub open spec fn shots_for_targets(
    s: Seq<Option<EntityData>>,
    spawn: Vec2,
    ts: Seq<int>,
    now: u64,
) -> Seq<EntityData>
    decreases ts.len(),
{
    if ts.len() == 0 {
        Seq::empty()
    } else {
        shots_for_targets(s, spawn, ts.drop_last(), now) + (match shot_for(
            s,
            spawn,
            ts.last(),
            now,
        ) {
            Option::Some(m) => seq![m],
            Option::None => Seq::empty(),
        })
    }
}

/// Everything the emitters with ids below `n` fire this tick: nothing from
/// an emitter whose cooldown has not elapsed, up to ten aimed missiles from
/// one that is ready.
pub open spec fn all_shots(s: Seq<Option<EntityData>>, now: u64, n: int) -> Seq<EntityData>
    decreases n,
{
    if n <= 0 {
        Seq::empty()
    } else {
        all_shots(s, now, n - 1) + (if is_emitter(s, n - 1) && emitter_ready(s, n - 1, now) {
            shots_for_targets(s, slot_pos(s, n - 1), first_targets(s), now)
        } else {
            Seq::empty()
        })
    }
}

/// A blocked emitter contributes nothing to the tick's spawns.
pub proof fn lemma_cooldown_blocks(s: Seq<Option<EntityData>>, now: u64, p: int)
    requires
        0 <= p,
        !(is_emitter(s, p) && emitter_ready(s, p, now)),
    ensures
        all_shots(s, now, p + 1) == all_shots(s, now, p),
{
    assert(all_shots(s, now, p + 1) =~= all_shots(s, now, p) + Seq::<EntityData>::empty());
    assert(all_shots(s, now, p) + Seq::<EntityData>::empty() =~= all_shots(s, now, p));
}

/// A ready emitter fires at most one missile per target, and at most ten.
pub proof fn lemma_shots_bounded(s: Seq<Option<EntityData>>, spawn: Vec2, ts: Seq<int>, now: u64)
    ensures
        shots_for_targets(s, spawn, ts, now).len() <= ts.len(),
    decreases ts.len(),
{
    if ts.len() > 0 {
        lemma_shots_bounded(s, spawn, ts.drop_last(), now);
    }
}

/// One tick adds at most the configured max-target count of missiles per
/// emitter: the ready emitter's contribution is bounded by the target cap.
pub proof fn lemma_ready_emitter_cap(s: Seq<Option<EntityData>>, now: u64, p: int)
    requires
        0 <= p,
    ensures
        all_shots(s, now, p + 1).len() <= all_shots(s, now, p).len() + MAX_TARGETS,
{
    if is_emitter(s, p) && emitter_ready(s, p, now) {
        lemma_shots_bounded(s, slot_pos(s, p), first_targets(s), now);
    }
}

/// Weapon fire: every ready emitter's cooldown is recharged from `now` and
/// its missiles are appended, in emitter-id order then target order; a
/// blocked emitter changes nothing. The appended sequence is exactly
/// `all_shots` of the old world.
pub fn shoot_at_enemy(world: &mut World, now: u64)
    requires
        world_wf(*old(world)),
        now <= TIME_MAX,
    ensures
        final(world).slots@.len() == old(world).slots@.len() + all_shots(
            old(world).slots@,
            now,
            old(world).slots@.len() as int,
        ).len(),
        forall|i: int| 0 <= i < old(world).slots@.len() ==> final(world).slots@[i] == shoot_slot(
            #[trigger] old(world).slots@[i],
            now,
        ),
        forall|k: int|
            0 <= k < all_shots(old(world).slots@, now, old(world).slots@.len() as int).len()
                ==> final(world).slots@[old(world).slots@.len() + k] == Some(
                all_shots(old(world).slots@, now, old(world).slots@.len() as int)[k],
            ),
        world_wf(*final(world)),
{
    let ghost s = old(world).slots@;
    let n = world.entity_count();

    // The target list: the first up-to-ten living enemies, fixed for the
    // whole tick since cooldown updates touch no Enemy or Position.
    let mut ids: Vec<usize> = Vec::new();
    let mut i: usize = 0;
    while i < n
        invariant
            i <= n,
            n == s.len(),
            s == old(world).slots@,
            world.slots@ == s,
            ids@.len() == enemy_ids(s, i as int).len(),
            forall|k: int| 0 <= k < ids@.len() ==> #[trigger] ids@[k] == enemy_ids(s, i as int)[k],
            forall|k: int| 0 <= k < ids@.len() ==> is_enemy_slot(s, #[trigger] ids@[k] as int),
        decreases n - i,
    {
        let slot = world.slots[i];
        if let Some(d) = slot {
            if d.enemy.is_some() && d.position.is_some() {
                ids.push(i);
            }
        }
        i += 1;
    }
    let t_count: usize = if ids.len() < MAX_TARGETS {
        ids.len()
    } else {
        MAX_TARGETS
    };
    proof {
        assert(first_targets(s).len() == t_count);
        assert forall|k: int| 0 <= k < t_count implies #[trigger] first_targets(s)[k] == ids@[k] by {
            if enemy_ids(s, s.len() as int).len() <= MAX_TARGETS {
            } else {
                assert(first_targets(s)[k] == enemy_ids(s, s.len() as int)[k]);
            }
        }
    }

    let mut spawned: Vec<EntityData> = Vec::new();
    let mut p: usize = 0;
    while p < n
        invariant
            p <= n,
            n == s.len(),
            s == old(world).slots@,
            world.slots@.len() == n,
            now <= TIME_MAX,
            world_wf(*old(world)),
            forall|i2: int| 0 <= i2 < p ==> #[trigger] world.slots@[i2] == shoot_slot(s[i2], now),
            forall|i2: int| p <= i2 < n ==> #[trigger] world.slots@[i2] == s[i2],
            ids@.len() >= t_count,
            t_count == first_targets(s).len(),
            forall|k: int| 0 <= k < t_count ==> #[trigger] ids@[k] == first_targets(s)[k],
            forall|k: int| 0 <= k < ids@.len() ==> is_enemy_slot(s, #[trigger] ids@[k] as int),
            spawned@ =~= all_shots(s, now, p as int),
            forall|k: int| 0 <= k < spawned@.len() ==> entity_wf(#[trigger] spawned@[k]),
        decreases n - p,
    {
        let slot = world.slots[p];
        if let Some(d) = slot {
            if d.position.is_some() && d.shoot.is_some() {
                proof {
                    assert(world.slots@[p as int] == s[p as int]);
                    assert(is_emitter(s, p as int));
                    assert(entity_wf(s[p as int]->Some_0));
                }
                let spawn_pos = d.position.unwrap().0;
                let mut rec = d.shoot.unwrap().recover;
                let fired = rec.action(now);
                let mut nd = d;
                nd.shoot = Some(Shoot { recover: rec });
                world.slots[p] = Some(nd);
                if fired.is_some() {
                    let mut j: usize = 0;
                    while j < t_count
                        invariant
                            j <= t_count,
                            n == s.len(),
                            s == old(world).slots@,
                            world.slots@.len() == n,
                            now <= TIME_MAX,
                            world_wf(*old(world)),
                            p < n,
                            is_emitter(s, p as int),
                            emitter_ready(s, p as int, now),
                            spawn_pos == slot_pos(s, p as int),
                            vec2_in_bound(spawn_pos),
                            forall|i2: int| 0 <= i2 <= p ==> #[trigger] world.slots@[i2]
                                == shoot_slot(s[i2], now),
                            forall|i2: int| p < i2 < n ==> #[trigger] world.slots@[i2] == s[i2],
                            ids@.len() >= t_count,
                            t_count == first_targets(s).len(),
                            forall|k: int| 0 <= k < t_count ==> #[trigger] ids@[k]
                                == first_targets(s)[k],
                            forall|k: int| 0 <= k < ids@.len() ==> is_enemy_slot(
                                s,
                                #[trigger] ids@[k] as int,
                            ),
                            spawned@ =~= all_shots(s, now, p as int) + shots_for_targets(
                                s,
                                spawn_pos,
                                first_targets(s).take(j as int),
                                now,
                            ),
                            forall|k: int| 0 <= k < spawned@.len() ==> entity_wf(
                                #[trigger] spawned@[k],
                            ),
                        decreases t_count - j,
                    {
                        let t = ids[j];
                        proof {
                            assert(is_enemy_slot(s, t as int));
                            assert(entity_wf(s[t as int]->Some_0));
                            assert(world.slots@[t as int] == if t <= p {
                                shoot_slot(s[t as int], now)
                            } else {
                                s[t as int]
                            });
                        }
                        let td = world.slots[t].unwrap();
                        let tp = td.position.unwrap().0;
                        proof {
                            assert(tp == slot_pos(s, t as int));
                        }
                        let ghost ts_pre = first_targets(s).take(j as int);
                        let ghost ts_post = first_targets(s).take(j + 1);
                        proof {
                            assert(ts_post.drop_last() =~= ts_pre);
                            assert(ts_post.last() == t as int);
                        }
                        if !(tp.x == spawn_pos.x && tp.y == spawn_pos.y) {
                            let dx = tp.x - spawn_pos.x;
                            let dy = tp.y - spawn_pos.y;
                            let d2 = dist_sq(tp, spawn_pos);
                            proof {
                                assert(dist_sq_spec(tp, spawn_pos) == dx * dx + dy
                                    * dy) by (nonlinear_arith)
                                    requires
                                        dx == tp.x - spawn_pos.x,
                                        dy == tp.y - spawn_pos.y,
                                        dist_sq_spec(tp, spawn_pos) == (tp.x - spawn_pos.x) * (tp.x
                                            - spawn_pos.x) + (tp.y - spawn_pos.y) * (tp.y
                                            - spawn_pos.y),
                                ;
                            }
                            let dist = isqrt(d2 as u64);
                            proof {
                                assert(d2 >= 1) by (nonlinear_arith)
                                    requires
                                        d2 == dx * dx + dy * dy,
                                        dx != 0 || dy != 0,
                                ;
                                assert(d2 as u64 == d2);
                                if dist == 0 {
                                    assert(((d2 as u64) as int) < (0 + 1) * (0 + 1));
                                }
                                lemma_component_le_isqrt(dx as int, dy as int, dist as int);
                                assert(-4_000_000_000_000_000_000 <= dx * MUZZLE_OFFSET
                                    <= 4_000_000_000_000_000_000 && -4_000_000_000_000_000_000 <= dy
                                    * MUZZLE_OFFSET <= 4_000_000_000_000_000_000)
                                    by (nonlinear_arith)
                                    requires
                                        -2_000_000_000 <= dx <= 2_000_000_000,
                                        -2_000_000_000 <= dy <= 2_000_000_000,
                                ;
                            }
                            let ox = mul_div(dx, MUZZLE_OFFSET, dist);
                            let oy = mul_div(dy, MUZZLE_OFFSET, dist);
                            let muzzle = Vec2 {
                                x: clamp_add(spawn_pos.x, ox),
                                y: clamp_add(spawn_pos.y, oy),
                            };
                            let m = create_missile(
                                AssetId::Missile,
                                Position(muzzle),
                                Vec2 { x: dx, y: dy },
                                MISSILE_SPEED,
                                ProjectileKind::SpawnMissile,
                                now,
                            );
                            spawned.push(m);
                            proof {
                                assert(shot_for(s, spawn_pos, t as int, now) == Some(m));
                                assert(spawned@ =~= all_shots(s, now, p as int)
                                    + shots_for_targets(s, spawn_pos, ts_post, now));
                            }
                        } else {
                            proof {
                                assert(shot_for(s, spawn_pos, t as int, now) is None);
                                assert(shots_for_targets(s, spawn_pos, ts_post, now)
                                    =~= shots_for_targets(s, spawn_pos, ts_pre, now));
                            }
                        }
                        j += 1;
                    }
                    proof {
                        assert(first_targets(s).take(t_count as int) =~= first_targets(s));
                        assert(all_shots(s, now, p + 1) =~= all_shots(s, now, p as int)
                            + shots_for_targets(s, spawn_pos, first_targets(s), now));
                    }
                } else {
                    proof {
                        assert(!emitter_ready(s, p as int, now));
                        assert(all_shots(s, now, p + 1) =~= all_shots(s, now, p as int)
                            + Seq::<EntityData>::empty());
                    }
                }
            } else {
                proof {
                    assert(all_shots(s, now, p + 1) =~= all_shots(s, now, p as int) + Seq::<
                        EntityData,
                    >::empty());
                }
            }
        } else {
            proof {
                assert(all_shots(s, now, p + 1) =~= all_shots(s, now, p as int) + Seq::<
                    EntityData,
                >::empty());
            }
        }
        p += 1;
    }
    let ghost after_pass = world.slots@;
    let ns = spawned.len();
    let mut k: usize = 0;
    while k < ns
        invariant
            k <= ns,
            ns == spawned@.len(),
            world.slots@.len() == after_pass.len() + k,
            forall|i2: int| 0 <= i2 < after_pass.len() ==> world.slots@[i2] == after_pass[i2],
            forall|j2: int| 0 <= j2 < k ==> world.slots@[after_pass.len() + j2] == Some(
                spawned@[j2],
            ),
        decreases ns - k,
    {
        world.insert_entity(spawned[k]);
        k += 1;
    }
    proof {
        assert forall|i2: int| 0 <= i2 < n implies world.slots@[i2] == shoot_slot(s[i2], now) by {
            assert(world.slots@[i2] == after_pass[i2]);
        }
        assert forall|i2: int|
            0 <= i2 < world.slots@.len() && world.slots@[i2] is Some implies entity_wf(
            #[trigger] world.slots@[i2]->Some_0,
        ) by {
            if i2 < n {
                assert(world.slots@[i2] == shoot_slot(s[i2], now));
                assert(s[i2] is Some && entity_wf(s[i2]->Some_0));
            } else {
                assert(world.slots@[i2] == Some(spawned@[i2 - n]));
                assert(entity_wf(spawned@[i2 - n]));
            }
        }
    }
}

} // verus!
