//! The generic collision/damage resolver. It is polymorphic over the
//! projectile kind: one resolution path shared by all projectile variants,
//! each customising its own side effect through a hit behavior — nothing
//! for a plain projectile, a radial burst of child projectiles for a
//! self-replicating one.
//!
//! The whole pass is specified exactly: which enemy each projectile hits
//! (the first one within the hit radius, in entity-id order), every enemy's
//! health after all hits, which projectiles are consumed, and every entity
//! the pass appends.
use vstd::prelude::*;

use crate::bundles::create_explosion;
use crate::bundles::create_missile;
use crate::bundles::explosion_bundle;
use crate::bundles::missile_bundle;
use crate::components::AssetId;
use crate::components::Enemy;
use crate::components::EntityData;
use crate::components::ProjectileKind;
use crate::components::Position;
use crate::components::TIME_MAX;
use crate::components::VEL_MAX;
use crate::components::entity_wf;
use crate::geom::Vec2;
use crate::geom::dist_sq;
use crate::geom::dist_sq_spec;
use crate::geom::clamp_add_vec;
use crate::geom::clamp_add_vec_spec;
use crate::geom::vec2_in_bound;
use crate::world::MutationQueue;
use crate::world::World;
use crate::world::world_wf;

verus! {

broadcast use vstd::seq_lib::lemma_seq_contains_after_push;

/// A projectile within this distance of an enemy has struck it; the test is
/// inclusive.
pub const HIT_RADIUS: i64 = 10;

/// The kind-specific side effect invoked on a hit.
#[derive(Clone, Copy, PartialEq, Eq, Structural, Debug)]
pub enum HitBehavior {
    /// No side effect: a plain projectile.
    Plain,
    /// Queue `count` child projectiles of kind `child`, arranged radially
    /// around the impact point, committed by the finish step of the pass.
    RadialBurst { count: usize, speed: u64, offset: u64, child: ProjectileKind },
}

pub open spec fn behavior_wf(b: HitBehavior) -> bool {
    match b {
        HitBehavior::Plain => true,
        HitBehavior::RadialBurst { count, speed, offset, child } => count <= 10_000 && speed
            <= VEL_MAX && 1 <= offset <= 1_000,
    }
}

/// The entity at `i` is a projectile of the given kind: it carries the
/// kind's tag, a Position and a Damage.
pub open spec fn is_proj(s: Seq<Option<EntityData>>, i: int, kind: ProjectileKind) -> bool {
    &&& 0 <= i < s.len()
    &&& s[i] is Some
    &&& s[i]->Some_0.projectile == Some(kind)
    &&& s[i]->Some_0.position is Some
    &&& s[i]->Some_0.damage is Some
}

/// The entity at `i` can be struck: it carries Enemy and Position.
pub open spec fn is_enemy_slot(s: Seq<Option<EntityData>>, i: int) -> bool {
    &&& 0 <= i < s.len()
    &&& s[i] is Some
    &&& s[i]->Some_0.enemy is Some
    &&& s[i]->Some_0.position is Some
}

pub open spec fn slot_pos(s: Seq<Option<EntityData>>, i: int) -> Vec2 {
    s[i]->Some_0.position->Some_0.0
}

pub open spec fn proj_damage(s: Seq<Option<EntityData>>, i: int) -> u64 {
    s[i]->Some_0.damage->Some_0.0
}

pub open spec fn enemy_health(s: Seq<Option<EntityData>>, i: int) -> int {
    s[i]->Some_0.enemy->Some_0.health as int
}

/// First enemy at or after index `from` within the hit radius of `pos`:
/// first found in entity-id order, not nearest.
pub open spec fn first_enemy_from(s: Seq<Option<EntityData>>, pos: Vec2, from: int) -> Option<int>
    decreases s.len() - from,
{
    if from < 0 || from >= s.len() {
        None
    } else if is_enemy_slot(s, from) && dist_sq_spec(pos, slot_pos(s, from)) <= HIT_RADIUS
        * HIT_RADIUS {
        Some(from)
    } else {
        first_enemy_from(s, pos, from + 1)
    }
}

/// The enemy the projectile at `p` strikes, if any.
pub open spec fn hit_target(s: Seq<Option<EntityData>>, p: int, kind: ProjectileKind) -> Option<
    int,
> {
    if is_proj(s, p, kind) {
        first_enemy_from(s, slot_pos(s, p), 0)
    } else {
        None
    }
}

/// All (projectile, enemy) hit pairs among the first `n` entity ids, in
/// projectile-id order.
pub open spec fn hit_seq(s: Seq<Option<EntityData>>, kind: ProjectileKind, n: int) -> Seq<
    (int, int),
>
    decreases n,
{
    if n <= 0 {
        Seq::empty()
    } else {
        let rest = hit_seq(s, kind, n - 1);
        match hit_target(s, n - 1, kind) {
            Option::Some(e) => rest.push((n - 1, e)),
            Option::None => rest,
        }
    }
}

/// Subtraction on health, saturating at the lowest representable value.
pub open spec fn sub_sat(h: int, dmg: int) -> int {
    if h - dmg >= i64::MIN {
        h - dmg
    } else {
        i64::MIN as int
    }
}

/// The health of the enemy at `e` after the projectiles with ids below `n`
/// have been resolved: each hit subtracts exactly its projectile's damage.
pub open spec fn health_after(
    s: Seq<Option<EntityData>>,
    kind: ProjectileKind,
    e: int,
    n: int,
) -> int
    decreases n,
{
    if n <= 0 {
        enemy_health(s, e)
    } else {
        let prev = health_after(s, kind, e, n - 1);
        if hit_target(s, n - 1, kind) == Some(e) {
            sub_sat(prev, proj_damage(s, n - 1) as int)
        } else {
            prev
        }
    }
}

/// One slot after the pass: a projectile of the kind that struck is
/// consumed; an enemy keeps all its components with its health after all
/// hits; everything else is untouched.
pub open spec fn resolve_slot(s: Seq<Option<EntityData>>, kind: ProjectileKind, i: int) -> Option<
    EntityData,
> {
    if is_proj(s, i, kind) && hit_target(s, i, kind) is Some {
        None
    } else if is_enemy_slot(s, i) {
        Some(
            EntityData {
                enemy: Some(Enemy { health: health_after(s, kind, i, s.len() as int) as i64 }),
                ..s[i]->Some_0
            },
        )
    } else {
        s[i]
    }
}

/// The explosions the pass appends: one per hit, at the striking
/// projectile's position, in hit order.
pub open spec fn explosions_of(
    s: Seq<Option<EntityData>>,
    kind: ProjectileKind,
    hits: Seq<(int, int)>,
) -> Seq<EntityData> {
    hits.map_values(|h: (int, int)| explosion_bundle(Position(slot_pos(s, h.0))))
}

/// The directions of a radial burst of `count` around a point: the
/// direction of child `i` makes the fraction `(i+1)/count` of a full turn,
/// walked at equal spacing around the diamond |x| + |y| = q; the child
/// stands one such direction away from the impact point, so the offset `q`
/// is both its distance (in the diamond norm) and its heading scale.
pub open spec fn diamond_dir(q: int, t: int) -> Vec2
    recommends
        q >= 1,
        0 <= t < 4 * q,
{
    if t < q {
        Vec2 { x: (q - t) as i64, y: t as i64 }
    } else if t < 2 * q {
        Vec2 { x: (-(t - q)) as i64, y: (q - (t - q)) as i64 }
    } else if t < 3 * q {
        Vec2 { x: (-(q - (t - 2 * q))) as i64, y: (-(t - 2 * q)) as i64 }
    } else {
        Vec2 { x: (t - 3 * q) as i64, y: (-(q - (t - 3 * q))) as i64 }
    }
}

/// The perimeter parameter of child `i` out of `count`, spaced one step of
/// `4q / count` apart around the diamond, starting one step in.
pub open spec fn radial_param(q: int, count: int, i: int) -> int {
    (((i + 1) * 4 * q) / count) % (4 * q)
}

pub open spec fn radial_child(
    pos: Vec2,
    speed: u64,
    q: int,
    count: int,
    i: int,
    child: ProjectileKind,
    now: u64,
) -> EntityData {
    let dir = diamond_dir(q, radial_param(q, count, i));
    missile_bundle(
        AssetId::SmallMissile,
        Position(clamp_add_vec_spec(pos, dir)),
        dir,
        speed,
        child,
        now,
    )
}

/// The first `n` children of a radial burst of `count`.
pub open spec fn radial_seq(
    pos: Vec2,
    speed: u64,
    q: int,
    count: int,
    n: int,
    child: ProjectileKind,
    now: u64,
) -> Seq<EntityData>
    decreases n,
{
    if n <= 0 {
        Seq::empty()
    } else {
        radial_seq(pos, speed, q, count, n - 1, child, now).push(
            radial_child(pos, speed, q, count, n - 1, child, now),
        )
    }
}

/// Everything the hit hooks queued over the given hits, committed by the
/// finish step: nothing for a plain projectile, a full radial burst per hit
/// for a self-replicating one.
pub open spec fn children_of(
    s: Seq<Option<EntityData>>,
    behavior: HitBehavior,
    hits: Seq<(int, int)>,
    now: u64,
) -> Seq<EntityData>
    decreases hits.len(),
{
    if hits.len() == 0 {
        Seq::empty()
    } else {
        children_of(s, behavior, hits.drop_last(), now) + (match behavior {
            HitBehavior::Plain => Seq::empty(),
            HitBehavior::RadialBurst { count, speed, offset, child } => radial_seq(
                slot_pos(s, hits.last().0),
                speed,
                offset as int,
                count as int,
                count as int,
                child,
                now,
            ),
        })
    }
}

/// The exact world contents after one resolver pass.
pub open spec fn resolve_post(
    s: Seq<Option<EntityData>>,
    kind: ProjectileKind,
    behavior: HitBehavior,
    now: u64,
) -> Seq<Option<EntityData>> {
    let hits = hit_seq(s, kind, s.len() as int);
    Seq::new(s.len(), |i: int| resolve_slot(s, kind, i)) + explosions_of(s, kind, hits).map_values(
        |d: EntityData| Some(d),
    ) + children_of(s, behavior, hits, now).map_values(|d: EntityData| Some(d))
}

/// The world during the pass, after the projectiles with ids below `p` have
/// been resolved: enemies carry their running health, nothing else has
/// changed yet (consumption and spawning are deferred).
pub open spec fn damaged_slot(
    s: Seq<Option<EntityData>>,
    kind: ProjectileKind,
    i: int,
    p: int,
) -> Option<EntityData> {
    if is_enemy_slot(s, i) {
        Some(
            EntityData {
                enemy: Some(Enemy { health: health_after(s, kind, i, p) as i64 }),
                ..s[i]->Some_0
            },
        )
    } else if 0 <= i < s.len() {
        s[i]
    } else {
        None
    }
}

/// Health only falls during a pass, and never below the saturation floor.
pub proof fn lemma_health_after_bounds(
    s: Seq<Option<EntityData>>,
    kind: ProjectileKind,
    e: int,
    n: int,
)
    requires
        is_enemy_slot(s, e),
        n >= 0,
    ensures
        i64::MIN <= health_after(s, kind, e, n) <= enemy_health(s, e),
    decreases n,
{
    if n > 0 {
        lemma_health_after_bounds(s, kind, e, n - 1);
    }
}

/// Every pair recorded by `hit_seq` is a real hit: a projectile of the
/// kind below the bound, striking the recorded enemy.
pub proof fn lemma_hit_seq_elems(s: Seq<Option<EntityData>>, kind: ProjectileKind, n: int)
    ensures
        forall|k: int|
            0 <= k < hit_seq(s, kind, n).len() ==> {
                let h = #[trigger] hit_seq(s, kind, n)[k];
                &&& 0 <= h.0 < n
                &&& is_proj(s, h.0, kind)
                &&& hit_target(s, h.0, kind) == Some(h.1)
            },
    decreases n,
{
    if n > 0 {
        lemma_hit_seq_elems(s, kind, n - 1);
    }
}

/// A successful search really found a struck enemy.
pub proof fn lemma_first_enemy_some(s: Seq<Option<EntityData>>, pos: Vec2, from: int, e: int)
    requires
        first_enemy_from(s, pos, from) == Some(e),
    ensures
        from <= e < s.len(),
        is_enemy_slot(s, e),
        dist_sq_spec(pos, slot_pos(s, e)) <= HIT_RADIUS * HIT_RADIUS,
    decreases s.len() - from,
{
    if 0 <= from < s.len() {
        if !(is_enemy_slot(s, from) && dist_sq_spec(pos, slot_pos(s, from)) <= HIT_RADIUS
            * HIT_RADIUS) {
            lemma_first_enemy_some(s, pos, from + 1, e);
        }
    }
}

/// The first struck enemy is the same in two worlds that agree on which
/// slots are enemies and where they stand.
pub proof fn lemma_first_enemy_equiv(
    s1: Seq<Option<EntityData>>,
    s2: Seq<Option<EntityData>>,
    pos: Vec2,
    from: int,
)
    requires
        s1.len() == s2.len(),
        forall|i: int|
            0 <= i < s1.len() ==> (is_enemy_slot(s1, i) <==> is_enemy_slot(s2, i)),
        forall|i: int|
            0 <= i < s1.len() && is_enemy_slot(s1, i) ==> slot_pos(s1, i) == slot_pos(s2, i),
    ensures
        first_enemy_from(s1, pos, from) == first_enemy_from(s2, pos, from),
    decreases s1.len() - from,
{
    if 0 <= from < s1.len() {
        lemma_first_enemy_equiv(s1, s2, pos, from + 1);
    }
}

/// Scans the world in entity-id order for the first enemy within the hit
/// radius of `pos`.
fn find_first_enemy(world: &World, pos: Vec2) -> (r: Option<usize>)
    requires
        world_wf(*world),
        vec2_in_bound(pos),
    ensures
        match r {
            Option::Some(e) => e < world.slots@.len() && first_enemy_from(world.slots@, pos, 0)
                == Some(e as int),
            Option::None => first_enemy_from(world.slots@, pos, 0) is None,
        },
{
    let n = world.entity_count();
    let mut e: usize = 0;
    while e < n
        invariant
            e <= n,
            n == world.slots@.len(),
            world_wf(*world),
            vec2_in_bound(pos),
            first_enemy_from(world.slots@, pos, 0) == first_enemy_from(world.slots@, pos, e as int),
        decreases n - e,
    {
        let slot = world.slots[e];
        if let Some(d) = slot {
            if d.enemy.is_some() && d.position.is_some() {
                let epos = d.position.unwrap().0;
                if dist_sq(pos, epos) <= HIT_RADIUS * HIT_RADIUS {
                    return Some(e);
                }
            }
        }
        e += 1;
    }
    None
}

/// One resolver pass for one projectile kind. Every projectile of the kind
/// strikes the first enemy within the hit radius, in entity-id order; each
/// struck enemy loses exactly the projectile's damage (several hits in one
/// pass accumulate); every striking projectile is consumed and leaves one
/// explosion at its own position; the finish step then commits whatever the
/// behavior queued. `resolve_post` states the entire outcome.
pub fn resolve_hits(world: &mut World, kind: ProjectileKind, behavior: HitBehavior, now: u64)
    requires
        world_wf(*old(world)),
        behavior_wf(behavior),
        now <= TIME_MAX,
    ensures
        final(world).slots@ =~= resolve_post(old(world).slots@, kind, behavior, now),
        world_wf(*final(world)),
{
    let ghost s = old(world).slots@;
    let n = world.entity_count();
    let mut queue = MutationQueue::new();
    let mut finish: Vec<EntityData> = Vec::new();
    let mut p: usize = 0;
    while p < n
        invariant
            p <= n,
            n == s.len(),
            s == old(world).slots@,
            world.slots@.len() == n,
            world_wf(*old(world)),
            behavior_wf(behavior),
            now <= TIME_MAX,
            forall|i: int| 0 <= i < n ==> #[trigger] world.slots@[i] == damaged_slot(s, kind, i, p as int),
            queue.removals@.len() == hit_seq(s, kind, p as int).len(),
            forall|k: int| 0 <= k < queue.removals@.len() ==> #[trigger] queue.removals@[k]
                == hit_seq(s, kind, p as int)[k].0,
            forall|i: int| 0 <= i < p ==> (queue.removals@.contains(i as usize)
                <==> hit_target(s, i, kind) is Some),
            forall|i: int| p <= i < n ==> !queue.removals@.contains(#[trigger] (i as usize)),
            queue.spawns@ =~= explosions_of(s, kind, hit_seq(s, kind, p as int)),
            finish@ =~= children_of(s, behavior, hit_seq(s, kind, p as int), now),
            forall|k: int| 0 <= k < finish@.len() ==> entity_wf(#[trigger] finish@[k]),
        decreases n - p,
    {
        broadcast use Seq::lemma_push_map_commute;

        let ghost hits_before = hit_seq(s, kind, p as int);
        let slot = world.slots[p];
        let mut struck = false;
        if let Some(d) = slot {
            if d.projectile.is_some() && d.position.is_some() && d.damage.is_some() {
                if d.projectile.unwrap() == kind {
                    let ppos = d.position.unwrap().0;
                    proof {
                        assert(world.slots@[p as int] == damaged_slot(s, kind, p as int, p as int));
                        assert(s[p as int] is Some && d.projectile == s[p as int]->Some_0.projectile
                            && d.position == s[p as int]->Some_0.position && d.damage == s[
                        p as int]->Some_0.damage);
                        assert(is_proj(s, p as int, kind));
                        assert(slot_pos(s, p as int) == ppos);
                        assert(entity_wf(s[p as int]->Some_0));
                        assert(vec2_in_bound(ppos));
                        assert forall|i: int|
                            0 <= i < n implies (is_enemy_slot(world.slots@, i) <==> is_enemy_slot(
                            s,
                            i,
                        )) && (is_enemy_slot(s, i) ==> slot_pos(world.slots@, i) == slot_pos(
                            s,
                            i,
                        )) by {
                            assert(world.slots@[i] == damaged_slot(s, kind, i, p as int));
                        }
                        assert(world_wf(*world)) by {
                            assert forall|i: int|
                                0 <= i < world.slots@.len() && world.slots@[i]
                                    is Some implies entity_wf(
                                #[trigger] world.slots@[i]->Some_0,
                            ) by {
                                assert(world.slots@[i] == damaged_slot(s, kind, i, p as int));
                                assert(s[i] is Some && entity_wf(s[i]->Some_0));
                            }
                        }
                    }
                    let found = find_first_enemy(world, ppos);
                    proof {
                        lemma_first_enemy_equiv(world.slots@, s, ppos, 0);
                        assert(hit_target(s, p as int, kind) == match found {
                            Option::Some(e) => Some(e as int),
                            Option::None => Option::<int>::None,
                        });
                    }
                    if let Some(e) = found {
                        struck = true;
                        proof {
                            lemma_first_enemy_some(world.slots@, ppos, 0, e as int);
                            assert(world.slots@[e as int] == damaged_slot(
                                s,
                                kind,
                                e as int,
                                p as int,
                            ));
                            assert(is_enemy_slot(s, e as int));
                        }
                        let ed = world.slots[e].unwrap();
                        let en = ed.enemy.unwrap();
                        let dmg = d.damage.unwrap().0;
                        proof {
                            assert(proj_damage(s, p as int) == dmg);
                            lemma_health_after_bounds(s, kind, e as int, p as int);
                        }
                        let di = dmg as i64;
                        let nh: i64 = if en.health >= i64::MIN + di {
                            en.health - di
                        } else {
                            i64::MIN
                        };
                        let mut ned = ed;
                        ned.enemy = Some(Enemy { health: nh });
                        world.slots[e] = Some(ned);
                        queue.remove_entity(p);
                        queue.spawn(create_explosion(Position(ppos)));
                        if let HitBehavior::RadialBurst { count, speed, offset, child } = behavior {
                            let mut kids = create_radial_missiles(
                                Position(ppos),
                                speed,
                                offset,
                                count,
                                child,
                                now,
                            );
                            finish.append(&mut kids);
                        }
                        proof {
                            let hits_now = hit_seq(s, kind, p + 1);
                            assert(hits_now == hits_before.push((p as int, e as int)));
                            assert(hits_now.drop_last() =~= hits_before);
                            assert(finish@ =~= children_of(s, behavior, hits_now, now));
                            assert forall|i: int|
                                0 <= i < n implies world.slots@[i] == damaged_slot(
                                s,
                                kind,
                                i,
                                p + 1,
                            ) by {
                                if i == e {
                                    assert(health_after(s, kind, i, p + 1) == sub_sat(
                                        health_after(s, kind, i, p as int),
                                        dmg as int,
                                    ));
                                } else {
                                    assert(health_after(s, kind, i, p + 1) == health_after(
                                        s,
                                        kind,
                                        i,
                                        p as int,
                                    ));
                                }
                            }
                        }
                    }
                }
            }
        }
        proof {
            if !struck {
                assert(hit_target(s, p as int, kind) is None);
                assert(hit_seq(s, kind, p + 1) == hits_before);
                assert forall|i: int|
                    0 <= i < n implies world.slots@[i] == damaged_slot(s, kind, i, p + 1) by {
                    assert(health_after(s, kind, i, p + 1) == health_after(s, kind, i, p as int));
                }
            }
        }
        p += 1;
    }
    let ghost hits = hit_seq(s, kind, n as int);
    queue.apply(world);
    proof {
        assert forall|i: int| 0 <= i < n implies world.slots@[i] == resolve_slot(s, kind, i) by {
            if queue.removals@.contains(i as usize) {
                assert(hit_target(s, i, kind) is Some);
                assert(is_proj(s, i, kind));
            } else {
                assert(!(is_proj(s, i, kind) && hit_target(s, i, kind) is Some));
                assert(world.slots@[i] == damaged_slot(s, kind, i, n as int));
            }
        }
    }
    let ghost after_apply = world.slots@;
    let nf = finish.len();
    let mut k: usize = 0;
    while k < nf
        invariant
            k <= nf,
            nf == finish@.len(),
            world.slots@.len() == after_apply.len() + k,
            forall|i: int| 0 <= i < after_apply.len() ==> world.slots@[i] == after_apply[i],
            forall|j: int| 0 <= j < k ==> world.slots@[after_apply.len() + j] == Some(
                finish@[j],
            ),
        decreases nf - k,
    {
        world.insert_entity(finish[k]);
        k += 1;
    }
    proof {
        assert(world.slots@ =~= resolve_post(s, kind, behavior, now));
        lemma_hit_seq_elems(s, kind, n as int);
        assert forall|i: int|
            0 <= i < world.slots@.len() && world.slots@[i] is Some implies entity_wf(
            #[trigger] world.slots@[i]->Some_0,
        ) by {
            if i < n {
                assert(world.slots@[i] == after_apply[i]);
                assert(world.slots@[i] == resolve_slot(s, kind, i));
                if world.slots@[i] is Some {
                    assert(s[i] is Some);
                    assert(entity_wf(s[i]->Some_0));
                }
            } else if i < n + queue.spawns@.len() {
                let h = hits[i - n];
                assert(world.slots@[i] == after_apply[i]);
                assert(after_apply[i] == Some(queue.spawns@[i - n]));
                assert(queue.spawns@[i - n] == explosion_bundle(Position(slot_pos(s, h.0))));
                assert(is_proj(s, h.0, kind));
                assert(entity_wf(s[h.0]->Some_0));
            } else {
                assert(world.slots@[i] == Some(finish@[i - n - queue.spawns@.len()]));
                assert(entity_wf(finish@[i - n - queue.spawns@.len()]));
            }
        }
    }
}

/// One equally spaced direction of a radial burst.
fn diamond_dir_exec(q: u64, t: u64) -> (r: Vec2)
    requires
        1 <= q <= 1_000,
        t < 4 * q,
    ensures
        r == diamond_dir(q as int, t as int),
        -(q as int) <= r.x <= q as int,
        -(q as int) <= r.y <= q as int,
        !(r.x == 0 && r.y == 0),
{
    if t < q {
        Vec2 { x: (q - t) as i64, y: t as i64 }
    } else if t < 2 * q {
        Vec2 { x: -((t - q) as i64), y: (q - (t - q)) as i64 }
    } else if t < 3 * q {
        Vec2 { x: -((q - (t - 2 * q)) as i64), y: -((t - 2 * q) as i64) }
    } else {
        Vec2 { x: (t - 3 * q) as i64, y: -((q - (t - 3 * q)) as i64) }
    }
}

/// Builds the radial burst of `count` child projectiles around `pos`, their
/// headings at equal spacing around the full turn.
pub fn create_radial_missiles(
    pos: Position,
    speed: u64,
    offset: u64,
    count: usize,
    projectile: ProjectileKind,
    now: u64,
) -> (r: Vec<EntityData>)
    requires
        vec2_in_bound(pos.0),
        speed <= VEL_MAX,
        1 <= offset <= 1_000,
        count <= 10_000,
        now <= TIME_MAX,
    ensures
        r@ =~= radial_seq(pos.0, speed, offset as int, count as int, count as int, projectile, now),
        forall|k: int| 0 <= k < r@.len() ==> entity_wf(#[trigger] r@[k]),
{
    let mut r: Vec<EntityData> = Vec::new();
    let mut i: usize = 0;
    while i < count
        invariant
            i <= count,
            count <= 10_000,
            1 <= offset <= 1_000,
            speed <= VEL_MAX,
            now <= TIME_MAX,
            vec2_in_bound(pos.0),
            r@ =~= radial_seq(pos.0, speed, offset as int, count as int, i as int, projectile, now),
            forall|k: int| 0 <= k < r@.len() ==> entity_wf(#[trigger] r@[k]),
        decreases count - i,
    {
        proof {
            assert((i as int + 1) * 4 * (offset as int) <= 40_004_000 && (i as int + 1) * 4 * (
            offset as int) >= 0) by (nonlinear_arith)
                requires
                    0 <= i < 10_000,
                    1 <= offset <= 1_000,
            ;
        }
        let t: u64 = (((i as u64 + 1) * 4 * offset) / (count as u64)) % (4 * offset);
        let dir = diamond_dir_exec(offset, t);
        let child_pos = Position(clamp_add_vec(pos.0, dir));
        let child = create_missile(AssetId::SmallMissile, child_pos, dir, speed, projectile, now);
        r.push(child);
        i += 1;
    }
    r
}

} // verus!
