//! Laws of the resolver and of the radial burst, proved from the spec
//! functions the systems' contracts are stated over.
use vstd::prelude::*;

use crate::collision::HitBehavior;
use crate::collision::children_of;
use crate::collision::enemy_health;
use crate::collision::explosions_of;
use crate::collision::first_enemy_from;
use crate::collision::health_after;
use crate::collision::hit_seq;
use crate::collision::hit_target;
use crate::collision::is_enemy_slot;
use crate::collision::is_proj;
use crate::collision::lemma_hit_seq_elems;
use crate::collision::proj_damage;
use crate::collision::radial_child;
use crate::collision::radial_param;
use crate::collision::radial_seq;
use crate::collision::resolve_post;
use crate::collision::resolve_slot;
use crate::collision::slot_pos;
use crate::collision::HIT_RADIUS;
use crate::components::EntityData;
use crate::components::ProjectileKind;
use crate::geom::dist_sq_spec;
use crate::systems::grow_entity;
use crate::systems::DT_MAX;
use crate::systems::EXPANSION_SPEED_MILLI;
use crate::components::RADIUS_MAX;

verus! {

/// An enemy no projectile below `m` hits keeps its health through them.
pub proof fn lemma_health_after_untouched(
    s: Seq<Option<EntityData>>,
    kind: ProjectileKind,
    e: int,
    m: int,
)
    requires
        forall|p: int| 0 <= p < m ==> hit_target(s, p, kind) != Some(e),
    ensures
        health_after(s, kind, e, m) == enemy_health(s, e),
    decreases m,
{
    if m > 0 {
        lemma_health_after_untouched(s, kind, e, m - 1);
    }
}

/// Health strictly decreases by exactly the hitting projectile's damage:
/// an enemy struck by exactly one projectile of the pass ends the pass
/// with its health lowered by precisely that projectile's damage value.
pub proof fn lemma_lone_hit_damage(
    s: Seq<Option<EntityData>>,
    kind: ProjectileKind,
    e: int,
    p0: int,
    n: int,
)
    requires
        0 <= p0 < n,
        hit_target(s, p0, kind) == Some(e),
        forall|p: int| 0 <= p < n && p != p0 ==> hit_target(s, p, kind) != Some(e),
        enemy_health(s, e) - proj_damage(s, p0) >= i64::MIN,
    ensures
        health_after(s, kind, e, n) == enemy_health(s, e) - proj_damage(s, p0),
    decreases n,
{
    if n - 1 == p0 {
        lemma_health_after_untouched(s, kind, e, p0);
    } else {
        lemma_lone_hit_damage(s, kind, e, p0, n - 1);
    }
}

/// A miss search is exhaustive: no enemy at or past `from` is within the
/// hit radius exactly when the search fails.
pub proof fn lemma_first_enemy_none_char(s: Seq<Option<EntityData>>, pos: crate::geom::Vec2, from: int)
    requires
        from >= 0,
    ensures
        first_enemy_from(s, pos, from) is None <==> forall|i: int|
            from <= i < s.len() ==> !(is_enemy_slot(s, i) && dist_sq_spec(pos, slot_pos(s, i))
                <= HIT_RADIUS * HIT_RADIUS),
    decreases s.len() - from,
{
    if 0 <= from < s.len() {
        lemma_first_enemy_none_char(s, pos, from + 1);
    }
}

/// With no projectile of the kind hitting, the pass records no hit and
/// leaves every health untouched.
pub proof fn lemma_hit_seq_empty(s: Seq<Option<EntityData>>, kind: ProjectileKind, n: int)
    requires
        forall|p: int| 0 <= p < n ==> hit_target(s, p, kind) is None,
    ensures
        hit_seq(s, kind, n).len() == 0,
        forall|e: int| health_after(s, kind, e, n) == enemy_health(s, e),
    decreases n,
{
    if n > 0 {
        lemma_hit_seq_empty(s, kind, n - 1);
    }
}

/// A radial burst of `n` children really holds `n`, the i-th being child i.
pub proof fn lemma_radial_seq_elems(
    pos: crate::geom::Vec2,
    speed: u64,
    q: int,
    count: int,
    n: int,
    child: ProjectileKind,
    now: u64,
)
    requires
        n >= 0,
    ensures
        radial_seq(pos, speed, q, count, n, child, now).len() == n,
        forall|k: int|
            0 <= k < n ==> #[trigger] radial_seq(pos, speed, q, count, n, child, now)[k]
                == radial_child(pos, speed, q, count, k, child, now),
    decreases n,
{
    if n > 0 {
        lemma_radial_seq_elems(pos, speed, q, count, n - 1, child, now);
    }
}

/// Every queued child of a pass carries the behavior's child tag and is no
/// enemy; a plain behavior queues nothing.
pub proof fn lemma_children_tags(
    s: Seq<Option<EntityData>>,
    behavior: HitBehavior,
    hits: Seq<(int, int)>,
    now: u64,
)
    ensures
        behavior is Plain ==> children_of(s, behavior, hits, now).len() == 0,
        forall|k: int|
            0 <= k < children_of(s, behavior, hits, now).len() ==> {
                let c = #[trigger] children_of(s, behavior, hits, now)[k];
                &&& c.enemy is None
                &&& behavior matches HitBehavior::RadialBurst { child, .. } && c.projectile
                    == Some(child)
            },
    decreases hits.len(),
{
    if hits.len() > 0 {
        lemma_children_tags(s, behavior, hits.drop_last(), now);
        match behavior {
            HitBehavior::Plain => {},
            HitBehavior::RadialBurst { count, speed, offset, child } => {
                lemma_radial_seq_elems(
                    slot_pos(s, hits.last().0),
                    speed,
                    offset as int,
                    count as int,
                    count as int,
                    child,
                    now,
                );
            },
        }
    }
}

/// Collision resolution is idempotent per tick: after one pass over a
/// projectile kind, a second pass over the already-cleared kind produces no
/// further mutation — provided the pass does not replenish its own kind,
/// which holds of a plain behavior and of a burst whose children carry a
/// different tag.
pub proof fn lemma_resolver_idempotent(
    s: Seq<Option<EntityData>>,
    kind: ProjectileKind,
    behavior: HitBehavior,
    now1: u64,
    now2: u64,
)
    requires
        match behavior {
            HitBehavior::Plain => true,
            HitBehavior::RadialBurst { child, .. } => child != kind,
        },
    ensures
        resolve_post(resolve_post(s, kind, behavior, now1), kind, behavior, now2) =~= resolve_post(
            s,
            kind,
            behavior,
            now1,
        ),
{
    let s1 = resolve_post(s, kind, behavior, now1);
    let n = s.len() as int;
    let hits0 = hit_seq(s, kind, n);
    let ex0 = explosions_of(s, kind, hits0);
    let ch0 = children_of(s, behavior, hits0, now1);
    lemma_hit_seq_elems(s, kind, n);
    lemma_children_tags(s, behavior, hits0, now1);
    assert(s1.len() == n + ex0.len() + ch0.len());
    assert forall|i: int| 0 <= i < n implies s1[i] == resolve_slot(s, kind, i) by {}
    assert forall|k: int| 0 <= k < ex0.len() implies s1[n + k] == Some(ex0[k]) by {}
    assert forall|k: int| 0 <= k < ch0.len() implies s1[n + ex0.len() + k] == Some(ch0[k]) by {}

    // No projectile of the kind left in the post-world can still hit.
    assert forall|p: int| 0 <= p < s1.len() implies hit_target(s1, p, kind) is None by {
        if is_proj(s1, p, kind) {
            if p < n {
                assert(s1[p] == resolve_slot(s, kind, p));
                assert(is_proj(s, p, kind));
                assert(hit_target(s, p, kind) is None);
                assert(slot_pos(s1, p) == slot_pos(s, p));
                lemma_first_enemy_none_char(s, slot_pos(s, p), 0);
                assert forall|i: int|
                    0 <= i < s1.len() implies !(is_enemy_slot(s1, i) && dist_sq_spec(
                    slot_pos(s1, p),
                    slot_pos(s1, i),
                ) <= HIT_RADIUS * HIT_RADIUS) by {
                    if is_enemy_slot(s1, i) {
                        if i < n {
                            assert(s1[i] == resolve_slot(s, kind, i));
                            assert(is_enemy_slot(s, i));
                            assert(slot_pos(s1, i) == slot_pos(s, i));
                        }
                    }
                }
                lemma_first_enemy_none_char(s1, slot_pos(s1, p), 0);
            } else if p < n + ex0.len() {
                let h = hits0[p - n];
                assert(s1[p] == Some(ex0[p - n]));
                assert(false);
            } else {
                assert(s1[p] == Some(ch0[p - n - ex0.len()]));
                assert(false);
            }
        }
    }
    lemma_hit_seq_empty(s1, kind, s1.len() as int);
    let hits1 = hit_seq(s1, kind, s1.len() as int);
    assert(hits1 =~= Seq::<(int, int)>::empty());
    assert(explosions_of(s1, kind, hits1).len() == 0);
    assert(children_of(s1, behavior, hits1, now2).len() == 0);
    assert forall|i: int| 0 <= i < s1.len() implies resolve_slot(s1, kind, i) == s1[i] by {
        if is_enemy_slot(s1, i) {
            assert(health_after(s1, kind, i, s1.len() as int) == enemy_health(s1, i));
        }
    }
    assert(resolve_post(s1, kind, behavior, now2) =~= s1);
}

/// Explosion radius grows monotonically each tick: any positive delta
/// strictly enlarges a live explosion, by the expansion speed times the
/// delta.
pub proof fn lemma_explosion_growth(d: EntityData, dt: u64)
    requires
        d.explosion is Some,
        d.position is Some,
        1 <= dt <= DT_MAX,
        d.explosion->Some_0.radius_milli <= RADIUS_MAX,
    ensures
        grow_entity(d, dt).explosion->Some_0.radius_milli > d.explosion->Some_0.radius_milli,
        grow_entity(d, dt).explosion->Some_0.radius_milli == d.explosion->Some_0.radius_milli
            + EXPANSION_SPEED_MILLI * dt,
{
}

/// The radial burst's headings are equally spaced: when the burst count
/// divides the diamond perimeter, consecutive children's perimeter
/// parameters differ by exactly one step of `4q / count` around the full
/// turn.
pub proof fn lemma_radial_equal_spacing(q: int, count: int, i: int)
    requires
        1 <= q,
        2 <= count,
        (4 * q) % count == 0,
        0 <= i < count - 1,
        count <= 4 * q,
    ensures
        radial_param(q, count, i + 1) == (radial_param(q, count, i) + (4 * q) / count) % (4 * q),
{
    let m = 4 * q;
    let step = m / count;
    let a = (i + 1) * step;
    let b = (i + 2) * step;
    assert(step * count == m) by (nonlinear_arith)
        requires
            m % count == 0,
            count > 0,
            step == m / count,
    ;
    assert(1 <= step && step < m) by (nonlinear_arith)
        requires
            step * count == m,
            2 <= count,
            1 <= q,
            m == 4 * q,
            step == m / count,
    ;
    assert((i + 1) * 4 * q == (i + 1) * m && (i + 1 + 1) * 4 * q == (i + 2) * m)
        by (nonlinear_arith)
        requires
            m == 4 * q,
    ;
    assert(((i + 1) * m) / count == a && ((i + 2) * m) / count == b) by (nonlinear_arith)
        requires
            step * count == m,
            count > 0,
            i >= 0,
            a == (i + 1) * step,
            b == (i + 2) * step,
    ;
    assert(radial_param(q, count, i) == a % m);
    assert(radial_param(q, count, i + 1) == b % m);
    assert(b == a + step) by (nonlinear_arith)
        requires
            a == (i + 1) * step,
            b == (i + 2) * step,
    ;
    vstd::arithmetic::div_mod::lemma_add_mod_noop(a, step, m);
    assert(step % m == step) by (nonlinear_arith)
        requires
            0 <= step < m,
    ;
    assert(((a % m) + step) % m == b % m);
}

} // verus!
