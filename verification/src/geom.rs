//! Integer plane geometry: squared distances, an integer square root used to
//! normalise direction vectors, and clamped arithmetic that keeps world
//! coordinates inside a fixed playing-field bound.
use vstd::prelude::*;

verus! {

/// Coordinates are kept within this bound so that squared distances and
/// scaled direction steps never overflow an `i64`.
pub const WORLD_BOUND: i64 = 1_000_000_000;

/// A point or vector in the integer plane.
#[derive(Clone, Copy, PartialEq, Eq, Structural, Debug)]
pub struct Vec2 {
    pub x: i64,
    pub y: i64,
}

/// A coordinate within the playing field.
pub open spec fn in_bound(v: i64) -> bool {
    -WORLD_BOUND <= v <= WORLD_BOUND
}

pub open spec fn vec2_in_bound(v: Vec2) -> bool {
    in_bound(v.x) && in_bound(v.y)
}

/// Squared Euclidean distance between two in-bound points.
pub open spec fn dist_sq_spec(a: Vec2, b: Vec2) -> int {
    (a.x - b.x) * (a.x - b.x) + (a.y - b.y) * (a.y - b.y)
}

pub fn dist_sq(a: Vec2, b: Vec2) -> (r: i64)
    requires
        vec2_in_bound(a),
        vec2_in_bound(b),
    ensures
        r == dist_sq_spec(a, b),
        r >= 0,
{
    let dx: i64 = a.x - b.x;
    let dy: i64 = a.y - b.y;
    proof {
        assert(dx * dx <= 4_000_000_000_000_000_000 && dx * dx >= 0 && dy * dy
            <= 4_000_000_000_000_000_000 && dy * dy >= 0) by (nonlinear_arith)
            requires
                -2_000_000_000 <= dx <= 2_000_000_000,
                -2_000_000_000 <= dy <= 2_000_000_000,
        ;
    }
    dx * dx + dy * dy
}

/// `r` is the integer square root of `n`.
pub open spec fn is_isqrt(n: int, r: int) -> bool {
    r >= 0 && r * r <= n < (r + 1) * (r + 1)
}

/// Integer square root by binary search.
pub fn isqrt(n: u64) -> (r: u64)
    ensures
        is_isqrt(n as int, r as int),
        r == isqrt_spec(n as int),
{
    let mut lo: u64 = 0;
    // 2^32 squared exceeds any u64, so the root lies below it.
    let mut hi: u64 = 4_294_967_296;
    proof {
        assert((4_294_967_296 as int) * (4_294_967_296 as int) > n as int) by (nonlinear_arith)
            requires
                n <= u64::MAX,
        ;
    }
    while lo + 1 < hi
        invariant
            0 <= lo < hi <= 4_294_967_296,
            (lo as int) * (lo as int) <= n as int,
            (hi as int) * (hi as int) > n as int,
        decreases hi - lo,
    {
        let mid: u64 = lo + (hi - lo) / 2;
        proof {
            assert((mid as int) * (mid as int) <= (4_294_967_296 as int) * (4_294_967_296 as int))
                by (nonlinear_arith)
                requires
                    0 <= mid <= 4_294_967_296,
            ;
        }
        let sq: u128 = (mid as u128) * (mid as u128);
        if sq <= n as u128 {
            lo = mid;
        } else {
            hi = mid;
        }
    }
    proof {
        lemma_isqrt_unique(n as int, lo as int);
    }
    lo
}

/// The integer square root as a spec-level function; `isqrt` returns it.
pub open spec fn isqrt_spec(n: int) -> int {
    choose|r: int| is_isqrt(n, r)
}

pub proof fn lemma_isqrt_unique(n: int, r: int)
    requires
        is_isqrt(n, r),
    ensures
        r == isqrt_spec(n),
{
    let w = isqrt_spec(n);
    assert(is_isqrt(n, w));
    assert(r <= w && w <= r) by (nonlinear_arith)
        requires
            r >= 0 && r * r <= n < (r + 1) * (r + 1),
            w >= 0 && w * w <= n < (w + 1) * (w + 1),
    ;
}

/// Both components of a vector are bounded by the integer square root of
/// its squared length.
pub proof fn lemma_component_le_isqrt(dx: int, dy: int, d: int)
    requires
        d >= 0,
        (d + 1) * (d + 1) > dx * dx + dy * dy,
    ensures
        -d <= dx <= d,
        -d <= dy <= d,
{
    assert(-d <= dx <= d && -d <= dy <= d) by (nonlinear_arith)
        requires
            d >= 0,
            (d + 1) * (d + 1) > dx * dx + dy * dy,
    ;
}

/// Truncating scaled product `a * m / d`, rounded toward zero.
pub open spec fn mul_div_spec(a: int, m: int, d: int) -> int
    recommends
        d > 0,
        m >= 0,
{
    if a >= 0 {
        (a * m) / d
    } else {
        -(((-a) * m) / d)
    }
}

/// `a * m / d` with the sign of `a`; never overflows under the stated bounds.
pub fn mul_div(a: i64, m: u64, d: u64) -> (r: i64)
    requires
        d > 0,
        -4_000_000_000_000_000_000 <= a * m <= 4_000_000_000_000_000_000,
        a > i64::MIN,
    ensures
        r == mul_div_spec(a as int, m as int, d as int),
        a >= 0 ==> 0 <= r <= a * m,
        a < 0 ==> a * m <= r <= 0,
        (-(d as int) <= a <= d as int) ==> -(m as int) <= r <= m as int,
{
    let neg = a < 0;
    let abs_a: u64 = if neg {
        (-a) as u64
    } else {
        a as u64
    };
    proof {
        assert(abs_a * m <= 4_000_000_000_000_000_000) by (nonlinear_arith)
            requires
                abs_a == (if a >= 0 {
                    a as int
                } else {
                    -(a as int)
                }),
                -4_000_000_000_000_000_000 <= a * m <= 4_000_000_000_000_000_000,
                m >= 0,
        ;
    }
    let q: u64 = (abs_a * m) / d;
    proof {
        assert(q <= abs_a * m && (abs_a <= d ==> q <= m)) by (nonlinear_arith)
            requires
                d > 0,
                q == ((abs_a * m) as int) / (d as int),
                m >= 0,
        ;
        assert((-(a as int)) * m == -((a as int) * m)) by (nonlinear_arith);
    }
    if neg {
        -(q as i64)
    } else {
        q as i64
    }
}

/// Addition clamped into the playing field; used when a movement step would
/// carry an entity past the world bound.
pub open spec fn clamp_add_spec(a: int, b: int) -> int {
    if a + b > WORLD_BOUND {
        WORLD_BOUND as int
    } else if a + b < -WORLD_BOUND {
        -WORLD_BOUND as int
    } else {
        a + b
    }
}

pub fn clamp_add(a: i64, b: i64) -> (r: i64)
    requires
        in_bound(a),
        -4_000_000_000_000_000_000 <= b <= 4_000_000_000_000_000_000,
    ensures
        r == clamp_add_spec(a as int, b as int),
        in_bound(r),
{
    let s: i64 = a + b;
    if s > WORLD_BOUND {
        WORLD_BOUND
    } else if s < -WORLD_BOUND {
        -WORLD_BOUND
    } else {
        s
    }
}

pub open spec fn clamp_add_vec_spec(a: Vec2, b: Vec2) -> Vec2 {
    Vec2 { x: clamp_add_spec(a.x as int, b.x as int) as i64, y: clamp_add_spec(
        a.y as int,
        b.y as int,
    ) as i64 }
}

pub fn clamp_add_vec(a: Vec2, b: Vec2) -> (r: Vec2)
    requires
        vec2_in_bound(a),
        -4_000_000_000_000_000_000 <= b.x <= 4_000_000_000_000_000_000,
        -4_000_000_000_000_000_000 <= b.y <= 4_000_000_000_000_000_000,
    ensures
        r == clamp_add_vec_spec(a, b),
        vec2_in_bound(r),
{
    Vec2 { x: clamp_add(a.x, b.x), y: clamp_add(a.y, b.y) }
}

} // verus!
