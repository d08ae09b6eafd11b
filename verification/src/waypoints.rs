//! The two waypoint lines enemies patrol between, and the random targets
//! drawn from them. A re-target always lands on the opposite side of the
//! previous one.
use vstd::prelude::*;

use crate::components::MoveTorwards;
use crate::geom::Vec2;
use crate::geom::WORLD_BOUND;
use crate::geom::in_bound;
use crate::geom::vec2_in_bound;
use crate::rng::random_in_range;

verus! {

/// A vertical line of waypoints.
pub struct Waypoints {
    pub points: Vec<Vec2>,
}

pub open spec fn waypoints_wf(w: Waypoints) -> bool {
    &&& w.points@.len() > 0
    &&& forall|i: int| 0 <= i < w.points@.len() ==> vec2_in_bound(#[trigger] w.points@[i])
}

impl Waypoints {
    /// A vertical line of `count` evenly spaced waypoints at horizontal
    /// position `offset`, inset by `spacing` from the top and bottom of a
    /// field of the given height.
    pub fn line(offset: i64, height: i64, spacing: i64, count: usize) -> (r: Waypoints)
        requires
            0 <= spacing,
            2 * spacing <= height,
            height <= WORLD_BOUND,
            0 <= offset <= WORLD_BOUND,
            1 <= count <= 1_000_000,
        ensures
            r.points@.len() == count,
            forall|i: int|
                0 <= i < count ==> #[trigger] r.points@[i] == (Vec2 {
                    x: offset,
                    y: (spacing + ((height - 2 * spacing) / (count as int)) * (i + 1)) as i64,
                }),
            waypoints_wf(r),
    {
        let step: i64 = (height - 2 * spacing) / (count as i64);
        let mut points: Vec<Vec2> = Vec::new();
        let mut i: usize = 0;
        proof {
            assert(0 <= step && step * (count as int) <= height - 2 * spacing) by (nonlinear_arith)
                requires
                    step == (height - 2 * spacing) / (count as int),
                    0 <= height - 2 * spacing,
                    1 <= count,
            ;
        }
        while i < count
            invariant
                i <= count,
                count <= 1_000_000,
                0 <= spacing,
                2 * spacing <= height <= WORLD_BOUND,
                0 <= offset <= WORLD_BOUND,
                step == (height - 2 * spacing) / (count as int),
                0 <= step,
                step * (count as int) <= height - 2 * spacing,
                points@.len() == i,
                forall|k: int|
                    0 <= k < i ==> #[trigger] points@[k] == (Vec2 {
                        x: offset,
                        y: (spacing + step * (k + 1)) as i64,
                    }),
            decreases count - i,
        {
            proof {
                assert(0 <= step * (i + 1) <= step * (count as int)) by (nonlinear_arith)
                    requires
                        0 <= step,
                        0 <= i < count,
                ;
            }
            let y: i64 = spacing + step * ((i as i64) + 1);
            points.push(Vec2 { x: offset, y });
            i += 1;
        }
        let r = Waypoints { points };
        proof {
            assert forall|k: int| 0 <= k < count implies vec2_in_bound(#[trigger] r.points@[k]) by {
                assert(0 <= step * (k + 1) <= step * (count as int)) by (nonlinear_arith)
                    requires
                        0 <= step,
                        0 <= k < count,
                ;
            }
        }
        r
    }

    /// One waypoint of the line, drawn at random.
    pub fn get_random_point(&self) -> (r: Vec2)
        requires
            waypoints_wf(*self),
        ensures
            self.points@.contains(r),
            vec2_in_bound(r),
    {
        let index = random_in_range(0, self.points.len() as u64) as usize;
        let r = self.points[index];
        proof {
            assert(self.points@[index as int] == r);
        }
        r
    }
}

/// The two waypoint lines, one near each vertical screen edge.
pub struct Sides {
    pub left: Waypoints,
    pub right: Waypoints,
}

pub open spec fn sides_wf(s: Sides) -> bool {
    waypoints_wf(s.left) && waypoints_wf(s.right)
}

/// The waypoints of side 0 (left) or 1 (right).
pub open spec fn side_points(s: Sides, side: int) -> Seq<Vec2> {
    if side == 0 {
        s.left.points@
    } else {
        s.right.points@
    }
}

impl Sides {
    /// Two parallel waypoint lines spaced `spacing` in from each vertical
    /// edge of a field of the given width and height.
    pub fn new(width: i64, height: i64, spacing: i64, count: usize) -> (r: Sides)
        requires
            0 <= spacing,
            2 * spacing <= height,
            height <= WORLD_BOUND,
            spacing <= width <= WORLD_BOUND,
            1 <= count <= 1_000_000,
        ensures
            sides_wf(r),
            r.left.points@.len() == count,
            r.right.points@.len() == count,
            forall|i: int| 0 <= i < count ==> (#[trigger] r.left.points@[i]).x == spacing,
            forall|i: int| 0 <= i < count ==> (#[trigger] r.right.points@[i]).x == width - spacing,
    {
        let left = Waypoints::line(spacing, height, spacing, count);
        let right = Waypoints::line(width - spacing, height, spacing, count);
        Sides { left, right }
    }

    /// One of the two side indices, drawn at random.
    pub fn get_random_side(&self) -> (r: usize)
        ensures
            r < 2,
    {
        random_in_range(0, 2) as usize
    }

    /// A fresh waypoint target on the side opposite `previous_side`.
    pub fn get_random_point(&self, previous_side: usize) -> (r: MoveTorwards)
        requires
            sides_wf(*self),
        ensures
            r.side == (previous_side + 1) % 2,
            side_points(*self, r.side as int).contains(r.destination),
            vec2_in_bound(r.destination),
            r.side < 2,
    {
        let next_side: usize = if previous_side % 2 == 0 {
            1
        } else {
            0
        };
        let destination = if next_side == 0 {
            self.left.get_random_point()
        } else {
            self.right.get_random_point()
        };
        MoveTorwards { destination, side: next_side }
    }
}

} // verus!
