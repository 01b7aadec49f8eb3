//! Axis-aligned rectangles and collision shapes.

use vstd::prelude::*;
use crate::arith::{abs_diff, abs_spec, lemma_isqrt_below, saturate, sat_i64};
use crate::world::{
    distance_spec, distance_squared_spec, lemma_span_symmetric, normalize_coord_spec, translate_spec, WorldPosition,
};

verus! {

/// An axis-aligned rectangle given by two corners; `y` grows upward.
#[derive(Clone, Copy, Debug, PartialEq, Eq)]
pub struct Rect {
    pub left_top: (i64, i64),
    pub right_bottom: (i64, i64),
}

/// The rectangle grown by `v` on every side, each edge limited to `i64`.
pub open spec fn expand_spec(r: Rect, v: int) -> Rect {
    Rect {
        left_top: (sat_i64(r.left_top.0 - v) as i64, sat_i64(r.left_top.1 + v) as i64),
        right_bottom: (sat_i64(r.right_bottom.0 + v) as i64, sat_i64(r.right_bottom.1 - v) as i64),
    }
}

/// The point lies in the rectangle; the left and bottom edges belong to it,
/// the right and top edges do not.
pub open spec fn contains_point_spec(r: Rect, point: (int, int)) -> bool {
    &&& r.left_top.0 <= point.0 < r.right_bottom.0
    &&& r.right_bottom.1 <= point.1 < r.left_top.1
}

/// The circle lies strictly inside the rectangle: its center is contained
/// and every edge is farther from the center than the radius.
pub open spec fn contains_circle_spec(r: Rect, center: (int, int), radius: int) -> bool {
    &&& contains_point_spec(r, center)
    &&& (r.left_top.0 - center.0) * (r.left_top.0 - center.0) > radius * radius
    &&& (r.right_bottom.0 - center.0) * (r.right_bottom.0 - center.0) > radius * radius
    &&& (r.left_top.1 - center.1) * (r.left_top.1 - center.1) > radius * radius
    &&& (r.right_bottom.1 - center.1) * (r.right_bottom.1 - center.1) > radius * radius
}

/// Squares compare as magnitudes do.
proof fn lemma_square_order(a: int, b: int)
    ensures
        a * a > b * b <==> abs_spec(a) > abs_spec(b),
{
    let x = abs_spec(a);
    let y = abs_spec(b);
    assert(a * a == x * x) by (nonlinear_arith)
        requires
            x == a || x == -a,
    ;
    assert(b * b == y * y) by (nonlinear_arith)
        requires
            y == b || y == -b,
    ;
    if x > y {
        assert(x * x > y * y) by (nonlinear_arith)
            requires
                x > y >= 0,
        ;
    } else {
        assert(x * x <= y * y) by (nonlinear_arith)
            requires
                0 <= x <= y,
        ;
    }
}

impl Rect {
    /// Grows the rectangle by `v` on every side.
    pub fn expand(&mut self, v: i64)
        ensures
            *final(self) == expand_spec(*old(self), v as int),
    {
        self.left_top.0 = saturate(self.left_top.0 as i128 - v as i128);
        self.left_top.1 = saturate(self.left_top.1 as i128 + v as i128);
        self.right_bottom.0 = saturate(self.right_bottom.0 as i128 + v as i128);
        self.right_bottom.1 = saturate(self.right_bottom.1 as i128 - v as i128);
    }

    /// Whether the point lies in the rectangle.
    pub fn contains_point(&self, point: (i64, i64)) -> (inside: bool)
        ensures
            inside == contains_point_spec(*self, (point.0 as int, point.1 as int)),
    {
        let (left, top) = self.left_top;
        let (right, bottom) = self.right_bottom;
        let (x, y) = point;
        left <= x && x < right && bottom <= y && y < top
    }

    /// Whether the circle lies strictly inside the rectangle. A circle that
    /// touches or crosses an edge is not contained.
    pub fn contains_circle(&self, center: (i64, i64), radius: i64) -> (inside: bool)
        ensures
            inside == contains_circle_spec(*self, (center.0 as int, center.1 as int), radius as int),
    {
        let (left, top) = self.left_top;
        let (right, bottom) = self.right_bottom;
        let (x, y) = center;
        let r = abs_diff(radius, 0);
        proof {
            lemma_square_order(left - x, radius as int);
            lemma_square_order(right - x, radius as int);
            lemma_square_order(top - y, radius as int);
            lemma_square_order(bottom - y, radius as int);
        }
        if self.contains_point(center) {
            abs_diff(left, x) > r && abs_diff(right, x) > r && abs_diff(top, y) > r && abs_diff(bottom, y) > r
        } else {
            false
        }
    }
}

/// The outline of an entity for collision detection.
#[derive(Clone, Copy, Debug, PartialEq, Eq)]
pub enum Shape {
    /// A circle around `origin`.
    Circle { origin: WorldPosition, radius: i64 },
}

/// Two circles overlap when the distance of their centers on the torus is
/// less than the sum of their radii. Circles that only touch do not overlap.
pub open spec fn overlaps_spec(a: Shape, b: Shape) -> bool {
    match (a, b) {
        (Shape::Circle { origin, radius }, Shape::Circle { origin: other_origin, radius: other_radius }) => {
            distance_spec(origin@, other_origin@) < radius + other_radius
        },
    }
}

/// The shape with its origin moved by `v` and wrapped around the world's
/// edges.
pub open spec fn shape_translate_spec(s: Shape, v: (int, int)) -> Shape {
    Shape::Circle { origin: WorldPosition::from_view(translate_spec(s->origin@, v)), radius: s->radius }
}

/// Overlap stated without a square root: the squared distance is less than
/// the squared sum of the radii, and that sum is positive.
pub proof fn law_overlap_by_squares(a: Shape, b: Shape)
    ensures
        overlaps_spec(a, b) <==> {
            let sum = a->radius + b->radius;
            sum > 0 && distance_squared_spec(a->origin@, b->origin@) < sum * sum
        },
{
    let n = distance_squared_spec(a->origin@, b->origin@);
    let p = a->origin@;
    let q = b->origin@;
    lemma_span_symmetric(p.x, p.y, q.x, q.y);
    lemma_span_symmetric(
        normalize_coord_spec(p.x + p.width / 2, p.width),
        normalize_coord_spec(p.y + p.height / 2, p.height),
        normalize_coord_spec(q.x + p.width / 2, p.width),
        normalize_coord_spec(q.y + p.height / 2, p.height),
    );
    crate::arith::lemma_isqrt_exists(n);
    lemma_isqrt_below(n, distance_spec(a->origin@, b->origin@), a->radius + b->radius);
}

impl Shape {
    /// Whether two shapes overlap.
    pub fn overlaps(&self, another_shape: &Shape) -> (hit: bool)
        ensures
            hit == overlaps_spec(*self, *another_shape),
    {
        match (self, another_shape) {
            (
                Shape::Circle { origin, radius },
                Shape::Circle { origin: other_origin, radius: other_radius },
            ) => {
                (origin.distance(other_origin) as i128) < (*radius as i128) + (*other_radius as i128)
            },
        }
    }

    /// The shape moved by `position`, wrapped around the world's edges.
    pub fn translate(&self, position: (i64, i64)) -> (moved: Shape)
        ensures
            moved == shape_translate_spec(*self, (position.0 as int, position.1 as int)),
    {
        match *self {
            Shape::Circle { origin, radius } => Shape::Circle { origin: origin.translate(position), radius },
        }
    }
}

} // verus!
