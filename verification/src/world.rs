//! The toroidal world: its extent, its camera parameters, and positions
//! that wrap around its edges.
//!
//! Lengths are integers; [`UNIT`] of them make one world unit.

use vstd::prelude::*;
use vstd::arithmetic::div_mod::{lemma_mod_bound, lemma_mod_sub_multiples_vanish, lemma_mod_twice, lemma_small_mod};
use crate::arith::{clamp, clamp_spec, is_isqrt, isqrt, isqrt_spec, lemma_isqrt_spec, lemma_mul_bounds};
use crate::geometry::Rect;

verus! {

/// Lengths per world unit.
pub const UNIT: i64 = 1000;

/// The shorter side of every world.
pub const WORLD_SIZE_MIN: i64 = 100_000;

/// Largest magnitude of a coordinate. Positions that would lie beyond it
/// stay at the limit.
pub const COORD_LIMIT: i64 = 0x1000_0000_0000_0000;

/// Largest extent of a world along one axis.
pub const EXTENT_LIMIT: i64 = 0x4_0000_0000_0000;

/// The mathematical value of a [`WorldPosition`].
pub struct PositionView {
    pub x: int,
    pub y: int,
    pub width: int,
    pub height: int,
}

/// `x` lies in the centered range `(-world / 2, world / 2]`.
pub open spec fn is_normalized(x: int, world: int) -> bool {
    -world < 2 * x <= world
}

/// The representative of `x` modulo `world` in the centered range.
pub open spec fn normalize_coord_spec(x: int, world: int) -> int {
    let r = x % world;
    if 2 * r > world {
        r - world
    } else {
        r
    }
}

/// Both coordinates wrapped into the centered range of their axis.
pub open spec fn normalize_spec(position: (int, int), world_size: (int, int)) -> (int, int) {
    (normalize_coord_spec(position.0, world_size.0), normalize_coord_spec(position.1, world_size.1))
}

/// `x` limited to the coordinate range.
pub open spec fn limit_coord(x: int) -> int {
    clamp_spec(x, -(COORD_LIMIT as int), COORD_LIMIT as int)
}

/// The position moved by `v` and wrapped around the world's edges.
pub open spec fn translate_spec(p: PositionView, v: (int, int)) -> PositionView {
    PositionView {
        x: normalize_coord_spec(p.x + v.0, p.width),
        y: normalize_coord_spec(p.y + v.1, p.height),
        width: p.width,
        height: p.height,
    }
}

/// The position moved by `v` without wrapping.
pub open spec fn translate_unsafe_spec(p: PositionView, v: (int, int)) -> PositionView {
    PositionView { x: limit_coord(p.x + v.0), y: limit_coord(p.y + v.1), width: p.width, height: p.height }
}

/// Squared Euclidean length of the offset between two points.
pub open spec fn span_squared(ax: int, ay: int, bx: int, by: int) -> int {
    (ax - bx) * (ax - bx) + (ay - by) * (ay - by)
}

/// Squared distance between `a` and `b` on the torus of `a`'s world: the
/// smaller of the direct offset and the offset after both points are shifted
/// by half the world and wrapped.
pub open spec fn distance_squared_spec(a: PositionView, b: PositionView) -> int {
    let direct = span_squared(a.x, a.y, b.x, b.y);
    let hw = a.width / 2;
    let hh = a.height / 2;
    let wrapped = span_squared(
        normalize_coord_spec(a.x + hw, a.width),
        normalize_coord_spec(a.y + hh, a.height),
        normalize_coord_spec(b.x + hw, a.width),
        normalize_coord_spec(b.y + hh, a.height),
    );
    if direct <= wrapped {
        direct
    } else {
        wrapped
    }
}

/// Distance between `a` and `b` on the torus, rounded down to a whole length.
pub open spec fn distance_spec(a: PositionView, b: PositionView) -> int {
    isqrt_spec(distance_squared_spec(a, b))
}

/// The position with the given coordinates, each limited to the coordinate
/// range, in a world of extent `size`.
pub open spec fn new_position_spec(size: (int, int), position: (int, int)) -> PositionView {
    PositionView { x: limit_coord(position.0), y: limit_coord(position.1), width: size.0, height: size.1 }
}

/// The origin of the smallest world.
pub open spec fn default_position_spec() -> PositionView {
    PositionView { x: 0, y: 0, width: WORLD_SIZE_MIN as int, height: WORLD_SIZE_MIN as int }
}

/// What every position value satisfies: a positive, bounded world and
/// bounded coordinates.
pub open spec fn position_valid(p: PositionView) -> bool {
    &&& 0 < p.width <= EXTENT_LIMIT
    &&& 0 < p.height <= EXTENT_LIMIT
    &&& -COORD_LIMIT <= p.x <= COORD_LIMIT
    &&& -COORD_LIMIT <= p.y <= COORD_LIMIT
}

/// The extent of the world for a drawing surface of `width` by `height`
/// pixels: the shorter side is [`WORLD_SIZE_MIN`], the longer one follows
/// the surface's aspect ratio.
pub open spec fn world_size_spec(width: int, height: int) -> (int, int) {
    if width > height {
        ((WORLD_SIZE_MIN * width) / height, WORLD_SIZE_MIN as int)
    } else {
        (WORLD_SIZE_MIN as int, (WORLD_SIZE_MIN * height) / width)
    }
}

/// The camera that shows exactly a world of the given extent.
pub open spec fn camera_spec(size: (int, int)) -> Camera {
    Camera {
        eye: (0, (-UNIT) as i64, WORLD_SIZE_MIN),
        target: (0, 0, 0),
        up: (0, 1, 0),
        left: (-(size.0 / 2)) as i64,
        right: (size.0 / 2) as i64,
        top: (size.1 / 2) as i64,
        bottom: (-(size.1 / 2)) as i64,
        near: (WORLD_SIZE_MIN - 25 * UNIT) as i64,
        far: (WORLD_SIZE_MIN + 25 * UNIT) as i64,
    }
}

/// The visible rectangle of a world of the given extent, centered on the
/// origin.
pub open spec fn world_rect_spec(size: (int, int)) -> Rect {
    Rect {
        left_top: ((-(size.0 / 2)) as i64, (size.1 / 2) as i64),
        right_bottom: ((size.0 / 2) as i64, (-(size.1 / 2)) as i64),
    }
}

/// The wrapped coordinate lies in the centered range and differs from `x`
/// by a multiple of `world`.
pub proof fn lemma_normalize_coord(x: int, world: int)
    requires
        world > 0,
    ensures
        is_normalized(normalize_coord_spec(x, world), world),
        (normalize_coord_spec(x, world) - x) % world == 0,
{
    lemma_mod_bound(x, world);
    let r = x % world;
    let n = normalize_coord_spec(x, world);
    assert((r - x) % world == 0) by {
        vstd::arithmetic::div_mod::lemma_mod_equivalence(r, x, world);
        lemma_mod_twice(x, world);
    }
    if 2 * r > world {
        lemma_mod_sub_multiples_vanish(r - x, world);
        assert(-world + (r - x) == n - x);
    }
}

/// A coordinate in the centered range is its own representative.
pub proof fn lemma_normalize_coord_fixed(x: int, world: int)
    requires
        world > 0,
        is_normalized(x, world),
    ensures
        normalize_coord_spec(x, world) == x,
{
    if x >= 0 {
        lemma_small_mod(x as nat, world as nat);
    } else {
        lemma_small_mod((x + world) as nat, world as nat);
        lemma_mod_sub_multiples_vanish(x + world, world);
        assert(-world + (x + world) == x);
    }
}

/// Distance on the torus does not depend on the order of the two points of
/// one world, and every point is at distance zero from itself.
pub proof fn law_distance_symmetric(a: PositionView, b: PositionView)
    requires
        a.width == b.width,
        a.height == b.height,
    ensures
        distance_squared_spec(a, b) == distance_squared_spec(b, a),
        distance_spec(a, b) == distance_spec(b, a),
        distance_squared_spec(a, a) == 0,
        distance_spec(a, a) == 0,
{
    lemma_span_symmetric(a.x, a.y, b.x, b.y);
    lemma_span_symmetric(
        normalize_coord_spec(a.x + a.width / 2, a.width),
        normalize_coord_spec(a.y + a.height / 2, a.height),
        normalize_coord_spec(b.x + a.width / 2, a.width),
        normalize_coord_spec(b.y + a.height / 2, a.height),
    );
    lemma_isqrt_spec(0, 0);
}

/// Wrapping a position that is already wrapped changes nothing.
pub proof fn law_normalize_idempotent(position: (int, int), world_size: (int, int))
    requires
        world_size.0 > 0,
        world_size.1 > 0,
    ensures
        normalize_spec(normalize_spec(position, world_size), world_size) == normalize_spec(
            position,
            world_size,
        ),
{
    lemma_normalize_coord(position.0, world_size.0);
    lemma_normalize_coord(position.1, world_size.1);
    lemma_normalize_coord_fixed(normalize_coord_spec(position.0, world_size.0), world_size.0);
    lemma_normalize_coord_fixed(normalize_coord_spec(position.1, world_size.1), world_size.1);
}

/// Moving a position by nothing after it was moved with wrapping leaves it
/// where it is: a wrapped position is a fixed point of wrapping.
pub proof fn law_translate_idempotent(p: PositionView, v: (int, int))
    requires
        p.width > 0,
        p.height > 0,
    ensures
        translate_spec(translate_spec(p, v), (0, 0)) == translate_spec(p, v),
{
    law_normalize_idempotent((p.x + v.0, p.y + v.1), (p.width, p.height));
}

/// The squared offset is the same in both directions and never negative.
pub proof fn lemma_span_symmetric(ax: int, ay: int, bx: int, by: int)
    ensures
        span_squared(ax, ay, bx, by) == span_squared(bx, by, ax, ay),
        span_squared(ax, ay, bx, by) >= 0,
        span_squared(ax, ay, ax, ay) == 0,
{
    assert((ax - bx) * (ax - bx) == (bx - ax) * (bx - ax)) by (nonlinear_arith);
    assert((ay - by) * (ay - by) == (by - ay) * (by - ay)) by (nonlinear_arith);
    assert((ax - bx) * (ax - bx) >= 0) by (nonlinear_arith);
    assert((ay - by) * (ay - by) >= 0) by (nonlinear_arith);
}

/// Parameters of the orthographic camera that looks at the world.
#[derive(Clone, Copy, Debug, PartialEq, Eq)]
pub struct Camera {
    pub eye: (i64, i64, i64),
    pub target: (i64, i64, i64),
    pub up: (i64, i64, i64),
    pub left: i64,
    pub right: i64,
    pub top: i64,
    pub bottom: i64,
    pub near: i64,
    pub far: i64,
}

/// A point of the plane together with the extent of the world it lives in.
#[derive(Clone, Copy, Debug, PartialEq, Eq)]
pub struct WorldPosition {
    x: i64,
    y: i64,
    width: i64,
    height: i64,
}

impl View for WorldPosition {
    type V = PositionView;

    closed spec fn view(&self) -> PositionView {
        PositionView { x: self.x as int, y: self.y as int, width: self.width as int, height: self.height as int }
    }
}

impl Default for WorldPosition {
    /// The origin of the smallest world.
    fn default() -> (p: WorldPosition)
        ensures
            p@ == default_position_spec(),
            p == WorldPosition::from_view(default_position_spec()),
    {
        WorldPosition { x: 0, y: 0, width: WORLD_SIZE_MIN, height: WORLD_SIZE_MIN }
    }
}

impl WorldPosition {
    #[verifier::type_invariant]
    closed spec fn valid(self) -> bool {
        position_valid(self@)
    }

    /// The position with the given value; meaningful for a valid value.
    pub closed spec fn from_view(v: PositionView) -> WorldPosition {
        WorldPosition { x: v.x as i64, y: v.y as i64, width: v.width as i64, height: v.height as i64 }
    }

    /// A valid value is the value of the position made from it.
    pub proof fn lemma_from_view(v: PositionView)
        requires
            position_valid(v),
        ensures
            Self::from_view(v)@ == v,
    {
    }

    /// A position is determined by its value.
    pub proof fn lemma_view_injective(a: WorldPosition, b: WorldPosition)
        ensures
            Self::from_view(a@) == a,
            a@ == b@ ==> a == b,
    {
    }

    /// The coordinates.
    pub fn to_vector2(&self) -> (v: (i64, i64))
        ensures
            v.0 == self@.x,
            v.1 == self@.y,
            position_valid(self@),
    {
        proof {
            use_type_invariant(self);
        }
        (self.x, self.y)
    }

    /// The coordinates, with depth zero.
    pub fn to_vector3(&self) -> (v: (i64, i64, i64))
        ensures
            v.0 == self@.x,
            v.1 == self@.y,
            v.2 == 0,
    {
        (self.x, self.y, 0)
    }

    /// The coordinates as a pair.
    pub fn to_tuple(&self) -> (v: (i64, i64))
        ensures
            v.0 == self@.x,
            v.1 == self@.y,
            position_valid(self@),
    {
        proof {
            use_type_invariant(self);
        }
        (self.x, self.y)
    }

    /// The extent of the world this position lives in.
    pub fn world_size(&self) -> (size: (i64, i64))
        ensures
            size.0 == self@.width,
            size.1 == self@.height,
            position_valid(self@),
    {
        proof {
            use_type_invariant(self);
        }
        (self.width, self.height)
    }

    /// The origin of the same world.
    pub fn to_zero(&self) -> (p: WorldPosition)
        ensures
            p@ == (PositionView { x: 0, y: 0, ..self@ }),
            p == Self::from_view(PositionView { x: 0, y: 0, ..self@ }),
    {
        proof {
            use_type_invariant(self);
        }
        WorldPosition { x: 0, y: 0, width: self.width, height: self.height }
    }

    /// Wraps a wide coordinate into the centered range of an axis.
    fn wrap(x: i128, world: i64) -> (r: i64)
        requires
            world > 0,
        ensures
            r == normalize_coord_spec(x as int, world as int),
            is_normalized(r as int, world as int),
    {
        proof {
            lemma_mod_bound(x as int, world as int);
        }
        let r: i128 = match x.checked_rem_euclid(world as i128) {
            Some(r) => r,
            None => 0,
        };
        if 2 * r > world as i128 {
            (r - world as i128) as i64
        } else {
            r as i64
        }
    }

    /// Wraps one coordinate into `(-world / 2, world / 2]`.
    pub fn normalize_coord(x: i64, world: i64) -> (r: i64)
        requires
            world > 0,
        ensures
            r == normalize_coord_spec(x as int, world as int),
    {
        Self::wrap(x as i128, world)
    }

    /// Wraps both coordinates into the centered range of a world of the
    /// given extent.
    pub fn normalize(position: (i64, i64), world_size: (i64, i64)) -> (r: (i64, i64))
        requires
            world_size.0 > 0,
            world_size.1 > 0,
        ensures
            (r.0 as int, r.1 as int) == normalize_spec(
                (position.0 as int, position.1 as int),
                (world_size.0 as int, world_size.1 as int),
            ),
    {
        (Self::wrap(position.0 as i128, world_size.0), Self::wrap(position.1 as i128, world_size.1))
    }

    /// Moves by `v`, wrapping around the world's edges. The result is always
    /// inside the world.
    pub fn translate(&self, v: (i64, i64)) -> (p: WorldPosition)
        ensures
            p@ == translate_spec(self@, (v.0 as int, v.1 as int)),
            p == Self::from_view(translate_spec(self@, (v.0 as int, v.1 as int))),
            is_normalized(p@.x, p@.width),
            is_normalized(p@.y, p@.height),
            position_valid(p@),
    {
        proof {
            use_type_invariant(self);
        }
        WorldPosition {
            x: Self::wrap(self.x as i128 + v.0 as i128, self.width),
            y: Self::wrap(self.y as i128 + v.1 as i128, self.height),
            width: self.width,
            height: self.height,
        }
    }

    /// Moves by `v` without wrapping. The result can be outside the world;
    /// it stays within the coordinate range.
    pub fn translate_unsafe(&self, v: (i64, i64)) -> (p: WorldPosition)
        ensures
            p@ == translate_unsafe_spec(self@, (v.0 as int, v.1 as int)),
            p == Self::from_view(translate_unsafe_spec(self@, (v.0 as int, v.1 as int))),
            position_valid(p@),
    {
        proof {
            use_type_invariant(self);
        }
        WorldPosition {
            x: clamp(self.x as i128 + v.0 as i128, -COORD_LIMIT, COORD_LIMIT),
            y: clamp(self.y as i128 + v.1 as i128, -COORD_LIMIT, COORD_LIMIT),
            width: self.width,
            height: self.height,
        }
    }

    /// Squared length of the offset between two points with bounded
    /// coordinates.
    fn span(ax: i64, ay: i64, bx: i64, by: i64) -> (s: i128)
        requires
            -COORD_LIMIT <= ax <= COORD_LIMIT,
            -COORD_LIMIT <= ay <= COORD_LIMIT,
            -COORD_LIMIT <= bx <= COORD_LIMIT,
            -COORD_LIMIT <= by <= COORD_LIMIT,
        ensures
            s == span_squared(ax as int, ay as int, bx as int, by as int),
            0 <= s <= 0x800_0000_0000_0000_0000_0000_0000_0000,
    {
        let dx: i128 = ax as i128 - bx as i128;
        let dy: i128 = ay as i128 - by as i128;
        proof {
            lemma_mul_bounds(dx as int, dx as int, 0x2000_0000_0000_0000, 0x2000_0000_0000_0000);
            lemma_mul_bounds(dy as int, dy as int, 0x2000_0000_0000_0000, 0x2000_0000_0000_0000);
            assert(dx * dx >= 0 && dy * dy >= 0) by (nonlinear_arith);
        }
        dx * dx + dy * dy
    }

    /// Distance to `other` on the torus, rounded down to a whole length.
    pub fn distance(&self, other: &WorldPosition) -> (d: i64)
        ensures
            d == distance_spec(self@, other@),
            is_isqrt(distance_squared_spec(self@, other@), d as int),
    {
        proof {
            use_type_invariant(self);
            use_type_invariant(other);
        }
        let hw = self.width / 2;
        let hh = self.height / 2;
        let direct = Self::span(self.x, self.y, other.x, other.y);
        let wrapped = Self::span(
            Self::wrap(self.x as i128 + hw as i128, self.width),
            Self::wrap(self.y as i128 + hh as i128, self.height),
            Self::wrap(other.x as i128 + hw as i128, self.width),
            Self::wrap(other.y as i128 + hh as i128, self.height),
        );
        let squared = if direct <= wrapped {
            direct
        } else {
            wrapped
        };
        let root = isqrt(squared as u128);
        proof {
            lemma_isqrt_spec(squared as int, root as int);
            if root >= 0x4000_0000_0000_0000 {
                assert(root * root >= 0x4000_0000_0000_0000 * 0x4000_0000_0000_0000) by (nonlinear_arith)
                    requires
                        root >= 0x4000_0000_0000_0000,
                ;
            }
        }
        root as i64
    }
}

/// The extent of the world and the camera that shows it.
#[derive(Clone, Copy, Debug)]
pub struct World {
    size: (i64, i64),
    camera: Camera,
}

impl World {
    #[verifier::type_invariant]
    closed spec fn valid(self) -> bool {
        &&& 0 < self.size.0 <= EXTENT_LIMIT
        &&& 0 < self.size.1 <= EXTENT_LIMIT
        &&& self.camera == camera_spec((self.size.0 as int, self.size.1 as int))
    }

    /// The extent `(width, height)` of the world.
    pub closed spec fn spec_size(&self) -> (int, int) {
        (self.size.0 as int, self.size.1 as int)
    }

    /// The world for a drawing surface of `width` by `height` pixels.
    pub fn init(width: u32, height: u32) -> (world: World)
        requires
            width > 0,
            height > 0,
        ensures
            world.spec_size() == world_size_spec(width as int, height as int),
    {
        let (size, camera) = Self::world_size_and_camera(width, height);
        World { size, camera }
    }

    /// Replaces the extent and the camera by those for a new surface.
    pub fn resize(&mut self, width: u32, height: u32)
        requires
            width > 0,
            height > 0,
        ensures
            final(self).spec_size() == world_size_spec(width as int, height as int),
    {
        let (size, camera) = Self::world_size_and_camera(width, height);
        *self = World { size, camera };
    }

    /// The extent `(width, height)` of the world.
    pub fn size(&self) -> (size: (i64, i64))
        ensures
            (size.0 as int, size.1 as int) == self.spec_size(),
            0 < size.0 <= EXTENT_LIMIT,
            0 < size.1 <= EXTENT_LIMIT,
    {
        proof {
            use_type_invariant(self);
        }
        self.size
    }

    /// The camera parameters.
    pub fn camera(&self) -> (camera: Camera)
        ensures
            camera == camera_spec(self.spec_size()),
    {
        proof {
            use_type_invariant(self);
        }
        self.camera
    }

    /// The position with the given coordinates in this world. Coordinates
    /// beyond the coordinate range are brought to its limit.
    pub fn new_position(&self, position: (i64, i64)) -> (p: WorldPosition)
        ensures
            p@ == new_position_spec(self.spec_size(), (position.0 as int, position.1 as int)),
            p == WorldPosition::from_view(
                new_position_spec(self.spec_size(), (position.0 as int, position.1 as int)),
            ),
    {
        proof {
            use_type_invariant(self);
        }
        WorldPosition {
            x: clamp(position.0 as i128, -COORD_LIMIT, COORD_LIMIT),
            y: clamp(position.1 as i128, -COORD_LIMIT, COORD_LIMIT),
            width: self.size.0,
            height: self.size.1,
        }
    }

    /// The upper left corner of the visible rectangle.
    pub fn left_top(&self) -> (corner: (i64, i64))
        ensures
            corner == world_rect_spec(self.spec_size()).left_top,
    {
        proof {
            use_type_invariant(self);
        }
        (-(self.size.0 / 2), self.size.1 / 2)
    }

    /// The lower right corner of the visible rectangle.
    pub fn right_bottom(&self) -> (corner: (i64, i64))
        ensures
            corner == world_rect_spec(self.spec_size()).right_bottom,
    {
        proof {
            use_type_invariant(self);
        }
        (self.size.0 / 2, -(self.size.1 / 2))
    }

    /// The visible rectangle.
    pub fn rect(&self) -> (rect: Rect)
        ensures
            rect == world_rect_spec(self.spec_size()),
    {
        Rect { left_top: self.left_top(), right_bottom: self.right_bottom() }
    }

    /// The extent and the camera for a surface of `width` by `height`
    /// pixels.
    fn world_size_and_camera(width: u32, height: u32) -> (r: ((i64, i64), Camera))
        requires
            width > 0,
            height > 0,
        ensures
            (r.0.0 as int, r.0.1 as int) == world_size_spec(width as int, height as int),
            0 < r.0.0 <= EXTENT_LIMIT,
            0 < r.0.1 <= EXTENT_LIMIT,
            r.1 == camera_spec((r.0.0 as int, r.0.1 as int)),
    {
        let mut world_width: i64 = WORLD_SIZE_MIN;
        let mut world_height: i64 = WORLD_SIZE_MIN;
        if width > height {
            let scaled: i64 = WORLD_SIZE_MIN * (width as i64);
            proof {
                lemma_scaled_side(width as int, height as int);
            }
            world_width = scaled / (height as i64);
        } else {
            let scaled: i64 = WORLD_SIZE_MIN * (height as i64);
            proof {
                lemma_scaled_side(height as int, width as int);
            }
            world_height = scaled / (width as i64);
        }
        let size = (world_width, world_height);
        let camera = Camera {
            eye: (0, -UNIT, WORLD_SIZE_MIN),
            target: (0, 0, 0),
            up: (0, 1, 0),
            left: -(world_width / 2),
            right: world_width / 2,
            top: world_height / 2,
            bottom: -(world_height / 2),
            near: WORLD_SIZE_MIN - 25 * UNIT,
            far: WORLD_SIZE_MIN + 25 * UNIT,
        };
        (size, camera)
    }
}

/// The longer side of a world is at least the shorter one and within the
/// extent limit.
proof fn lemma_scaled_side(long: int, short: int)
    requires
        0 < short <= long <= u32::MAX,
    ensures
        WORLD_SIZE_MIN <= (WORLD_SIZE_MIN * long) / short <= EXTENT_LIMIT,
{
    assert((WORLD_SIZE_MIN * long) / short <= WORLD_SIZE_MIN * long) by (nonlinear_arith)
        requires
            0 < short,
            0 <= WORLD_SIZE_MIN * long,
    ;
    assert((WORLD_SIZE_MIN * long) / short >= WORLD_SIZE_MIN) by (nonlinear_arith)
        requires
            0 < short <= long,
    ;
}

} // verus!
