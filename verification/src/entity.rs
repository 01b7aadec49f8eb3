//! Entities: a name tag, a place and an orientation in the world, and up to
//! eight optional components; and the recipes for the entities of the game.

use vstd::prelude::*;
use crate::arith::{
    div_toward_zero, div_trunc, is_isqrt, isqrt, isqrt_spec, lemma_isqrt_spec, lemma_mul_bounds, sat_i64,
    saturate, wide_mul,
};
use crate::components::{
    default_physics, is_random_physics, Collision, Control, Health, Lifetime, Light, OnCollision, Physics,
    Renderable, NANOS_PER_MILLI,
};
use crate::geometry::{contains_circle_spec, Rect, Shape};
use crate::rotation::{
    compose_spec, conjugate_spec, forward_spec, from_angle_z_spec, identity_spec, new_spec, nlerp_spec,
    power_spec, zero_spec, Rotation, RotationView, ONE,
};
use crate::world::{
    default_position_spec, is_normalized, lemma_normalize_coord, position_valid, translate_spec,
    translate_unsafe_spec, world_rect_spec, PositionView, WorldPosition,
};

verus! {

/// Forward acceleration of a steered entity under thrust: 50 world units
/// per second, per second.
pub const THRUST: i64 = 50_000;

/// Cosine of half the angle that a steered entity turns in a millisecond,
/// at 180 degrees per second, scaled by [`ONE`].
pub const TURN_COS: i64 = 999_999;

/// Sine of half the angle that a steered entity turns in a millisecond,
/// scaled by [`ONE`].
pub const TURN_SIN: i64 = 1_571;

/// Time between two shots: 200 milliseconds, in nanoseconds.
pub const WEAPON_COOLDOWN: u64 = 200_000_000;

/// Speed of a laser relative to the entity that fires it: 80 world units
/// per second.
pub const LASER_SPEED: i64 = 80_000;

/// Speed limit of a laser.
pub const LASER_MAX_SPEED: i64 = 1_000_000;

/// Time a laser lives: one second.
pub const LASER_LIFETIME: u64 = 1_000_000_000;

/// Time a cloud of debris lives: half a second.
pub const DEBRIS_LIFETIME: u64 = 500_000_000;

/// Speed limit of the spaceship.
pub const SPACESHIP_MAX_SPEED: i64 = 60_000;

/// Health of a new spaceship.
pub const SPACESHIP_HEALTH: usize = 3;

/// Radius of the spaceship and of a large asteroid.
pub const LARGE_RADIUS: i64 = 5_000;

/// Radius of a medium asteroid.
pub const MEDIUM_RADIUS: i64 = 3_000;

/// Radius of a small asteroid and of a laser.
pub const SMALL_RADIUS: i64 = 1_000;

/// Largest velocity component of a new large asteroid.
pub const LARGE_ASTEROID_SPEED: i64 = 5_000;

/// Largest velocity component of a new medium or small asteroid.
pub const SMALL_ASTEROID_SPEED: i64 = 10_000;

/// Bound of a new asteroid's spin, in degrees per second.
pub const ASTEROID_SPIN: i64 = 100;

/// How far from a large asteroid its two halves appear.
pub const LARGE_SPLIT_OFFSET: i64 = 3_500;

/// How far from a medium asteroid its two halves appear.
pub const MEDIUM_SPLIT_OFFSET: i64 = 1_500;

/// The player's intents for one tick, as the input layer reports them.
#[derive(Clone, Copy, Debug, PartialEq, Eq, Structural)]
pub struct Input {
    pub is_forward_pressed: bool,
    pub is_left_pressed: bool,
    pub is_right_pressed: bool,
    pub is_fire_pressed: bool,
    pub is_spawn_pressed: bool,
}

/// One drawn copy of an entity: where, and how it is turned.
#[derive(Clone, Copy, Debug)]
pub struct Instance {
    pub position: (i64, i64, i64),
    pub rotation: Rotation,
}

/// A thing in the world. Many entities can share a name; an entity exists
/// as long as the registry holds it.
#[derive(Clone, Copy, Debug)]
pub struct Entity {
    pub name: &'static str,
    pub rotation: Rotation,
    pub position: WorldPosition,
    /// False until the shape first lies fully inside the world. From then
    /// on the entity wraps around the world's edges.
    pub entered_world: bool,
    pub shape: Option<Shape>,
    pub physics: Option<Physics>,
    pub collision: Option<Collision>,
    pub control: Option<Control>,
    pub health: Option<Health>,
    pub lifetime: Option<Lifetime>,
    pub light: Option<Light>,
    pub renderable: Option<Renderable>,
}

/// The entity without a name and without components, at the default
/// position, not yet in the world.
pub open spec fn default_entity() -> Entity {
    Entity {
        name: "",
        rotation: Rotation::from_view(zero_spec()),
        position: WorldPosition::from_view(default_position_spec()),
        entered_world: false,
        shape: None,
        physics: None,
        collision: None,
        control: None,
        health: None,
        lifetime: None,
        light: None,
        renderable: None,
    }
}

/// Whether a shape placed at `position` lies fully inside the world. An
/// entity without a shape always does.
pub open spec fn fits_spec(shape: Option<Shape>, position: PositionView) -> bool {
    match shape {
        Some(Shape::Circle { origin, radius }) => {
            let center = translate_unsafe_spec(origin@, (position.x, position.y));
            contains_circle_spec(
                world_rect_spec((position.width, position.height)),
                (center.x, center.y),
                radius as int,
            )
        },
        None => true,
    }
}

/// Where an entity is after moving by `v`: wrapped around the edges once it
/// has entered the world, unwrapped before.
pub open spec fn moved_position(e: Entity, v: (int, int)) -> PositionView {
    if e.entered_world {
        translate_spec(e.position@, v)
    } else {
        translate_unsafe_spec(e.position@, v)
    }
}

/// The entity after moving by `v`. It has entered the world if it had
/// before or if its shape now fits.
pub open spec fn translated(e: Entity, v: (int, int)) -> Entity {
    let p = moved_position(e, v);
    Entity { position: WorldPosition::from_view(p), entered_world: e.entered_world || fits_spec(e.shape, p), ..e }
}

/// The velocity with its length limited to `max`, direction kept. A
/// velocity of zero stays zero.
pub open spec fn clamped_speed(v: (i64, i64), max: i64) -> (i64, i64) {
    let squared = v.0 * v.0 + v.1 * v.1;
    if squared > 0 {
        let length = isqrt_spec(squared);
        let target = if max <= length {
            max as int
        } else {
            length
        };
        (
            sat_i64(div_trunc(v.0 * target, length)) as i64,
            sat_i64(div_trunc(v.1 * target, length)) as i64,
        )
    } else {
        v
    }
}

/// Whole milliseconds in a time given in nanoseconds.
pub open spec fn millis(dtime: u64) -> int {
    dtime as int / NANOS_PER_MILLI as int
}

/// The way made at velocity `v` in the time `dtime`.
pub open spec fn displacement(v: (i64, i64), dtime: u64) -> (i64, i64) {
    (
        sat_i64(div_trunc(v.0 * millis(dtime), 1000)) as i64,
        sat_i64(div_trunc(v.1 * millis(dtime), 1000)) as i64,
    )
}

/// The orientation after the time `dtime` under the spin `angular`: the
/// interpolation from `rotation` toward `rotation * angular`.
pub open spec fn spun(rotation: RotationView, angular: RotationView, dtime: u64) -> RotationView {
    nlerp_spec(rotation, compose_spec(rotation, angular), millis(dtime))
}

/// The entity after `dtime` of motion: speed limited, position moved,
/// orientation spun. An entity without physics stays as it is.
pub open spec fn physics_step(e: Entity, dtime: u64) -> Entity {
    match e.physics {
        Some(physics) => {
            let speed = clamped_speed(physics.linear_speed, physics.max_linear_speed);
            let limited = Entity { physics: Some(Physics { linear_speed: speed, ..physics }), ..e };
            let moved = translated(limited, (displacement(speed, dtime).0 as int, displacement(speed, dtime).1 as int));
            Entity {
                rotation: Rotation::from_view(spun(e.rotation@, physics.angular_speed@, dtime)),
                ..moved
            }
        },
        None => e,
    }
}

/// Whether input steers the entity: it has control, switched on, and
/// physics.
pub open spec fn steered(e: Entity) -> bool {
    e.control is Some && e.physics is Some && e.control->0.enabled
}

/// The velocity after thrust along `direction` for the time `dtime`.
pub open spec fn thrusted(v: (i64, i64), direction: (int, int), dtime: u64) -> (i64, i64) {
    let gain = div_trunc(THRUST * millis(dtime), 1000);
    (
        sat_i64(v.0 + div_trunc(direction.0 * gain, ONE as int)) as i64,
        sat_i64(v.1 + div_trunc(direction.1 * gain, ONE as int)) as i64,
    )
}

/// The rotation about the axis out of the plane that turning left makes in
/// a millisecond.
pub open spec fn turn_per_milli() -> RotationView {
    new_spec(TURN_COS as int, 0, 0, TURN_SIN as int)
}

/// The rotation that turning left makes in the time `dtime`: the turn of a
/// millisecond, once for every whole millisecond.
pub open spec fn turn_spec(dtime: u64) -> RotationView {
    power_spec(turn_per_milli(), millis(dtime) as nat)
}

/// The orientation after the turn input: `turn` is the rotation made in one
/// tick of turning left, its conjugate the one for turning right.
pub open spec fn turned(rotation: RotationView, input: Input, turn: RotationView) -> RotationView {
    let after_right = if input.is_right_pressed {
        compose_spec(rotation, conjugate_spec(turn))
    } else {
        rotation
    };
    if input.is_left_pressed {
        compose_spec(after_right, turn)
    } else {
        after_right
    }
}

/// Whether a steered entity fires in this tick: the fire intent is held and
/// less cooldown is left than time has passed.
pub open spec fn fires(e: Entity, input: Input, dtime: u64) -> bool {
    steered(e) && e.control->0.weapon_cooldown < dtime && input.is_fire_pressed
}

/// The cooldown after a tick of `dtime`.
pub open spec fn cooled(cooldown: u64, input: Input, dtime: u64) -> u64 {
    if cooldown < dtime {
        if input.is_fire_pressed {
            WEAPON_COOLDOWN
        } else {
            0
        }
    } else {
        (cooldown - dtime) as u64
    }
}

/// The entity after one tick of input. Thrust acts along the orientation
/// the entity had before the turn.
pub open spec fn controlled(e: Entity, input: Input, dtime: u64) -> Entity {
    let turn = turn_spec(dtime);
    if steered(e) {
        let physics = e.physics->0;
        let control = e.control->0;
        let speed = if input.is_forward_pressed {
            thrusted(physics.linear_speed, forward_spec(e.rotation@), dtime)
        } else {
            physics.linear_speed
        };
        Entity {
            rotation: Rotation::from_view(turned(e.rotation@, input, turn)),
            physics: Some(Physics { linear_speed: speed, ..physics }),
            control: Some(Control { weapon_cooldown: cooled(control.weapon_cooldown, input, dtime), ..control }),
            ..e
        }
    } else {
        e
    }
}

/// Whether the entity's time is up after `dtime` more.
pub open spec fn expires(e: Entity, dtime: u64) -> bool {
    e.lifetime is Some && e.lifetime->0.dies_after < dtime
}

/// The entity with `dtime` taken off its lifetime, if it has that much
/// left.
pub open spec fn aged(e: Entity, dtime: u64) -> Entity {
    if e.lifetime is Some && e.lifetime->0.dies_after >= dtime {
        Entity { lifetime: Some(Lifetime { dies_after: (e.lifetime->0.dies_after - dtime) as u64 }), ..e }
    } else {
        e
    }
}

/// The one copy of an entity that is drawn where the entity is.
pub open spec fn instance_spec(e: Entity) -> Instance {
    Instance { position: (e.position@.x as i64, e.position@.y as i64, 0), rotation: e.rotation }
}

/// The circle of radius `radius` around the entity's own position.
pub open spec fn centered_circle(position: WorldPosition, radius: i64) -> Shape {
    Shape::Circle { origin: WorldPosition::from_view(PositionView { x: 0, y: 0, ..position@ }), radius }
}

/// An asteroid: name, shape, light and behavior by size, the given physics.
pub open spec fn asteroid_spec(
    name: &'static str,
    radius: i64,
    light_reach: i64,
    behavior: OnCollision,
    position: WorldPosition,
    physics: Physics,
) -> Entity {
    Entity {
        name,
        position,
        rotation: Rotation::from_view(identity_spec()),
        physics: Some(physics),
        shape: Some(centered_circle(position, radius)),
        light: Some(Light { color: (0, 300, 700), radius: light_reach, z: light_reach }),
        collision: Some(Collision { on_collision: behavior }),
        ..default_entity()
    }
}

/// A small asteroid at `position` with the given physics.
pub open spec fn asteroid_s_spec(position: WorldPosition, physics: Physics) -> Entity {
    asteroid_spec("Asteroid_S", SMALL_RADIUS, 5_000, OnCollision::AsteroidS, position, physics)
}

/// A medium asteroid at `position` with the given physics.
pub open spec fn asteroid_m_spec(position: WorldPosition, physics: Physics) -> Entity {
    asteroid_spec("Asteroid_M", MEDIUM_RADIUS, 10_000, OnCollision::AsteroidM, position, physics)
}

/// A large asteroid at `position` with the given physics.
pub open spec fn asteroid_l_spec(position: WorldPosition, physics: Physics) -> Entity {
    asteroid_spec("Asteroid_L", LARGE_RADIUS, 15_000, OnCollision::AsteroidL, position, physics)
}

/// The spaceship at `position`, turned by `rotation_angle` degrees, at rest
/// and in full health.
pub open spec fn spaceship_spec(position: WorldPosition, rotation_angle: i64) -> Entity {
    Entity {
        name: "Spaceship",
        position,
        rotation: Rotation::from_view(from_angle_z_spec(rotation_angle as int)),
        physics: Some(Physics { max_linear_speed: SPACESHIP_MAX_SPEED, ..default_physics() }),
        shape: Some(centered_circle(position, LARGE_RADIUS)),
        light: Some(Light { color: (1000, 700, 300), radius: 30_000, z: 15_000 }),
        collision: Some(Collision { on_collision: OnCollision::Spaceship }),
        control: Some(Control { enabled: true, weapon_cooldown: 0 }),
        health: Some(Health { level: SPACESHIP_HEALTH }),
        ..default_entity()
    }
}

/// The velocity of a laser fired along `rotation` by an entity that moves
/// at `relative_speed`.
pub open spec fn laser_speed(rotation: RotationView, relative_speed: (i64, i64)) -> (i64, i64) {
    (
        sat_i64(div_trunc(forward_spec(rotation).0 * LASER_SPEED, ONE as int) + relative_speed.0) as i64,
        sat_i64(div_trunc(forward_spec(rotation).1 * LASER_SPEED, ONE as int) + relative_speed.1) as i64,
    )
}

/// A laser fired at `position` along `rotation`.
pub open spec fn laser_spec(position: WorldPosition, rotation: Rotation, relative_speed: (i64, i64)) -> Entity {
    Entity {
        name: "Laser",
        position,
        rotation,
        physics: Some(
            Physics {
                linear_speed: laser_speed(rotation@, relative_speed),
                max_linear_speed: LASER_MAX_SPEED,
                angular_speed: Rotation::from_view(zero_spec()),
            },
        ),
        lifetime: Some(Lifetime { dies_after: LASER_LIFETIME }),
        shape: Some(centered_circle(position, SMALL_RADIUS)),
        light: Some(Light { color: (1000, 700, 300), radius: 10_000, z: 0 }),
        collision: Some(Collision { on_collision: OnCollision::Laser }),
        ..default_entity()
    }
}

/// A cloud of debris at `position`: it has a lifetime and nothing else.
pub open spec fn debris_spec(position: WorldPosition) -> Entity {
    Entity {
        name: "Debris",
        position,
        rotation: Rotation::from_view(identity_spec()),
        lifetime: Some(Lifetime { dies_after: DEBRIS_LIFETIME }),
        ..default_entity()
    }
}

/// An entity that has entered the world stays in it: after every move its
/// position lies in the centered range of both axes. The same holds of an
/// entity that enters with this move, if its shape is centered on it.
pub proof fn law_entered_is_wrapped(e: Entity, v: (int, int))
    requires
        position_valid(e.position@),
        e.entered_world || (e.shape is Some && e.shape->0->origin@.x == 0 && e.shape->0->origin@.y == 0),
    ensures
        e.entered_world ==> translated(e, v).entered_world,
        translated(e, v).entered_world ==> {
            let p = translated(e, v).position@;
            &&& p == moved_position(e, v)
            &&& is_normalized(p.x, p.width)
            &&& is_normalized(p.y, p.height)
        },
{
    let p = moved_position(e, v);
    lemma_normalize_coord(e.position@.x + v.0, e.position@.width);
    lemma_normalize_coord(e.position@.y + v.1, e.position@.height);
    assert(position_valid(p));
    WorldPosition::lemma_from_view(p);
    assert(translated(e, v).position@ == p);
    if !e.entered_world && fits_spec(e.shape, p) {
        let radius = e.shape->0->radius as int;
        let rect = world_rect_spec((p.width, p.height));
        let center = translate_unsafe_spec(e.shape->0->origin@, (p.x, p.y));
        assert(center.x == p.x && center.y == p.y);
        let dx = rect.left_top.0 - p.x;
        let dy = rect.right_bottom.1 - p.y;
        assert(dx * dx > radius * radius);
        assert(dy * dy > radius * radius);
        assert(dx != 0) by (nonlinear_arith)
            requires
                dx * dx > radius * radius,
        ;
        assert(dy != 0) by (nonlinear_arith)
            requires
                dy * dy > radius * radius,
        ;
    }
}

/// The length of a velocity is below `2^64`, so its product with a
/// component fits in 128 bits.
pub(crate) proof fn lemma_speed_length(v: (i64, i64), length: int)
    requires
        is_isqrt(v.0 * v.0 + v.1 * v.1, length),
    ensures
        length <= 13043817825332782212,
{
    lemma_mul_bounds(v.0 as int, v.0 as int, 0x8000_0000_0000_0000, 0x8000_0000_0000_0000);
    lemma_mul_bounds(v.1 as int, v.1 as int, 0x8000_0000_0000_0000, 0x8000_0000_0000_0000);
    if length > 13043817825332782212 {
        assert(length * length >= 13043817825332782213 * 13043817825332782213) by (nonlinear_arith)
            requires
                length >= 13043817825332782213,
        ;
    }
}

impl Default for Entity {
    fn default() -> (e: Entity)
        ensures
            e == default_entity(),
    {
        Entity {
            name: "",
            rotation: Rotation::zero(),
            position: WorldPosition::default(),
            entered_world: false,
            shape: None,
            physics: None,
            collision: None,
            control: None,
            health: None,
            lifetime: None,
            light: None,
            renderable: None,
        }
    }
}

impl Entity {
    /// An entity with a name and a position and nothing else.
    pub fn new(name: &'static str, position: WorldPosition) -> (e: Entity)
        ensures
            e == (Entity { name, position, ..default_entity() }),
    {
        Entity {
            name,
            rotation: Rotation::zero(),
            position,
            entered_world: false,
            shape: None,
            physics: None,
            collision: None,
            control: None,
            health: None,
            lifetime: None,
            light: None,
            renderable: None,
        }
    }

    /// The copy of the entity that is drawn where the entity is.
    pub fn to_instance(&self) -> (i: Instance)
        ensures
            i == instance_spec(*self),
    {
        Instance { position: self.position.to_vector3(), rotation: self.rotation }
    }

    /// Where the entity is.
    pub fn position(&self) -> (p: WorldPosition)
        ensures
            p == self.position,
    {
        self.position
    }

    /// Whether the entity has entered the world.
    pub fn entered_world(&self) -> (entered: bool)
        ensures
            entered == self.entered_world,
    {
        self.entered_world
    }

    /// Whether the entity's shape, where the entity is now, lies fully
    /// inside the world.
    fn fits(&self) -> (inside: bool)
        ensures
            inside == fits_spec(self.shape, self.position@),
    {
        match self.shape {
            Some(Shape::Circle { origin, radius }) => {
                let (w, h) = self.position.world_size();
                let rect = Rect { left_top: (-(w / 2), h / 2), right_bottom: (w / 2, -(h / 2)) };
                let center = origin.translate_unsafe(self.position.to_vector2()).to_tuple();
                rect.contains_circle(center, radius)
            },
            None => true,
        }
    }

    /// Moves the entity by `v`. Before the entity has entered the world it
    /// moves freely, so that one that starts outside is not carried to the
    /// far side; afterwards it wraps around the world's edges. The entity
    /// enters the world the first time its shape fits.
    pub fn translate(&mut self, v: (i64, i64))
        ensures
            *final(self) == translated(*old(self), (v.0 as int, v.1 as int)),
    {
        self.position = if self.entered_world {
            self.position.translate(v)
        } else {
            self.position.translate_unsafe(v)
        };
        let inside = self.fits();
        self.entered_world = self.entered_world || inside;
    }

    /// One component of a velocity rescaled from `length` to `target`.
    pub(crate) fn rescale_speed(component: i64, target: i128, length: u64) -> (r: i64)
        requires
            0 < length <= 13043817825332782212,
            -0x8000_0000_0000_0000 <= target <= 13043817825332782212,
        ensures
            r == sat_i64(div_trunc(component * target, length as int)),
    {
        proof {
            lemma_mul_bounds(component as int, target as int, 0x8000_0000_0000_0000, 13043817825332782212);
        }
        saturate(div_toward_zero((component as i128) * target, length as i128))
    }

    /// The velocity with its length limited to `max`.
    fn clamp_speed(v: (i64, i64), max: i64) -> (r: (i64, i64))
        ensures
            r == clamped_speed(v, max),
    {
        let xx = wide_mul(v.0, v.0);
        let yy = wide_mul(v.1, v.1);
        proof {
            lemma_mul_bounds(v.0 as int, v.0 as int, 0x8000_0000_0000_0000, 0x8000_0000_0000_0000);
            lemma_mul_bounds(v.1 as int, v.1 as int, 0x8000_0000_0000_0000, 0x8000_0000_0000_0000);
            assert(xx >= 0 && yy >= 0) by (nonlinear_arith)
                requires
                    xx == v.0 * v.0,
                    yy == v.1 * v.1,
            ;
        }
        let squared: u128 = xx as u128 + yy as u128;
        if squared > 0 {
            let length = isqrt(squared);
            proof {
                lemma_isqrt_spec(squared as int, length as int);
                lemma_speed_length(v, length as int);
                if length == 0 {
                    assert(is_isqrt(squared as int, 0));
                    assert((0int + 1) * (0int + 1) == 1);
                }
            }
            let target: i128 = if (max as i128) <= (length as i128) {
                max as i128
            } else {
                length as i128
            };
            (Self::rescale_speed(v.0, target, length), Self::rescale_speed(v.1, target, length))
        } else {
            v
        }
    }

    /// One component of the way made in `ms` milliseconds.
    fn displace(component: i64, ms: u64) -> (r: i64)
        requires
            ms <= 18_446_744_073_709,
        ensures
            r == sat_i64(div_trunc(component * ms, 1000)),
    {
        proof {
            lemma_mul_bounds(component as int, ms as int, 0x8000_0000_0000_0000, 18_446_744_073_709);
        }
        saturate(div_toward_zero((component as i128) * (ms as i128), 1000))
    }

    /// Advances the entity by `dtime` nanoseconds of motion: limits its
    /// speed, moves it, and spins it. Does nothing without physics.
    pub fn update_physics(&mut self, dtime: u64)
        ensures
            *final(self) == physics_step(*old(self), dtime),
    {
        let ms = dtime / NANOS_PER_MILLI;
        if let Some(physics) = self.physics {
            let speed = Self::clamp_speed(physics.linear_speed, physics.max_linear_speed);
            self.physics = Some(
                Physics {
                    linear_speed: speed,
                    max_linear_speed: physics.max_linear_speed,
                    angular_speed: physics.angular_speed,
                },
            );
            let rotation = self.rotation;
            self.translate((Self::displace(speed.0, ms), Self::displace(speed.1, ms)));
            self.rotation = rotation.nlerp(&rotation.compose(&physics.angular_speed), ms);
        }
    }

    /// One component of a velocity after thrust.
    fn thrust(component: i64, direction: i64, gain: i64) -> (r: i64)
        requires
            0 <= gain <= 1_000_000_000_000_000_000,
        ensures
            r == sat_i64(component + div_trunc(direction * gain, ONE as int)),
    {
        proof {
            lemma_mul_bounds(direction as int, gain as int, 0x8000_0000_0000_0000, 1_000_000_000_000_000_000);
            crate::arith::lemma_div_trunc_bounds(direction * gain, ONE as int);
        }
        let push = div_toward_zero((direction as i128) * (gain as i128), ONE as i128);
        saturate(component as i128 + push)
    }

    /// The rotation that turning left makes in `dtime` nanoseconds, at 180
    /// degrees per second.
    pub fn turn(dtime: u64) -> (r: Rotation)
        ensures
            r@ == turn_spec(dtime),
    {
        Rotation::new(TURN_COS, 0, 0, TURN_SIN).power(dtime / NANOS_PER_MILLI)
    }

    /// Applies one tick of input to the entity, if input steers it: thrust,
    /// turn, and the weapon's cooldown. Returns whether the entity fires.
    pub fn apply_control(&mut self, input: &Input, dtime: u64) -> (fired: bool)
        ensures
            *final(self) == controlled(*old(self), *input, dtime),
            fired == fires(*old(self), *input, dtime),
    {
        let ms = dtime / NANOS_PER_MILLI;
        match (self.control, self.physics) {
            (Some(control), Some(physics)) => {
                if !control.enabled {
                    return false;
                }
                proof {
                    Rotation::lemma_view_injective(self.rotation, self.rotation);
                }
                let direction = self.rotation.forward();
                let mut speed = physics.linear_speed;
                if input.is_forward_pressed {
                    let gain: i64 = (((THRUST as i128) * (ms as i128)) / 1000) as i64;
                    speed = (Self::thrust(speed.0, direction.0, gain), Self::thrust(speed.1, direction.1, gain));
                }
                if input.is_right_pressed {
                    self.rotation = self.rotation.compose(&Self::turn(dtime).conjugate());
                }
                if input.is_left_pressed {
                    self.rotation = self.rotation.compose(&Self::turn(dtime));
                }
                let mut fired = false;
                let cooldown = if control.weapon_cooldown < dtime {
                    if input.is_fire_pressed {
                        fired = true;
                        WEAPON_COOLDOWN
                    } else {
                        0
                    }
                } else {
                    control.weapon_cooldown - dtime
                };
                self.physics = Some(
                    Physics {
                        linear_speed: speed,
                        max_linear_speed: physics.max_linear_speed,
                        angular_speed: physics.angular_speed,
                    },
                );
                self.control = Some(Control { enabled: control.enabled, weapon_cooldown: cooldown });
                fired
            },
            _ => false,
        }
    }

    /// Takes `dtime` nanoseconds off the entity's lifetime. Returns whether
    /// the lifetime is used up: then it is left as it was, and the entity is
    /// due to be removed.
    pub fn age(&mut self, dtime: u64) -> (expired: bool)
        ensures
            expired == expires(*old(self), dtime),
            *final(self) == aged(*old(self), dtime),
    {
        match self.lifetime {
            Some(lifetime) => {
                if lifetime.dies_after >= dtime {
                    self.lifetime = Some(Lifetime { dies_after: lifetime.dies_after - dtime });
                    false
                } else {
                    true
                }
            },
            None => false,
        }
    }

    /// An asteroid of the given size at `position`.
    fn asteroid(
        name: &'static str,
        radius: i64,
        light_reach: i64,
        behavior: OnCollision,
        position: WorldPosition,
        physics: Physics,
    ) -> (e: Entity)
        ensures
            e == asteroid_spec(name, radius, light_reach, behavior, position, physics),
    {
        Entity {
            name,
            position,
            rotation: Rotation::identity(),
            entered_world: false,
            physics: Some(physics),
            shape: Some(Shape::Circle { origin: position.to_zero(), radius }),
            light: Some(Light { color: (0, 300, 700), radius: light_reach, z: light_reach }),
            collision: Some(Collision { on_collision: behavior }),
            control: None,
            health: None,
            lifetime: None,
            renderable: None,
        }
    }

    /// A small asteroid with the given physics.
    pub fn asteroid_s_with(position: WorldPosition, physics: Physics) -> (e: Entity)
        ensures
            e == asteroid_s_spec(position, physics),
    {
        Self::asteroid("Asteroid_S", SMALL_RADIUS, 5_000, OnCollision::AsteroidS, position, physics)
    }

    /// A medium asteroid with the given physics.
    pub fn asteroid_m_with(position: WorldPosition, physics: Physics) -> (e: Entity)
        ensures
            e == asteroid_m_spec(position, physics),
    {
        Self::asteroid("Asteroid_M", MEDIUM_RADIUS, 10_000, OnCollision::AsteroidM, position, physics)
    }

    /// A large asteroid with the given physics.
    pub fn asteroid_l_with(position: WorldPosition, physics: Physics) -> (e: Entity)
        ensures
            e == asteroid_l_spec(position, physics),
    {
        Self::asteroid("Asteroid_L", LARGE_RADIUS, 15_000, OnCollision::AsteroidL, position, physics)
    }

    /// A small asteroid with random velocity and spin. When it collides it
    /// dies.
    pub fn make_asteroid_s(position: WorldPosition) -> (e: Entity)
        ensures
            e.physics is Some,
            is_random_physics(e.physics->0, SMALL_ASTEROID_SPEED as int, ASTEROID_SPIN as int),
            e == asteroid_s_spec(position, e.physics->0),
    {
        Self::asteroid_s_with(position, Physics::random(SMALL_ASTEROID_SPEED, ASTEROID_SPIN))
    }

    /// A medium asteroid with random velocity and spin. When it collides it
    /// breaks into two small ones.
    pub fn make_asteroid_m(position: WorldPosition) -> (e: Entity)
        ensures
            e.physics is Some,
            is_random_physics(e.physics->0, SMALL_ASTEROID_SPEED as int, ASTEROID_SPIN as int),
            e == asteroid_m_spec(position, e.physics->0),
    {
        Self::asteroid_m_with(position, Physics::random(SMALL_ASTEROID_SPEED, ASTEROID_SPIN))
    }

    /// A large asteroid with random velocity and spin. When it collides it
    /// breaks into two medium ones and a cloud of debris.
    pub fn make_asteroid_l(position: WorldPosition) -> (e: Entity)
        ensures
            e.physics is Some,
            is_random_physics(e.physics->0, LARGE_ASTEROID_SPEED as int, ASTEROID_SPIN as int),
            e == asteroid_l_spec(position, e.physics->0),
    {
        Self::asteroid_l_with(position, Physics::random(LARGE_ASTEROID_SPEED, ASTEROID_SPIN))
    }

    /// The spaceship, turned by `rotation_angle` degrees: steered by the
    /// player, three points of health.
    pub fn make_spaceship(position: WorldPosition, rotation_angle: i64) -> (e: Entity)
        ensures
            e == spaceship_spec(position, rotation_angle),
    {
        Entity {
            name: "Spaceship",
            position,
            rotation: Rotation::from_angle_z(rotation_angle),
            entered_world: false,
            physics: Some(
                Physics {
                    linear_speed: (0, 0),
                    max_linear_speed: SPACESHIP_MAX_SPEED,
                    angular_speed: Rotation::zero(),
                },
            ),
            shape: Some(Shape::Circle { origin: position.to_zero(), radius: LARGE_RADIUS }),
            light: Some(Light { color: (1000, 700, 300), radius: 30_000, z: 15_000 }),
            collision: Some(Collision { on_collision: OnCollision::Spaceship }),
            control: Some(Control::enabled()),
            health: Some(Health { level: SPACESHIP_HEALTH }),
            lifetime: None,
            renderable: None,
        }
    }

    /// One component of a laser's velocity.
    fn laser_component(direction: i64, relative: i64) -> (r: i64)
        ensures
            r == sat_i64(div_trunc(direction * LASER_SPEED, ONE as int) + relative),
    {
        proof {
            lemma_mul_bounds(direction as int, LASER_SPEED as int, 0x8000_0000_0000_0000, LASER_SPEED as int);
            crate::arith::lemma_div_trunc_bounds(direction * LASER_SPEED, ONE as int);
        }
        let along = div_toward_zero((direction as i128) * (LASER_SPEED as i128), ONE as i128);
        saturate(along + relative as i128)
    }

    /// A laser: flies along `rotation`, faster by [`LASER_SPEED`] than the
    /// entity that fired it, and lives one second.
    pub fn make_laser(position: WorldPosition, rotation: Rotation, relative_speed: (i64, i64)) -> (e: Entity)
        ensures
            e == laser_spec(position, rotation, relative_speed),
    {
        let direction = rotation.forward();
        Entity {
            name: "Laser",
            position,
            rotation,
            entered_world: false,
            physics: Some(
                Physics {
                    linear_speed: (
                        Self::laser_component(direction.0, relative_speed.0),
                        Self::laser_component(direction.1, relative_speed.1),
                    ),
                    max_linear_speed: LASER_MAX_SPEED,
                    angular_speed: Rotation::zero(),
                },
            ),
            lifetime: Some(Lifetime { dies_after: LASER_LIFETIME }),
            shape: Some(Shape::Circle { origin: position.to_zero(), radius: SMALL_RADIUS }),
            light: Some(Light { color: (1000, 700, 300), radius: 10_000, z: 0 }),
            collision: Some(Collision { on_collision: OnCollision::Laser }),
            control: None,
            health: None,
            renderable: None,
        }
    }

    /// A cloud of debris: nothing collides with it, nothing moves it, and it
    /// is gone after half a second.
    pub fn make_debris(position: WorldPosition) -> (e: Entity)
        ensures
            e == debris_spec(position),
    {
        Entity {
            name: "Debris",
            position,
            rotation: Rotation::identity(),
            entered_world: false,
            shape: None,
            physics: None,
            collision: None,
            control: None,
            health: None,
            lifetime: Some(Lifetime { dies_after: DEBRIS_LIFETIME }),
            light: None,
            renderable: None,
        }
    }
}

} // verus!
