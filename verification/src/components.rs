//! The optional parts of an entity. Each is plain data.

use vstd::prelude::*;
use crate::random::random_in_range;
use crate::rotation::{from_axis_angle_spec, zero_spec, Rotation, ONE};
use crate::shaders::ShaderName;

verus! {

/// Nanoseconds in a millisecond.
pub const NANOS_PER_MILLI: u64 = 1_000_000;

/// Nanoseconds in a second.
pub const NANOS_PER_SEC: u64 = 1_000_000_000;

/// The speed limit of an entity that does not set its own: 30 world units
/// per second.
pub const DEFAULT_MAX_SPEED: i64 = 30_000;

/// What an entity does when it is part of a collision group.
#[derive(Clone, Copy, Debug, PartialEq, Eq, Structural)]
pub enum OnCollision {
    /// Breaks into two medium asteroids and a cloud of debris, then dies.
    AsteroidL,
    /// Breaks into two small asteroids, then dies.
    AsteroidM,
    /// Dies.
    AsteroidS,
    /// Takes one point of damage for every asteroid in the group, and dies
    /// when no health is left.
    Spaceship,
    /// Scores and dies if an asteroid is in the group.
    Laser,
}

/// The collision behavior of an entity. The shape that collides is kept on
/// the entity itself.
#[derive(Clone, Copy, Debug, PartialEq, Eq, Structural)]
pub struct Collision {
    pub on_collision: OnCollision,
}

/// Player control: whether input steers the entity, and the time in
/// nanoseconds until its weapon can fire again.
#[derive(Clone, Copy, Debug, PartialEq, Eq, Structural)]
pub struct Control {
    pub enabled: bool,
    pub weapon_cooldown: u64,
}

impl Control {
    /// Control that is switched on, with the weapon ready.
    pub fn enabled() -> (c: Control)
        ensures
            c == (Control { enabled: true, weapon_cooldown: 0 }),
    {
        Control { enabled: true, weapon_cooldown: 0 }
    }
}

/// Motion: velocity in lengths per second, the speed limit, and the
/// rotation applied per second.
#[derive(Clone, Copy, Debug)]
pub struct Physics {
    pub linear_speed: (i64, i64),
    pub max_linear_speed: i64,
    pub angular_speed: Rotation,
}

/// The physics made from drawn numbers: the velocity as drawn, the default
/// speed limit, and as spin the rotation by the drawn angle, in degrees,
/// about the drawn axis.
pub open spec fn physics_from_samples(linear: (i64, i64), axis: (i64, i64, i64), angle: i64) -> Physics {
    Physics {
        linear_speed: linear,
        max_linear_speed: DEFAULT_MAX_SPEED,
        angular_speed: Rotation::from_view(
            from_axis_angle_spec((axis.0 as int, axis.1 as int, axis.2 as int), angle as int),
        ),
    }
}

/// The numbers are a possible draw for the given limits: each velocity
/// component in `[-max_linear_speed, max_linear_speed)`, each component of
/// the axis in `[0, ONE)`, the angle in `[0, max_angular_speed)`.
pub open spec fn samples_in_range(
    linear: (i64, i64),
    axis: (i64, i64, i64),
    angle: i64,
    max_linear_speed: int,
    max_angular_speed: int,
) -> bool {
    &&& -max_linear_speed <= linear.0 < max_linear_speed
    &&& -max_linear_speed <= linear.1 < max_linear_speed
    &&& 0 <= axis.0 < ONE
    &&& 0 <= axis.1 < ONE
    &&& 0 <= axis.2 < ONE
    &&& 0 <= angle < max_angular_speed
}

/// `p` is a possible result of [`Physics::random`] for the given limits.
pub open spec fn is_random_physics(p: Physics, max_linear_speed: int, max_angular_speed: int) -> bool {
    exists|linear: (i64, i64), axis: (i64, i64, i64), angle: i64|
        samples_in_range(linear, axis, angle, max_linear_speed, max_angular_speed) && p
            == #[trigger] physics_from_samples(linear, axis, angle)
}

/// Physics at rest: no velocity, the default speed limit, no spin.
pub open spec fn default_physics() -> Physics {
    Physics {
        linear_speed: (0, 0),
        max_linear_speed: DEFAULT_MAX_SPEED,
        angular_speed: Rotation::from_view(zero_spec()),
    }
}

impl Physics {
    /// Physics from numbers already drawn: the velocity, and the axis and
    /// the angle in degrees of the rotation made per second.
    pub fn from_samples(linear: (i64, i64), axis: (i64, i64, i64), angle: i64) -> (p: Physics)
        ensures
            p == physics_from_samples(linear, axis, angle),
    {
        Physics {
            linear_speed: linear,
            max_linear_speed: DEFAULT_MAX_SPEED,
            angular_speed: Rotation::from_axis_angle(axis, angle),
        }
    }

    /// Physics with a random velocity and a random spin: each velocity
    /// component below `max_linear_speed` in magnitude, the spin a rotation
    /// by less than `max_angular_speed` degrees per second about a random
    /// axis. Both limits must be positive.
    pub fn random(max_linear_speed: i64, max_angular_speed: i64) -> (p: Physics)
        requires
            max_linear_speed > 0,
            max_angular_speed > 0,
        ensures
            is_random_physics(p, max_linear_speed as int, max_angular_speed as int),
    {
        let linear = (
            random_in_range(-max_linear_speed, max_linear_speed),
            random_in_range(-max_linear_speed, max_linear_speed),
        );
        let axis = (random_in_range(0, ONE), random_in_range(0, ONE), random_in_range(0, ONE));
        let angle = random_in_range(0, max_angular_speed);
        let p = Self::from_samples(linear, axis, angle);
        assert(samples_in_range(linear, axis, angle, max_linear_speed as int, max_angular_speed as int));
        p
    }
}

impl Default for Physics {
    fn default() -> (p: Physics)
        ensures
            p == default_physics(),
    {
        Physics { linear_speed: (0, 0), max_linear_speed: DEFAULT_MAX_SPEED, angular_speed: Rotation::zero() }
    }
}

/// Remaining health.
#[derive(Clone, Copy, Debug, PartialEq, Eq, Structural)]
pub struct Health {
    pub level: usize,
}

/// The health level left after `damage`: never below zero.
pub open spec fn damaged_level(level: int, damage: int) -> int {
    if damage >= level {
        0
    } else {
        level - damage
    }
}

impl Health {
    /// Takes `damage` points off the level. Damage beyond the level leaves
    /// the level at zero.
    pub fn deal_damage(&mut self, damage: usize)
        ensures
            final(self).level == damaged_level(old(self).level as int, damage as int),
            damage > old(self).level ==> final(self).level == 0,
    {
        if damage >= self.level {
            self.level = 0;
        } else {
            self.level = self.level - damage;
        }
    }
}

/// The time in nanoseconds an entity has left to live.
#[derive(Clone, Copy, Debug, PartialEq, Eq, Structural)]
pub struct Lifetime {
    pub dies_after: u64,
}

/// A light carried by an entity: color in thousandths per channel, radius,
/// and height above the plane.
#[derive(Clone, Copy, Debug, PartialEq, Eq)]
pub struct Light {
    pub color: (i64, i64, i64),
    pub radius: i64,
    pub z: i64,
}

/// A light placed in the world, as the renderer takes it.
#[derive(Clone, Copy, Debug, PartialEq, Eq)]
pub struct LightUniform {
    pub position: (i64, i64, i64),
    pub color: (i64, i64, i64),
    pub radius: i64,
}

impl Light {
    /// The light as it shines from `position`.
    pub open spec fn uniform_spec(self, position: (i64, i64)) -> LightUniform {
        LightUniform { position: (position.0, position.1, self.z), color: self.color, radius: self.radius }
    }

    /// The light as it shines from `position`.
    pub fn uniform(&self, position: (i64, i64)) -> (u: LightUniform)
        ensures
            u == self.uniform_spec(position),
    {
        LightUniform { position: (position.0, position.1, self.z), color: self.color, radius: self.radius }
    }
}

/// What the renderer draws an entity with. The core only passes it on.
#[derive(Clone, Copy, Debug, PartialEq, Eq, Structural)]
pub struct Renderable {
    pub shader: ShaderName,
    pub mesh: usize,
    pub material: usize,
}

} // verus!
