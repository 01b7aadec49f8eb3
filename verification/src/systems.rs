//! The systems that advance the game by one tick: control, physics,
//! lifetime, and the upkeep of the asteroid population. The collision
//! system stands with the collision behaviors.

use std::time::Instant;
use vstd::prelude::*;
use crate::arith::{clamp, div_trunc, isqrt, isqrt_spec, lemma_isqrt_spec, lemma_mul_bounds, sat_i64, wide_mul};
use crate::components::{is_random_physics, Physics};
use crate::entity::{
    aged, asteroid_l_spec, controlled, expires, fires, laser_spec, lemma_speed_length, physics_step,
    spaceship_spec, Entity, Input, ASTEROID_SPIN, LARGE_ASTEROID_SPEED, LARGE_RADIUS,
};
use crate::factory::{rendered, EntityFactory, MissingMesh};
use crate::gamestate::GameState;
use crate::geometry::contains_point_spec;
use crate::random::{random_flag, random_in_range};
use crate::registry::{asteroids_in, pushed, pushed_all, Slots};
use crate::resolve::{collisions_resolved, Registry};
use crate::resource::Resources;
use crate::world::{
    new_position_spec, world_rect_spec, world_size_spec, World, WorldPosition, COORD_LIMIT, EXTENT_LIMIT,
};

verus! {

/// Below this number of asteroids a new one is sent in.
pub const MIN_ASTEROIDS: usize = 3;

/// Every entity after one tick of input.
pub open spec fn controlled_slots(slots: Slots, input: Input, dtime: u64) -> Slots {
    Seq::new(
        slots.len(),
        |i: int|
            match slots[i] {
                Some(e) => Some(controlled(e, input, dtime)),
                None => None,
            },
    )
}

/// The laser that a firing entity sends off: from where the entity is,
/// along its orientation after the turn, as fast as the entity after thrust
/// and [`crate::entity::LASER_SPEED`] more.
pub open spec fn laser_of(e: Entity, factory: EntityFactory, input: Input, dtime: u64) -> Entity {
    let after = controlled(e, input, dtime);
    rendered(laser_spec(e.position, after.rotation, after.physics->0.linear_speed), factory.laser)
}

/// The lasers of the firing entities in the slots below `n`, in the order of
/// the slots.
pub open spec fn fired_lasers(
    slots: Slots,
    factory: EntityFactory,
    input: Input,
    dtime: u64,
    n: int,
) -> Seq<Entity>
    decreases n,
{
    if n <= 0 {
        Seq::empty()
    } else {
        let earlier = fired_lasers(slots, factory, input, dtime, n - 1);
        match slots[n - 1] {
            Some(e) => if fires(e, input, dtime) {
                earlier.push(laser_of(e, factory, input, dtime))
            } else {
                earlier
            },
            None => earlier,
        }
    }
}

/// The registry after the control system: every entity has taken its input,
/// then the lasers fired in this tick are pushed.
pub open spec fn control_spec(
    slots: Slots,
    factory: EntityFactory,
    input: Input,
    dtime: u64,
) -> Slots {
    let lasers = fired_lasers(slots, factory, input, dtime, slots.len() as int);
    pushed_all(controlled_slots(slots, input, dtime), lasers, lasers.len() as int)
}

/// The registry after the physics system: every entity has moved for
/// `dtime`.
pub open spec fn physics_spec(slots: Slots, dtime: u64) -> Slots {
    Seq::new(
        slots.len(),
        |i: int|
            match slots[i] {
                Some(e) => Some(physics_step(e, dtime)),
                None => None,
            },
    )
}

/// A slot after the lifetime system: an entity whose time is up is gone,
/// any other is older by `dtime`.
pub open spec fn lifetime_slot(slot: Option<Entity>, dtime: u64) -> Option<Entity> {
    match slot {
        Some(e) => if expires(e, dtime) {
            None
        } else {
            Some(aged(e, dtime))
        },
        None => None,
    }
}

/// The registry after the lifetime system.
pub open spec fn lifetime_spec(slots: Slots, dtime: u64) -> Slots {
    Seq::new(slots.len(), |i: int| lifetime_slot(slots[i], dtime))
}

/// Where a new asteroid appears: on the left or right edge of the world
/// (`vertical_edge`) or on its bottom or top edge, one asteroid radius
/// outside, at the place `along` picks on that edge.
pub open spec fn spawn_point(size: (int, int), along: (i64, i64), vertical_edge: bool, negative: bool) -> (
    int,
    int,
) {
    let sign: int = if negative {
        -1
    } else {
        1
    };
    if vertical_edge {
        ((size.0 / 2 + LARGE_RADIUS) * sign, along.1 - size.1 / 2)
    } else {
        (along.0 - size.0 / 2, (size.1 / 2 + LARGE_RADIUS) * sign)
    }
}

/// The velocity of length `|speed|` that points from `position` to the
/// center of the world. At the center itself the velocity stays as it is.
pub open spec fn aimed(position: (int, int), speed: (i64, i64)) -> (i64, i64) {
    let reach = isqrt_spec(position.0 * position.0 + position.1 * position.1);
    let pace = isqrt_spec(speed.0 * speed.0 + speed.1 * speed.1);
    if reach > 0 {
        (
            sat_i64(div_trunc(-position.0 * pace, reach)) as i64,
            sat_i64(div_trunc(-position.1 * pace, reach)) as i64,
        )
    } else {
        speed
    }
}

/// The large asteroid that is sent in for the given draws: it appears at
/// the spawn point, has not entered the world, and flies toward the center
/// as fast as its drawn physics say.
pub open spec fn spawned_asteroid(
    size: (int, int),
    factory: EntityFactory,
    along: (i64, i64),
    vertical_edge: bool,
    negative: bool,
    physics: Physics,
) -> Entity {
    let place = new_position_spec(size, spawn_point(size, along, vertical_edge, negative));
    let asteroid = rendered(asteroid_l_spec(WorldPosition::from_view(place), physics), factory.asteroid_l);
    Entity {
        physics: Some(Physics { linear_speed: aimed((place.x, place.y), physics.linear_speed), ..physics }),
        ..asteroid
    }
}

/// The draws are possible ones for a world of extent `size`.
pub open spec fn spawn_draws(size: (int, int), along: (i64, i64), physics: Physics) -> bool {
    &&& 0 <= along.0 < size.0
    &&& 0 <= along.1 < size.1
    &&& is_random_physics(physics, LARGE_ASTEROID_SPEED as int, ASTEROID_SPIN as int)
}

/// `e` is an asteroid that can be sent into a world of extent `size`.
pub open spec fn is_spawn(size: (int, int), factory: EntityFactory, e: Entity) -> bool {
    exists|along: (i64, i64), vertical_edge: bool, negative: bool, physics: Physics|
        spawn_draws(size, along, physics) && e == #[trigger] spawned_asteroid(
            size,
            factory,
            along,
            vertical_edge,
            negative,
            physics,
        )
}

/// `after` is `before` with one new asteroid sent in.
pub open spec fn asteroid_sent(size: (int, int), factory: EntityFactory, before: Slots, after: Slots) -> bool {
    exists|e: Entity| is_spawn(size, factory, e) && after == #[trigger] pushed(before, e)
}

/// The upkeep of the asteroid population: if fewer than [`MIN_ASTEROIDS`]
/// are left, exactly one new asteroid is sent in; otherwise nothing
/// changes.
pub open spec fn population_kept(size: (int, int), factory: EntityFactory, before: Slots, after: Slots) -> bool {
    if asteroids_in(before) < MIN_ASTEROIDS {
        asteroid_sent(size, factory, before, after)
    } else {
        after == before
    }
}

/// The registry at the start of a game: the spaceship at the center, as it
/// was built, and three asteroids sent in.
pub open spec fn game_started(size: (int, int), factory: EntityFactory, slots: Slots) -> bool {
    let ship = rendered(
        spaceship_spec(WorldPosition::from_view(new_position_spec(size, (0, 0))), 0),
        factory.spaceship,
    );
    exists|first: Slots, second: Slots|
        {
            &&& #[trigger] asteroid_sent(size, factory, seq![Some(ship)], first)
            &&& #[trigger] asteroid_sent(size, factory, first, second)
            &&& asteroid_sent(size, factory, second, slots)
        }
}

/// `after` is a possible result of one tick on `before`: control, physics,
/// collisions, lifetime and the upkeep of the population, in this order.
pub open spec fn ticked(
    before: Registry,
    size: (int, int),
    factory: EntityFactory,
    input: Input,
    dtime: u64,
    after: Registry,
) -> bool {
    let moved = physics_spec(control_spec(before.slots, factory, input, dtime), dtime);
    exists|collided: Registry|
        {
            &&& #[trigger] collisions_resolved(Registry { slots: moved, score: before.score }, factory, collided)
            &&& population_kept(size, factory, lifetime_spec(collided.slots, dtime), after.slots)
            &&& after.score == collided.score
        }
}

/// A new asteroid appears outside the visible rectangle, under the name of
/// a large asteroid, and has not entered the world.
pub proof fn law_spawn_outside(
    size: (int, int),
    factory: EntityFactory,
    along: (i64, i64),
    vertical_edge: bool,
    negative: bool,
    physics: Physics,
)
    requires
        0 < size.0 <= EXTENT_LIMIT,
        0 < size.1 <= EXTENT_LIMIT,
        0 <= along.0 < size.0,
        0 <= along.1 < size.1,
    ensures
        ({
            let e = spawned_asteroid(size, factory, along, vertical_edge, negative, physics);
            &&& e.name == "Asteroid_L"
            &&& !e.entered_world
            &&& e.position@ == new_position_spec(size, spawn_point(size, along, vertical_edge, negative))
            &&& !contains_point_spec(world_rect_spec(size), (e.position@.x, e.position@.y))
        }),
{
    let place = new_position_spec(size, spawn_point(size, along, vertical_edge, negative));
    WorldPosition::lemma_from_view(place);
    let edge_x = size.0 / 2 + LARGE_RADIUS;
    let edge_y = size.1 / 2 + LARGE_RADIUS;
    assert(edge_x * 1 == edge_x && edge_x * (-1) == -edge_x) by (nonlinear_arith);
    assert(edge_y * 1 == edge_y && edge_y * (-1) == -edge_y) by (nonlinear_arith);
}

impl GameState {
    /// The control system for the time since the last tick: every entity
    /// that input steers takes its thrust and turn; those that fire send off
    /// a laser.
    pub fn control_system(&mut self, input: &Input) -> (next: &mut Self)
        ensures
            exists|dtime: u64|
                next.entities@ == #[trigger] control_spec(
                    old(self).entities@,
                    old(self).entity_factory,
                    *input,
                    dtime,
                ),
            next.score == old(self).score,
            next.same_setting(old(self)),
            *final(self) == *final(next),
    {
        let dtime = self.delta_time();
        self.control_tick(input, dtime)
    }

    /// The control system for a tick of `dtime` nanoseconds.
    pub fn control_tick(&mut self, input: &Input, dtime: u64) -> (next: &mut Self)
        ensures
            next.entities@ == control_spec(old(self).entities@, old(self).entity_factory, *input, dtime),
            next.score == old(self).score,
            next.same_setting(old(self)),
            *final(self) == *final(next),
    {
        let ghost before = self.entities@;
        let ghost factory = self.entity_factory;
        let mut to_spawn: Vec<Entity> = Vec::new();
        let n = self.entities.len();
        let mut id: usize = 0;
        while id < n
            invariant
                id <= n,
                n == before.len(),
                self.entities@.len() == n,
                forall|k: int| 0 <= k < id ==> self.entities@[k] == controlled_slots(before, *input, dtime)[k],
                forall|k: int| id <= k < n ==> self.entities@[k] == before[k],
                to_spawn@ == fired_lasers(before, factory, *input, dtime, id as int),
                self.score == old(self).score,
                self.same_setting(old(self)),
                factory == self.entity_factory,
            decreases n - id,
        {
            if let Some(entity) = self.entities[id] {
                let mut entity = entity;
                let position = entity.position;
                if entity.apply_control(input, dtime) {
                    if let Some(physics) = entity.physics {
                        to_spawn.push(self.entity_factory.make_laser(position, entity.rotation, physics.linear_speed));
                    }
                }
                self.entities[id] = Some(entity);
            }
            id = id + 1;
        }
        assert(self.entities@ =~= controlled_slots(before, *input, dtime));
        let ghost base = self.entities@;
        let count = to_spawn.len();
        let mut k: usize = 0;
        while k < count
            invariant
                k <= count,
                count == to_spawn@.len(),
                self.entities@ == pushed_all(base, to_spawn@, k as int),
                self.score == old(self).score,
                self.same_setting(old(self)),
            decreases count - k,
        {
            self.push(to_spawn[k]);
            k = k + 1;
        }
        self
    }

    /// The physics system for the time since the last tick: every entity
    /// with physics moves and spins.
    pub fn physics_system(&mut self) -> (next: &mut Self)
        ensures
            exists|dtime: u64| next.entities@ == #[trigger] physics_spec(old(self).entities@, dtime),
            next.score == old(self).score,
            next.same_setting(old(self)),
            *final(self) == *final(next),
    {
        let dtime = self.delta_time();
        self.physics_tick(dtime)
    }

    /// The physics system for a tick of `dtime` nanoseconds.
    pub fn physics_tick(&mut self, dtime: u64) -> (next: &mut Self)
        ensures
            next.entities@ == physics_spec(old(self).entities@, dtime),
            next.score == old(self).score,
            next.same_setting(old(self)),
            *final(self) == *final(next),
    {
        let ghost before = self.entities@;
        let n = self.entities.len();
        let mut id: usize = 0;
        while id < n
            invariant
                id <= n,
                n == before.len(),
                self.entities@.len() == n,
                forall|k: int| 0 <= k < id ==> self.entities@[k] == physics_spec(before, dtime)[k],
                forall|k: int| id <= k < n ==> self.entities@[k] == before[k],
                self.score == old(self).score,
                self.same_setting(old(self)),
            decreases n - id,
        {
            if let Some(entity) = self.entities[id] {
                let mut entity = entity;
                entity.update_physics(dtime);
                self.entities[id] = Some(entity);
            }
            id = id + 1;
        }
        assert(self.entities@ =~= physics_spec(before, dtime));
        self
    }

    /// The lifetime system for the time since the last tick: every
    /// lifetime goes down by that time; the entities whose lifetime does not
    /// reach that far are killed once all others are aged.
    pub fn lifetime_system(&mut self) -> (next: &mut Self)
        ensures
            exists|dtime: u64| next.entities@ == #[trigger] lifetime_spec(old(self).entities@, dtime),
            next.score == old(self).score,
            next.same_setting(old(self)),
            *final(self) == *final(next),
    {
        let dtime = self.delta_time();
        self.lifetime_tick(dtime)
    }

    /// The lifetime system for a tick of `dtime` nanoseconds.
    pub fn lifetime_tick(&mut self, dtime: u64) -> (next: &mut Self)
        ensures
            next.entities@ == lifetime_spec(old(self).entities@, dtime),
            next.score == old(self).score,
            next.same_setting(old(self)),
            *final(self) == *final(next),
    {
        let ghost before = self.entities@;
        let mut to_kill: Vec<usize> = Vec::new();
        let n = self.entities.len();
        let mut id: usize = 0;
        while id < n
            invariant
                id <= n,
                n == before.len(),
                self.entities@.len() == n,
                forall|k: int|
                    0 <= k < id ==> self.entities@[k] == match before[k] {
                        Some(e) => Some(aged(e, dtime)),
                        None => None,
                    },
                forall|k: int| id <= k < n ==> self.entities@[k] == before[k],
                forall|q: int| 0 <= q < to_kill@.len() ==> {
                    &&& (#[trigger] to_kill@[q]) < id
                    &&& before[to_kill@[q] as int] is Some
                    &&& expires(before[to_kill@[q] as int]->0, dtime)
                },
                forall|k: int|
                    0 <= k < id && before[k] is Some && expires(before[k]->0, dtime) ==> to_kill@.contains(
                        k as usize,
                    ),
                self.score == old(self).score,
                self.same_setting(old(self)),
            decreases n - id,
        {
            if let Some(entity) = self.entities[id] {
                let mut entity = entity;
                let ghost listed = to_kill@;
                if entity.age(dtime) {
                    to_kill.push(id);
                    assert(to_kill@[listed.len() as int] == id);
                }
                assert forall|k: int|
                    0 <= k < id && before[k] is Some && expires(before[k]->0, dtime) implies to_kill@.contains(
                    k as usize,
                ) by {
                    let q = choose|q: int| 0 <= q < listed.len() && listed[q] == k as usize;
                    assert(to_kill@[q] == k as usize);
                }
                self.entities[id] = Some(entity);
            }
            id = id + 1;
        }
        let ghost aged_slots = self.entities@;
        let count = to_kill.len();
        let mut k: usize = 0;
        while k < count
            invariant
                k <= count,
                count == to_kill@.len(),
                n == before.len(),
                self.entities@.len() == n,
                aged_slots.len() == n,
                forall|q: int| 0 <= q < to_kill@.len() ==> {
                    &&& (#[trigger] to_kill@[q]) < n
                    &&& before[to_kill@[q] as int] is Some
                    &&& expires(before[to_kill@[q] as int]->0, dtime)
                },
                forall|j: int|
                    0 <= j < n ==> self.entities@[j] == if exists|q: int| 0 <= q < k && to_kill@[q] == j {
                        None
                    } else {
                        aged_slots[j]
                    },
                self.score == old(self).score,
                self.same_setting(old(self)),
            decreases count - k,
        {
            let ghost previous = self.entities@;
            self.kill(to_kill[k]);
            assert forall|j: int| 0 <= j < n implies self.entities@[j] == if exists|q: int|
                0 <= q < k + 1 && to_kill@[q] == j {
                None
            } else {
                aged_slots[j]
            } by {
                if j == to_kill@[k as int] {
                    assert(0 <= k < k + 1 && to_kill@[k as int] == j);
                } else if exists|q: int| 0 <= q < k && to_kill@[q] == j {
                    let q = choose|q: int| 0 <= q < k && to_kill@[q] == j;
                    assert(0 <= q < k + 1 && to_kill@[q] == j);
                } else {
                    assert(self.entities@[j] == previous[j]);
                }
            }
            k = k + 1;
        }
        assert forall|j: int| 0 <= j < n implies self.entities@[j] == lifetime_spec(before, dtime)[j] by {
            if before[j] is Some && expires(before[j]->0, dtime) {
                assert(to_kill@.contains(j as usize));
                let q = choose|q: int| 0 <= q < to_kill@.len() && to_kill@[q] == j as usize;
                assert(0 <= q < k && to_kill@[q] == j);
            } else {
                if exists|q: int| 0 <= q < k && to_kill@[q] == j {
                    let q = choose|q: int| 0 <= q < k && to_kill@[q] == j;
                    assert(expires(before[to_kill@[q] as int]->0, dtime));
                }
            }
        }
        assert(self.entities@ =~= lifetime_spec(before, dtime));
        self
    }

    /// One coordinate of the velocity that points to the center.
    fn aim(component: i64, pace: u64, reach: u64) -> (r: i64)
        requires
            -COORD_LIMIT <= component <= COORD_LIMIT,
            pace <= 13043817825332782212,
            0 < reach <= 13043817825332782212,
        ensures
            r == sat_i64(div_trunc(-component * pace, reach as int)),
    {
        Entity::rescale_speed(-component, pace as i128, reach)
    }

    /// Sends in the large asteroid for the given draws: `along` picks the
    /// place on the edge, `vertical_edge` and `negative` the edge, and
    /// `physics` the spin and the speed.
    pub fn spawn_asteroid_with(&mut self, along: (i64, i64), vertical_edge: bool, negative: bool, physics: Physics)
        ensures
            final(self).entities@ == pushed(
                old(self).entities@,
                spawned_asteroid(
                    old(self).world.spec_size(),
                    old(self).entity_factory,
                    along,
                    vertical_edge,
                    negative,
                    physics,
                ),
            ),
            final(self).score == old(self).score,
            final(self).same_setting(old(self)),
    {
        let (w, h) = self.world.size();
        let sign: i64 = if negative {
            -1
        } else {
            1
        };
        let point: (i128, i128) = if vertical_edge {
            (((w / 2 + LARGE_RADIUS) * sign) as i128, along.1 as i128 - (h / 2) as i128)
        } else {
            (along.0 as i128 - (w / 2) as i128, ((h / 2 + LARGE_RADIUS) * sign) as i128)
        };
        let place = (clamp(point.0, -COORD_LIMIT, COORD_LIMIT), clamp(point.1, -COORD_LIMIT, COORD_LIMIT));
        let position = self.world.new_position(place);
        proof {
            let size = self.world.spec_size();
            assert(position@ == new_position_spec(size, spawn_point(size, along, vertical_edge, negative)));
            WorldPosition::lemma_view_injective(position, position);
        }
        let mut asteroid = Entity::asteroid_l_with(position, physics);
        asteroid.renderable = self.entity_factory.asteroid_l;
        let speed = physics.linear_speed;
        let xx = wide_mul(place.0, place.0);
        let yy = wide_mul(place.1, place.1);
        let vv = wide_mul(speed.0, speed.0);
        let ww = wide_mul(speed.1, speed.1);
        proof {
            lemma_mul_bounds(place.0 as int, place.0 as int, COORD_LIMIT as int, COORD_LIMIT as int);
            lemma_mul_bounds(place.1 as int, place.1 as int, COORD_LIMIT as int, COORD_LIMIT as int);
            lemma_mul_bounds(speed.0 as int, speed.0 as int, 0x8000_0000_0000_0000, 0x8000_0000_0000_0000);
            lemma_mul_bounds(speed.1 as int, speed.1 as int, 0x8000_0000_0000_0000, 0x8000_0000_0000_0000);
            assert(xx >= 0 && yy >= 0 && vv >= 0 && ww >= 0) by (nonlinear_arith)
                requires
                    xx == place.0 * place.0,
                    yy == place.1 * place.1,
                    vv == speed.0 * speed.0,
                    ww == speed.1 * speed.1,
            ;
        }
        let reach = isqrt(xx as u128 + yy as u128);
        let pace = isqrt(vv as u128 + ww as u128);
        proof {
            lemma_isqrt_spec(xx + yy, reach as int);
            lemma_isqrt_spec(vv + ww, pace as int);
            lemma_speed_length(speed, pace as int);
            lemma_speed_length(place, reach as int);
        }
        if reach > 0 {
            asteroid.physics = Some(
                Physics {
                    linear_speed: (Self::aim(place.0, pace, reach), Self::aim(place.1, pace, reach)),
                    max_linear_speed: physics.max_linear_speed,
                    angular_speed: physics.angular_speed,
                },
            );
        }
        self.push(asteroid);
    }

    /// Sends in a new large asteroid: it appears at a random place just
    /// outside the world and flies toward the center.
    pub fn spawn_asteroid(&mut self)
        ensures
            asteroid_sent(
                old(self).world.spec_size(),
                old(self).entity_factory,
                old(self).entities@,
                final(self).entities@,
            ),
            final(self).score == old(self).score,
            final(self).same_setting(old(self)),
    {
        let (w, h) = self.world.size();
        let along = (random_in_range(0, w), random_in_range(0, h));
        let vertical_edge = random_flag();
        let negative = random_flag();
        let physics = Physics::random(LARGE_ASTEROID_SPEED, ASTEROID_SPIN);
        let ghost size = self.world.spec_size();
        let ghost factory = self.entity_factory;
        let ghost before = self.entities@;
        self.spawn_asteroid_with(along, vertical_edge, negative, physics);
        proof {
            let e = spawned_asteroid(size, factory, along, vertical_edge, negative, physics);
            assert(spawn_draws(size, along, physics));
            assert(is_spawn(size, factory, e));
            assert(self.entities@ == pushed(before, e));
        }
    }

    /// The upkeep of the asteroid population: sends in one new asteroid if
    /// fewer than [`MIN_ASTEROIDS`] are left.
    pub fn asteroids_spawn_system(&mut self) -> (next: &mut Self)
        ensures
            population_kept(
                old(self).world.spec_size(),
                old(self).entity_factory,
                old(self).entities@,
                next.entities@,
            ),
            next.score == old(self).score,
            next.same_setting(old(self)),
            *final(self) == *final(next),
    {
        if self.asteroids_count() < MIN_ASTEROIDS {
            self.spawn_asteroid();
        }
        self
    }

    /// A new game with the given factory: the spaceship at the center of
    /// the world for a surface of `width` by `height` pixels, and three
    /// asteroids on their way in.
    pub fn with_factory(width: u32, height: u32, entity_factory: EntityFactory) -> (game: GameState)
        requires
            width > 0,
            height > 0,
        ensures
            game.world.spec_size() == world_size_spec(width as int, height as int),
            game.entity_factory == entity_factory,
            game.score == 0,
            game_started(game.world.spec_size(), entity_factory, game.entities@),
    {
        let mut game = GameState {
            entities: Vec::new(),
            world: World::init(width, height),
            last_update: Instant::now(),
            score: 0,
            entity_factory,
        };
        let ghost size = game.world.spec_size();
        let spaceship = game.entity_factory.make_spaceship(game.world.new_position((0, 0)), 0);
        game.push(spaceship);
        assert(game.entities@ =~= seq![Some(spaceship)]);
        game.spawn_asteroid();
        let ghost first = game.entities@;
        game.spawn_asteroid();
        let ghost second = game.entities@;
        game.spawn_asteroid();
        proof {
            assert(asteroid_sent(size, entity_factory, seq![Some(spaceship)], first));
            assert(asteroid_sent(size, entity_factory, first, second));
            assert(asteroid_sent(size, entity_factory, second, game.entities@));
        }
        game
    }

    /// A new game drawn with the given assets. Fails if the mesh of one of
    /// the recipes is not among them.
    pub fn new_game(width: u32, height: u32, resources: &Resources) -> (r: Result<GameState, MissingMesh>)
        requires
            width > 0,
            height > 0,
        ensures
            match r {
                Ok(game) => {
                    &&& crate::factory::first_missing(resources.meshes@) is None
                    &&& game.entity_factory == crate::factory::bound_factory(resources.meshes@)
                    &&& game.world.spec_size() == world_size_spec(width as int, height as int)
                    &&& game.score == 0
                    &&& game_started(game.world.spec_size(), game.entity_factory, game.entities@)
                },
                Err(missing) => crate::factory::first_missing(resources.meshes@) == Some(missing.name@),
            },
    {
        match EntityFactory::new(resources) {
            Ok(factory) => Ok(Self::with_factory(width, height, factory)),
            Err(missing) => Err(missing),
        }
    }

    /// One tick of `dtime` nanoseconds: control, physics, collisions,
    /// lifetime, and the upkeep of the asteroid population, in this order.
    pub fn update(&mut self, input: &Input, dtime: u64)
        ensures
            ticked(
                old(self).registry(),
                old(self).world.spec_size(),
                old(self).entity_factory,
                *input,
                dtime,
                final(self).registry(),
            ),
            final(self).same_setting(old(self)),
    {
        self.control_tick(input, dtime);
        self.physics_tick(dtime);
        let ghost moved = self.registry();
        self.collision_system();
        let ghost collided = self.registry();
        self.lifetime_tick(dtime);
        self.asteroids_spawn_system();
        proof {
            let before = old(self).registry();
            let factory = old(self).entity_factory;
            let expected = Registry {
                slots: physics_spec(control_spec(before.slots, factory, *input, dtime), dtime),
                score: before.score,
            };
            assert(moved == expected);
            assert(collisions_resolved(expected, factory, collided));
        }
    }
}

} // verus!
