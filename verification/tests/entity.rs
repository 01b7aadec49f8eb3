use asteroids::components::{
    Collision, Control, Health, Lifetime, Light, LightUniform, OnCollision, Physics, Renderable,
    DEFAULT_MAX_SPEED, NANOS_PER_MILLI, NANOS_PER_SEC,
};
use asteroids::entity::{
    Entity, Input, Instance, ASTEROID_SPIN, DEBRIS_LIFETIME, LARGE_ASTEROID_SPEED, LASER_LIFETIME,
    LASER_SPEED, SMALL_ASTEROID_SPEED, THRUST, WEAPON_COOLDOWN,
};
use asteroids::factory::EntityFactory;
use asteroids::geometry::Shape;
use asteroids::resource::{Material, Mesh, Resources};
use asteroids::rotation::{Rotation, ONE};
use asteroids::shaders::{Shader, ShaderName, Shaders};
use asteroids::world::{World, WorldPosition, UNIT};

const SECOND: u64 = NANOS_PER_SEC;

fn at(x: i64, y: i64) -> WorldPosition {
    World::init(1, 1).new_position((x * UNIT, y * UNIT))
}

fn idle() -> Input {
    Input {
        is_forward_pressed: false,
        is_left_pressed: false,
        is_right_pressed: false,
        is_fire_pressed: false,
        is_spawn_pressed: false,
    }
}

fn mover(position: WorldPosition, speed: (i64, i64), max: i64) -> Entity {
    let mut e = Entity::new("Mover", position);
    e.physics = Some(Physics { linear_speed: speed, max_linear_speed: max, angular_speed: Rotation::zero() });
    e
}

#[test]
fn health_never_goes_below_zero() {
    let mut health = Health { level: 3 };
    health.deal_damage(2);
    assert_eq!(health.level, 1);
    health.deal_damage(5);
    assert_eq!(health.level, 0);
    health.deal_damage(usize::MAX);
    assert_eq!(health.level, 0);
    let mut exact = Health { level: 4 };
    exact.deal_damage(4);
    assert_eq!(exact.level, 0);
    let mut untouched = Health { level: 4 };
    untouched.deal_damage(0);
    assert_eq!(untouched.level, 4);
}

#[test]
fn control_starts_enabled_and_ready() {
    assert_eq!(Control::enabled(), Control { enabled: true, weapon_cooldown: 0 });
}

#[test]
fn default_physics_is_at_rest() {
    let p = Physics::default();
    assert_eq!(p.linear_speed, (0, 0));
    assert_eq!(p.max_linear_speed, DEFAULT_MAX_SPEED);
    assert_eq!(p.angular_speed.components(), (0, 0, 0, 0));
}

#[test]
fn physics_from_samples_keeps_the_draws() {
    let p = Physics::from_samples((-7, 9), (ONE, 0, ONE / 2), 1);
    assert_eq!(p.linear_speed, (-7, 9));
    assert_eq!(p.max_linear_speed, DEFAULT_MAX_SPEED);
    assert_eq!(p.angular_speed.components(), (999_962, 8_727, 0, 4_363));
    assert_eq!(Physics::from_samples((0, 0), (5, 6, 7), 0).angular_speed.components(), (ONE, 0, 0, 0));
}

#[test]
fn random_physics_stays_within_its_limits_and_varies() {
    let mut seen = std::collections::BTreeSet::new();
    for _ in 0..200 {
        let p = Physics::random(10_000, 100);
        assert!(-10_000 <= p.linear_speed.0 && p.linear_speed.0 < 10_000);
        assert!(-10_000 <= p.linear_speed.1 && p.linear_speed.1 < 10_000);
        assert_eq!(p.max_linear_speed, DEFAULT_MAX_SPEED);
        let (w, x, y, z) = p.angular_speed.components();
        // Less than 100 degrees: the cosine of half the angle is above that
        // of 50 degrees, the sine below.
        assert!(642_000 < w && w <= ONE);
        assert!(0 <= x && x < 767_000 && 0 <= y && y < 767_000 && 0 <= z && z < 767_000);
        seen.insert((p.linear_speed, w, x, y, z));
    }
    assert!(seen.len() > 1);
    for _ in 0..20 {
        let p = Physics::random(1, 1);
        assert!(p.linear_speed.0 == -1 || p.linear_speed.0 == 0);
        assert_eq!(p.angular_speed.components(), (ONE, 0, 0, 0));
    }
}

#[test]
fn light_is_placed_at_its_height() {
    let light = Light { color: (1000, 700, 300), radius: 30 * UNIT, z: 15 * UNIT };
    assert_eq!(
        light.uniform((4, -5)),
        LightUniform { position: (4, -5, 15 * UNIT), color: (1000, 700, 300), radius: 30 * UNIT }
    );
}

#[test]
fn new_entity_has_no_components() {
    let e = Entity::new("Thing", at(3, 4));
    assert_eq!(e.name, "Thing");
    assert_eq!(e.position(), at(3, 4));
    assert!(!e.entered_world());
    assert_eq!(e.rotation.components(), (0, 0, 0, 0));
    assert!(e.shape.is_none() && e.physics.is_none() && e.collision.is_none() && e.control.is_none());
    assert!(e.health.is_none() && e.lifetime.is_none() && e.light.is_none() && e.renderable.is_none());
    let d = Entity::default();
    assert_eq!(d.name, "");
    assert_eq!(d.position(), WorldPosition::default());
}

#[test]
fn instance_is_where_the_entity_is() {
    let mut e = Entity::new("Thing", at(3, -4));
    e.rotation = Rotation::identity();
    let Instance { position, rotation } = e.to_instance();
    assert_eq!(position, (3 * UNIT, -4 * UNIT, 0));
    assert_eq!(rotation.components(), (ONE, 0, 0, 0));
}

#[test]
fn small_asteroid_recipe() {
    let e = Entity::make_asteroid_s(at(1, 2));
    assert_eq!(e.name, "Asteroid_S");
    assert_eq!(e.position(), at(1, 2));
    assert!(!e.entered_world());
    assert_eq!(e.rotation.components(), (ONE, 0, 0, 0));
    assert_eq!(e.shape, Some(Shape::Circle { origin: at(0, 0), radius: UNIT }));
    assert_eq!(e.light, Some(Light { color: (0, 300, 700), radius: 5 * UNIT, z: 5 * UNIT }));
    assert_eq!(e.collision, Some(Collision { on_collision: OnCollision::AsteroidS }));
    assert!(e.control.is_none() && e.health.is_none() && e.lifetime.is_none() && e.renderable.is_none());
    let p = e.physics.unwrap();
    assert!(p.linear_speed.0.abs() <= SMALL_ASTEROID_SPEED && p.linear_speed.1.abs() <= SMALL_ASTEROID_SPEED);
    let (w, x, y, z) = p.angular_speed.components();
    assert_eq!(ASTEROID_SPIN, 100);
    assert!(642_000 < w && w <= ONE && 0 <= x && x < 767_000 && 0 <= y && y < 767_000 && 0 <= z && z < 767_000);
}

#[test]
fn medium_and_large_asteroid_recipes() {
    let m = Entity::make_asteroid_m(at(1, 2));
    assert_eq!(m.name, "Asteroid_M");
    assert_eq!(m.shape, Some(Shape::Circle { origin: at(0, 0), radius: 3 * UNIT }));
    assert_eq!(m.light, Some(Light { color: (0, 300, 700), radius: 10 * UNIT, z: 10 * UNIT }));
    assert_eq!(m.collision, Some(Collision { on_collision: OnCollision::AsteroidM }));
    let l = Entity::make_asteroid_l(at(1, 2));
    assert_eq!(l.name, "Asteroid_L");
    assert_eq!(l.shape, Some(Shape::Circle { origin: at(0, 0), radius: 5 * UNIT }));
    assert_eq!(l.light, Some(Light { color: (0, 300, 700), radius: 15 * UNIT, z: 15 * UNIT }));
    assert_eq!(l.collision, Some(Collision { on_collision: OnCollision::AsteroidL }));
    let p = l.physics.unwrap();
    assert!(p.linear_speed.0.abs() <= LARGE_ASTEROID_SPEED && p.linear_speed.1.abs() <= LARGE_ASTEROID_SPEED);
    let given = Physics::from_samples((1, 2), (3, 4, 5), 6);
    let with = Entity::asteroid_l_with(at(0, 0), given);
    assert_eq!(with.physics.unwrap().linear_speed, (1, 2));
    assert_eq!(Entity::asteroid_m_with(at(0, 0), given).name, "Asteroid_M");
    assert_eq!(Entity::asteroid_s_with(at(0, 0), given).name, "Asteroid_S");
}

#[test]
fn spaceship_recipe() {
    let e = Entity::make_spaceship(at(0, 0), 90);
    assert_eq!(e.name, "Spaceship");
    assert_eq!(e.rotation.components(), Rotation::from_angle_z(90).components());
    assert_eq!(Entity::make_spaceship(at(0, 0), 0).rotation.components(), (ONE, 0, 0, 0));
    assert_eq!(e.health, Some(Health { level: 3 }));
    assert_eq!(e.control, Some(Control { enabled: true, weapon_cooldown: 0 }));
    assert_eq!(e.shape, Some(Shape::Circle { origin: at(0, 0), radius: 5 * UNIT }));
    assert_eq!(e.light, Some(Light { color: (1000, 700, 300), radius: 30 * UNIT, z: 15 * UNIT }));
    assert_eq!(e.collision, Some(Collision { on_collision: OnCollision::Spaceship }));
    let p = e.physics.unwrap();
    assert_eq!((p.linear_speed, p.max_linear_speed), ((0, 0), 60 * UNIT));
    assert_eq!(p.angular_speed.components(), (0, 0, 0, 0));
    assert!(e.lifetime.is_none());
}

#[test]
fn laser_recipe() {
    let e = Entity::make_laser(at(2, 3), Rotation::identity(), (1_000, -2_000));
    assert_eq!(e.name, "Laser");
    assert_eq!(e.position(), at(2, 3));
    assert_eq!(e.lifetime, Some(Lifetime { dies_after: LASER_LIFETIME }));
    assert_eq!(e.lifetime.unwrap().dies_after, SECOND);
    assert_eq!(e.shape, Some(Shape::Circle { origin: at(0, 0), radius: UNIT }));
    assert_eq!(e.light, Some(Light { color: (1000, 700, 300), radius: 10 * UNIT, z: 0 }));
    assert_eq!(e.collision, Some(Collision { on_collision: OnCollision::Laser }));
    let p = e.physics.unwrap();
    assert_eq!(p.linear_speed, (1_000, LASER_SPEED - 2_000));
    assert_eq!(p.max_linear_speed, 1000 * UNIT);
    let left = Entity::make_laser(at(0, 0), Rotation::new(707_107, 0, 0, 707_107), (0, 0));
    assert_eq!(left.physics.unwrap().linear_speed, (-LASER_SPEED, 0));
}

#[test]
fn debris_recipe() {
    let e = Entity::make_debris(at(2, 3));
    assert_eq!(e.name, "Debris");
    assert_eq!(e.lifetime, Some(Lifetime { dies_after: DEBRIS_LIFETIME }));
    assert!(e.shape.is_none() && e.physics.is_none() && e.collision.is_none() && e.light.is_none());
    assert!(e.control.is_none() && e.health.is_none());
}

#[test]
fn entity_outside_moves_freely_until_it_fits() {
    let mut e = Entity::new("Rock", at(60, 0));
    e.shape = Some(Shape::Circle { origin: at(0, 0), radius: 5 * UNIT });
    e.translate((-3 * UNIT, 0));
    assert_eq!(e.position().to_tuple(), (57 * UNIT, 0));
    assert!(!e.entered_world());
    // Straddling the border: not yet inside.
    e.translate((-12 * UNIT, 0));
    assert_eq!(e.position().to_tuple(), (45 * UNIT, 0));
    assert!(!e.entered_world());
    e.translate((-1, 0));
    assert!(e.entered_world());
    // From now on the entity wraps and stays entered.
    e.translate((10 * UNIT, 0));
    assert_eq!(e.position().to_tuple(), (-45 * UNIT - 1, 0));
    assert!(e.entered_world());
}

#[test]
fn entity_without_shape_enters_at_once() {
    let mut e = Entity::new("Cloud", at(80, 0));
    e.translate((0, 0));
    assert!(e.entered_world());
    assert_eq!(e.position().to_tuple(), (80 * UNIT, 0));
    e.translate((0, 0));
    assert_eq!(e.position().to_tuple(), (-20 * UNIT, 0));
}

#[test]
fn physics_moves_by_speed_times_time() {
    let mut e = mover(at(0, 0), (3_000, -4_000), 30_000);
    e.update_physics(SECOND);
    assert_eq!(e.position().to_tuple(), (3_000, -4_000));
    assert_eq!(e.physics.unwrap().linear_speed, (3_000, -4_000));
    e.update_physics(16 * NANOS_PER_MILLI + 999_999);
    assert_eq!(e.position().to_tuple(), (3_000 + 48, -4_000 - 64));
    e.update_physics(999_999);
    assert_eq!(e.position().to_tuple(), (3_048, -4_064));
}

#[test]
fn physics_limits_the_speed_and_keeps_the_direction() {
    let mut e = mover(at(0, 0), (30_000, 40_000), 25_000);
    e.update_physics(0);
    assert_eq!(e.physics.unwrap().linear_speed, (15_000, 20_000));
    let mut still = mover(at(0, 0), (0, 0), 25_000);
    still.update_physics(SECOND);
    assert_eq!(still.physics.unwrap().linear_speed, (0, 0));
    assert_eq!(still.position().to_tuple(), (0, 0));
    let mut extreme = mover(at(0, 0), (i64::MIN, i64::MIN), i64::MAX);
    extreme.update_physics(u64::MAX);
    assert!(extreme.physics.unwrap().linear_speed.0 < 0);
}

#[test]
fn physics_wraps_an_entered_entity() {
    let mut e = mover(at(49, 0), (2_000, 0), 30_000);
    e.update_physics(0);
    assert!(e.entered_world());
    e.update_physics(SECOND);
    assert_eq!(e.position().to_tuple(), (-49 * UNIT, 0));
}

#[test]
fn physics_spins_toward_the_angular_speed() {
    let mut e = mover(at(0, 0), (0, 0), 30_000);
    e.rotation = Rotation::identity();
    e.physics = Some(Physics {
        linear_speed: (0, 0),
        max_linear_speed: 30_000,
        angular_speed: Rotation::new(0, 0, 0, ONE),
    });
    e.update_physics(SECOND / 2);
    assert_eq!(e.rotation.components(), (707_107, 0, 0, 707_107));
    let mut without = Entity::new("Still", at(1, 1));
    without.rotation = Rotation::identity();
    without.update_physics(SECOND);
    assert_eq!(without.rotation.components(), (ONE, 0, 0, 0));
    assert_eq!(without.position(), at(1, 1));
    assert!(!without.entered_world());
}

#[test]
fn control_thrusts_along_the_orientation() {
    let mut ship = Entity::make_spaceship(at(0, 0), 0);
    let mut input = idle();
    input.is_forward_pressed = true;
    let fired = ship.apply_control(&input, SECOND);
    assert!(!fired);
    assert_eq!(ship.physics.unwrap().linear_speed, (0, THRUST));
    let fired = ship.apply_control(&input, 100 * NANOS_PER_MILLI);
    assert!(!fired);
    assert_eq!(ship.physics.unwrap().linear_speed, (0, THRUST + THRUST / 10));
}

fn close_to(r: &Rotation, degrees: f64, tolerance: f64) -> bool {
    let (w, x, y, z) = r.components();
    let half = (degrees / 2.0).to_radians();
    let one = ONE as f64;
    x == 0
        && y == 0
        && (w as f64 / one - half.cos()).abs() <= tolerance
        && (z as f64 / one - half.sin()).abs() <= tolerance
}

#[test]
fn turn_is_half_a_circle_per_second() {
    assert_eq!(Entity::turn(0).components(), (ONE, 0, 0, 0));
    assert_eq!(Entity::turn(NANOS_PER_MILLI - 1).components(), (ONE, 0, 0, 0));
    assert_eq!(Entity::turn(NANOS_PER_MILLI).components(), (999_999, 0, 0, 1_571));
    for ms in [1_u64, 2, 3, 16, 17, 33, 100, 250, 500, 999, 1000, 1500, 2000] {
        let turn = Entity::turn(ms * NANOS_PER_MILLI);
        assert!(close_to(&turn, 0.18 * ms as f64, 2e-3), "{} ms: {:?}", ms, turn.components());
    }
}

#[test]
fn control_turns_left_and_right() {
    let mut ship = Entity::make_spaceship(at(0, 0), 0);
    let mut input = idle();
    input.is_left_pressed = true;
    ship.apply_control(&input, SECOND / 2);
    assert!(close_to(&ship.rotation, 90.0, 2e-3));
    assert_eq!(ship.rotation.components(), Rotation::identity().compose(&Entity::turn(SECOND / 2)).components());
    input.is_left_pressed = false;
    input.is_right_pressed = true;
    ship.apply_control(&input, SECOND / 2);
    ship.apply_control(&input, SECOND / 2);
    assert!(close_to(&ship.rotation, -90.0, 4e-3));
    // Thrust acts along the orientation before the turn of the same tick.
    let mut other = Entity::make_spaceship(at(0, 0), 0);
    input.is_forward_pressed = true;
    other.apply_control(&input, SECOND);
    assert_eq!(other.physics.unwrap().linear_speed, (0, THRUST));
    // Both turns at once undo each other, up to rounding.
    let mut both = Entity::make_spaceship(at(0, 0), 0);
    input.is_left_pressed = true;
    both.apply_control(&input, SECOND / 4);
    assert!(close_to(&both.rotation, 0.0, 1e-5));
}

#[test]
fn control_fires_when_the_weapon_is_ready() {
    let mut ship = Entity::make_spaceship(at(0, 0), 0);
    let mut input = idle();
    input.is_fire_pressed = true;
    // No time has passed: the cooldown of zero is not below it.
    assert!(!ship.apply_control(&input, 0));
    assert!(ship.apply_control(&input, 1));
    assert_eq!(ship.control.unwrap().weapon_cooldown, WEAPON_COOLDOWN);
    assert!(!ship.apply_control(&input, WEAPON_COOLDOWN / 2));
    assert_eq!(ship.control.unwrap().weapon_cooldown, WEAPON_COOLDOWN / 2);
    assert!(!ship.apply_control(&input, WEAPON_COOLDOWN / 2));
    assert_eq!(ship.control.unwrap().weapon_cooldown, 0);
    assert!(ship.apply_control(&input, 5));
    input.is_fire_pressed = false;
    assert!(!ship.apply_control(&input, WEAPON_COOLDOWN + 1));
    assert_eq!(ship.control.unwrap().weapon_cooldown, 0);
}

#[test]
fn control_leaves_other_entities_alone() {
    let mut input = idle();
    input.is_forward_pressed = true;
    input.is_left_pressed = true;
    input.is_fire_pressed = true;
    let mut rock = Entity::asteroid_s_with(at(0, 0), Physics::from_samples((1, 2), (0, 0, 0), 0));
    assert!(!rock.apply_control(&input, SECOND));
    assert_eq!(rock.physics.unwrap().linear_speed, (1, 2));
    assert_eq!(rock.rotation.components(), (ONE, 0, 0, 0));
    let mut off = Entity::make_spaceship(at(0, 0), 0);
    off.control = Some(Control { enabled: false, weapon_cooldown: 0 });
    assert!(!off.apply_control(&input, SECOND));
    assert_eq!(off.physics.unwrap().linear_speed, (0, 0));
    assert_eq!(off.control, Some(Control { enabled: false, weapon_cooldown: 0 }));
}

#[test]
fn age_takes_time_off_the_lifetime() {
    let mut laser = Entity::make_laser(at(0, 0), Rotation::identity(), (0, 0));
    assert!(!laser.age(SECOND / 4));
    assert_eq!(laser.lifetime, Some(Lifetime { dies_after: 3 * SECOND / 4 }));
    assert!(!laser.age(3 * SECOND / 4));
    assert_eq!(laser.lifetime, Some(Lifetime { dies_after: 0 }));
    assert!(!laser.age(0));
    assert!(laser.age(1));
    assert_eq!(laser.lifetime, Some(Lifetime { dies_after: 0 }));
    let mut rock = Entity::new("Rock", at(0, 0));
    assert!(!rock.age(u64::MAX));
}

fn mesh(name: &str, material: usize) -> Mesh {
    Mesh { name: name.to_string(), material }
}

fn all_meshes() -> Resources {
    Resources {
        meshes: vec![
            mesh("Laser", 4),
            mesh("Spaceship", 0),
            mesh("Asteroid_L", 1),
            mesh("Asteroid_M", 2),
            mesh("Asteroid_S", 3),
            mesh("Laser", 9),
            mesh("Debris", 5),
        ],
        materials: vec![Material { name: "Rock".to_string() }],
    }
}

#[test]
fn mesh_lookup_finds_the_first_of_a_name() {
    let resources = all_meshes();
    let (id, found) = resources.get_mesh_by_name("Laser").unwrap();
    assert_eq!((id, found.material), (0, 4));
    let (id, found) = resources.get_mesh_by_name("Debris").unwrap();
    assert_eq!((id, found.material), (6, 5));
    assert!(resources.get_mesh_by_name("laser").is_none());
    assert!(resources.get_mesh_by_name("Lase").is_none());
    assert!(resources.get_mesh_by_name("").is_none());
    assert!(Resources::empty().get_mesh_by_name("Laser").is_none());
}

#[test]
fn factory_binds_every_recipe_to_its_mesh() {
    let factory = EntityFactory::new(&all_meshes()).unwrap();
    assert_eq!(factory.spaceship, Some(Renderable { shader: ShaderName::Model, mesh: 1, material: 0 }));
    assert_eq!(factory.asteroid_l, Some(Renderable { shader: ShaderName::Model, mesh: 2, material: 1 }));
    assert_eq!(factory.asteroid_m, Some(Renderable { shader: ShaderName::Model, mesh: 3, material: 2 }));
    assert_eq!(factory.asteroid_s, Some(Renderable { shader: ShaderName::Model, mesh: 4, material: 3 }));
    assert_eq!(factory.laser, Some(Renderable { shader: ShaderName::Model, mesh: 0, material: 4 }));
    assert_eq!(factory.debris, Some(Renderable { shader: ShaderName::Texture, mesh: 6, material: 5 }));
    assert_eq!(factory.make_spaceship(at(0, 0), 0).renderable, factory.spaceship);
    assert_eq!(factory.make_asteroid_l(at(0, 0)).renderable, factory.asteroid_l);
    assert_eq!(factory.make_asteroid_m(at(0, 0)).renderable, factory.asteroid_m);
    assert_eq!(factory.make_asteroid_s(at(0, 0)).renderable, factory.asteroid_s);
    assert_eq!(factory.make_laser(at(0, 0), Rotation::identity(), (0, 0)).renderable, factory.laser);
    assert_eq!(factory.make_debris(at(0, 0)).renderable, factory.debris);
    assert_eq!(factory.make_asteroid_m(at(0, 0)).name, "Asteroid_M");
}

#[test]
fn factory_names_the_first_missing_mesh() {
    let missing = EntityFactory::new(&Resources::empty()).unwrap_err();
    assert_eq!(missing.name, "Spaceship");
    let mut resources = all_meshes();
    resources.meshes.remove(3);
    assert_eq!(EntityFactory::new(&resources).unwrap_err().name, "Asteroid_M");
    let mut without_debris = all_meshes();
    without_debris.meshes.pop();
    assert_eq!(EntityFactory::new(&without_debris).unwrap_err().name, "Debris");
}

#[test]
fn empty_factory_makes_entities_that_are_not_drawn() {
    let factory = EntityFactory::empty();
    assert!(factory.make_asteroid_l(at(0, 0)).renderable.is_none());
    assert!(factory.make_debris(at(0, 0)).renderable.is_none());
    assert_eq!(factory.make_spaceship(at(0, 0), 0).health, Some(Health { level: 3 }));
}

#[test]
fn shaders_are_selected_by_name() {
    let shaders = Shaders { texture: Shader { pipeline: "texture" }, model: Shader { pipeline: "model" } };
    assert_eq!(shaders.by_name(ShaderName::Model).pipeline, "model");
    assert_eq!(shaders.by_name(ShaderName::Texture).pipeline, "texture");
    assert_eq!(ShaderName::Model.rank(), 0);
    assert_eq!(ShaderName::Texture.rank(), 1);
    assert!(ShaderName::Model < ShaderName::Texture);
}
