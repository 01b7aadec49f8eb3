use asteroids::clock::{frames_per_second, saturated_nanos};
use asteroids::components::{Collision, Control, Health, Lifetime, OnCollision, Physics, NANOS_PER_MILLI, NANOS_PER_SEC};
use asteroids::entity::{Entity, Input, DEBRIS_LIFETIME, LASER_SPEED, THRUST, WEAPON_COOLDOWN};
use asteroids::factory::EntityFactory;
use asteroids::gamestate::GameState;
use asteroids::geometry::Shape;
use asteroids::resource::{Material, Mesh, Resources};
use asteroids::rotation::{Rotation, ONE};
use asteroids::world::{World, WorldPosition, UNIT};
use std::time::Instant;

const SECOND: u64 = NANOS_PER_SEC;

fn game(entities: Vec<Option<Entity>>) -> GameState {
    GameState {
        entities,
        world: World::init(1, 1),
        last_update: Instant::now(),
        score: 0,
        entity_factory: EntityFactory::empty(),
    }
}

fn at(x: i64, y: i64) -> WorldPosition {
    World::init(1, 1).new_position((x * UNIT, y * UNIT))
}

fn still() -> Physics {
    Physics::from_samples((0, 0), (0, 0, 0), 0)
}

fn idle() -> Input {
    Input {
        is_forward_pressed: false,
        is_left_pressed: false,
        is_right_pressed: false,
        is_fire_pressed: false,
        is_spawn_pressed: false,
    }
}

fn names(game: &GameState) -> Vec<&'static str> {
    game.entities.iter().map(|slot| slot.map(|e| e.name).unwrap_or("-")).collect()
}

fn count(game: &GameState, name: &str) -> usize {
    game.entities.iter().flatten().filter(|e| e.name == name).count()
}

fn live(game: &GameState) -> usize {
    game.entities.iter().flatten().count()
}

#[test]
fn test_gamestate_asteroids_count() {
    let world = World::init(1, 1);
    let default_position = world.new_position((0, 0));
    let a1 = Entity::new("Asteroid_1", default_position.clone());
    let a2 = Entity::new("Asteroid_2", default_position.clone());
    let s = Entity::new("Spaceship", default_position.clone());

    let entities = vec![Some(s.clone()), Some(a1.clone()), None, Some(a1.clone()), Some(a2.clone())];

    let gamestate = GameState {
        entities,
        world,
        last_update: Instant::now(),
        score: 0,
        entity_factory: EntityFactory::empty(),
    };

    assert_eq!(gamestate.asteroids_count(), 3);
}

#[test]
fn test_gamestate_entities_grouped_by_name() {
    let world = World::init(1, 1);
    let default_position = world.new_position((0, 0));
    let a = Entity::new("A", default_position.clone());
    let b = Entity::new("B", default_position.clone());

    let entities = vec![
        Some(a.clone()),
        Some(a.clone()),
        Some(b.clone()),
        Some(b.clone()),
        Some(a.clone()),
        None,
        Some(a.clone()),
    ];

    let gamestate = GameState {
        entities,
        world,
        last_update: Instant::now(),
        score: 0,
        entity_factory: EntityFactory::empty(),
    };

    let expected = vec![
        ("A", vec![a.clone(), a.clone()]),
        ("B", vec![a.clone(), a.clone()]),
        ("A", vec![a.clone(), a.clone()]),
    ];

    assert_eq!(gamestate.entities_grouped_by_name().len(), expected.len());
    assert_eq!(gamestate.entities_grouped_by_name()[0].0, expected[0].0);
    assert_eq!(gamestate.entities_grouped_by_name()[0].1.len(), expected[0].1.len());
    assert_eq!(gamestate.entities_grouped_by_name()[1].0, expected[1].0);
    assert_eq!(gamestate.entities_grouped_by_name()[1].1.len(), expected[1].1.len());
    assert_eq!(gamestate.entities_grouped_by_name()[2].0, expected[2].0);
    assert_eq!(gamestate.entities_grouped_by_name()[2].1.len(), expected[2].1.len());
}

#[test]
fn grouping_by_name_of_an_empty_registry_is_one_empty_run() {
    let groups = game(vec![None, None]).entities_grouped_by_name();
    assert_eq!(groups.len(), 1);
    assert_eq!(groups[0].0, "");
    assert!(groups[0].1.is_empty());
}

#[test]
fn push_reuses_the_first_vacant_slot() {
    let mut g = game(vec![]);
    g.push(Entity::new("A", at(0, 0)));
    g.push(Entity::new("B", at(0, 0)));
    g.push(Entity::new("C", at(0, 0)));
    assert_eq!(names(&g), vec!["A", "B", "C"]);
    g.kill(1);
    g.kill(0);
    assert_eq!(names(&g), vec!["-", "-", "C"]);
    g.push(Entity::new("D", at(0, 0)));
    assert_eq!(names(&g), vec!["D", "-", "C"]);
    g.push(Entity::new("E", at(0, 0)));
    g.push(Entity::new("F", at(0, 0)));
    assert_eq!(names(&g), vec!["D", "E", "C", "F"]);
    g.kill(3);
    g.kill(3);
    assert_eq!(names(&g), vec!["D", "E", "C", "-"]);
}

#[test]
fn lookup_of_a_vacant_slot_is_absent() {
    let mut g = game(vec![Some(Entity::new("A", at(1, 2))), None]);
    assert_eq!(g.get_entity(0).unwrap().name, "A");
    assert!(g.get_entity(1).is_none());
    assert!(g.get_entity_mut(1).is_none());
    g.get_entity_mut(0).unwrap().health = Some(Health { level: 9 });
    assert_eq!(g.get_entity(0).unwrap().health, Some(Health { level: 9 }));
    assert_eq!(g.entities.len(), 2);
}

#[test]
fn game_is_over_without_a_healthy_ship() {
    assert!(game(vec![]).is_over());
    assert_eq!(game(vec![]).spaceship_health(), None);
    let ship = Entity::make_spaceship(at(0, 0), 0);
    let g = game(vec![None, Some(Entity::new("Spaceship", at(0, 0))), Some(ship)]);
    assert_eq!(g.spaceship_health(), Some(Health { level: 3 }));
    assert!(!g.is_over());
    let mut wreck = ship;
    wreck.health = Some(Health { level: 0 });
    let h = game(vec![Some(wreck), Some(ship)]);
    assert_eq!(h.spaceship_health(), Some(Health { level: 0 }));
    assert!(h.is_over());
    let mut healthy_rock = Entity::new("Rock", at(0, 0));
    healthy_rock.health = Some(Health { level: 5 });
    assert!(game(vec![Some(healthy_rock)]).is_over());
    assert_eq!(game(vec![Some(healthy_rock)]).score(), 0);
}

#[test]
fn frame_rate_is_frames_per_second() {
    assert_eq!(frames_per_second(0), 0);
    assert_eq!(frames_per_second(1), 1000);
    assert_eq!(frames_per_second(16), 62);
    assert_eq!(frames_per_second(1000), 1);
    assert_eq!(frames_per_second(1001), 0);
    assert_eq!(frames_per_second(u128::MAX), 0);
}

#[test]
fn nanoseconds_are_limited_to_what_the_game_keeps() {
    assert_eq!(saturated_nanos(0), 0);
    assert_eq!(saturated_nanos(16_000_000), 16_000_000);
    assert_eq!(saturated_nanos(u64::MAX as u128), u64::MAX);
    assert_eq!(saturated_nanos(u64::MAX as u128 + 1), u64::MAX);
    assert_eq!(saturated_nanos(u128::MAX), u64::MAX);
}

#[test]
fn time_is_measured_from_the_instant_the_clock_was_restarted_at() {
    let mut g = game(vec![Some(Entity::new("A", at(0, 0)))]);
    g.score = 7;
    let start = Instant::now();
    while start.elapsed().as_nanos() < (30 * NANOS_PER_MILLI) as u128 {
        std::hint::spin_loop();
    }
    let later = Instant::now();
    g.restart_clock(later);
    assert_eq!(g.last_update, later);
    let since_later = g.delta_time();
    g.restart_clock(start);
    assert_eq!(g.last_update, start);
    let since_start = g.delta_time();
    assert!(since_start >= 30 * NANOS_PER_MILLI);
    assert!(since_start >= since_later);
    assert!(since_start as u128 <= start.elapsed().as_nanos());
    assert_eq!(names(&g), vec!["A"]);
    assert_eq!(g.score(), 7);
}

#[test]
fn clock_restarts_on_submit() {
    let mut g = game(vec![Some(Entity::new("A", at(0, 0)))]);
    // A clock that is not restarted only grows. One try suffices to see it
    // restart; more are made in case the machine stalls in between.
    let mut restarted = false;
    for _ in 0..100 {
        while g.delta_time() < 20 * NANOS_PER_MILLI {
            std::hint::spin_loop();
        }
        let before = g.delta_time();
        assert!(before >= 20 * NANOS_PER_MILLI);
        g.submit();
        if g.delta_time() < before {
            restarted = true;
            break;
        }
    }
    assert!(restarted);
    assert_eq!(names(&g), vec!["A"]);
}

#[test]
fn large_asteroid_breaks_into_two_medium_ones_and_debris() {
    let parent = Entity::asteroid_l_with(at(48, 10), still());
    let mut g = game(vec![Some(parent)]);
    g.on_collision(OnCollision::AsteroidL, 0, &vec![]);
    assert_eq!(names(&g), vec!["-", "Asteroid_M", "Asteroid_M", "Debris"]);
    assert_eq!(live(&g), 3);
    assert_eq!(g.entities[1].unwrap().position().to_tuple(), (-48_500, 10_000));
    assert_eq!(g.entities[2].unwrap().position().to_tuple(), (44_500, 10_000));
    assert_eq!(g.entities[3].unwrap().position().to_tuple(), (48_000, 10_000));
    assert_eq!(g.entities[3].unwrap().lifetime, Some(Lifetime { dies_after: DEBRIS_LIFETIME }));
    assert_eq!(g.asteroids_count(), 2);
    assert_eq!(g.score(), 0);
}

#[test]
fn medium_asteroid_breaks_into_two_small_ones() {
    let parent = Entity::asteroid_m_with(at(0, 0), still());
    let mut g = game(vec![None, Some(parent)]);
    g.on_collision(OnCollision::AsteroidM, 1, &vec![0]);
    assert_eq!(names(&g), vec!["Asteroid_S", "-", "Asteroid_S"]);
    assert_eq!(g.entities[0].unwrap().position().to_tuple(), (1_500, 0));
    assert_eq!(g.entities[2].unwrap().position().to_tuple(), (-1_500, 0));
}

#[test]
fn small_asteroid_leaves_nothing() {
    let mut g = game(vec![Some(Entity::asteroid_s_with(at(0, 0), still())), Some(Entity::new("A", at(0, 0)))]);
    g.on_collision(OnCollision::AsteroidS, 0, &vec![1]);
    assert_eq!(names(&g), vec!["-", "A"]);
}

#[test]
fn spawn_tree_runs_from_large_to_nothing() {
    let mut g = game(vec![Some(Entity::asteroid_l_with(at(0, 0), still()))]);
    g.on_collision(OnCollision::AsteroidL, 0, &vec![]);
    assert_eq!((count(&g, "Asteroid_L"), count(&g, "Asteroid_M"), count(&g, "Debris")), (0, 2, 1));
    g.on_collision(OnCollision::AsteroidM, 1, &vec![]);
    g.on_collision(OnCollision::AsteroidM, 2, &vec![]);
    assert_eq!((count(&g, "Asteroid_M"), count(&g, "Asteroid_S"), count(&g, "Debris")), (0, 4, 1));
    let small: Vec<usize> = (0..g.entities.len()).filter(|i| g.entities[*i].map(|e| e.name) == Some("Asteroid_S")).collect();
    for id in small {
        g.on_collision(OnCollision::AsteroidS, id, &vec![]);
    }
    assert_eq!(g.asteroids_count(), 0);
    assert_eq!(names(&g).iter().filter(|n| **n != "-").count(), 1);
}

#[test]
fn spaceship_takes_one_point_of_damage_for_each_asteroid() {
    let ship = Entity::make_spaceship(at(0, 0), 0);
    let rock = Entity::asteroid_s_with(at(0, 0), still());
    let laser = Entity::make_laser(at(0, 0), Rotation::identity(), (0, 0));
    let mut g = game(vec![Some(ship), Some(rock), None, Some(laser), Some(rock)]);
    g.on_collision(OnCollision::Spaceship, 0, &vec![1, 2, 3, 4]);
    assert_eq!(g.get_entity(0).unwrap().health, Some(Health { level: 1 }));
    g.on_collision(OnCollision::Spaceship, 0, &vec![2, 3]);
    assert_eq!(g.get_entity(0).unwrap().health, Some(Health { level: 1 }));
    g.on_collision(OnCollision::Spaceship, 0, &vec![1, 4, 1]);
    assert!(g.get_entity(0).is_none());
    assert!(g.is_over());
}

#[test]
fn spaceship_without_health_is_not_harmed() {
    let mut ship = Entity::make_spaceship(at(0, 0), 0);
    ship.health = None;
    let mut g = game(vec![Some(ship), Some(Entity::asteroid_s_with(at(0, 0), still()))]);
    g.on_collision(OnCollision::Spaceship, 0, &vec![1]);
    assert_eq!(names(&g), vec!["Spaceship", "Asteroid_S"]);
}

#[test]
fn laser_scores_only_against_asteroids() {
    let ship = Entity::make_spaceship(at(0, 0), 0);
    let rock = Entity::asteroid_l_with(at(0, 0), still());
    let laser = Entity::make_laser(at(0, 0), Rotation::identity(), (0, 0));
    let mut g = game(vec![Some(laser), Some(ship), Some(laser), None, Some(rock)]);
    g.on_collision(OnCollision::Laser, 0, &vec![1, 2, 3]);
    assert_eq!(names(&g), vec!["Laser", "Spaceship", "Laser", "-", "Asteroid_L"]);
    assert_eq!(g.score(), 0);
    g.on_collision(OnCollision::Laser, 0, &vec![1, 4]);
    assert_eq!(names(&g), vec!["-", "Spaceship", "Laser", "-", "Asteroid_L"]);
    assert_eq!(g.score(), 1);
    g.score = usize::MAX;
    g.on_collision(OnCollision::Laser, 2, &vec![4]);
    assert_eq!(g.score(), usize::MAX);
    assert!(g.get_entity(2).is_none());
    assert_eq!(g.count_asteroids_among(&vec![4, 4, 1, 3]), 2);
}

#[test]
fn other_members_leave_out_the_member_itself() {
    assert_eq!(GameState::other_members(&vec![3, 5, 9], 5), vec![3, 9]);
    assert_eq!(GameState::other_members(&vec![3, 5, 9], 4), vec![3, 5, 9]);
    assert_eq!(GameState::other_members(&vec![7], 7), Vec::<usize>::new());
}

#[test]
fn collision_shapes_are_placed_at_the_entities() {
    let rock = Entity::asteroid_s_with(at(48, 0), still());
    let mut far = Entity::asteroid_s_with(at(0, 0), still());
    far.shape = Some(Shape::Circle { origin: at(10, 0), radius: 7 });
    let g = game(vec![Some(rock), None, Some(Entity::new("Ghost", at(0, 0))), Some(far)]);
    let shapes = g.collision_shapes();
    assert_eq!(shapes.len(), 4);
    assert_eq!(shapes[0], Some(Shape::Circle { origin: at(48, 0), radius: UNIT }));
    assert_eq!(shapes[1], None);
    assert_eq!(shapes[2], None);
    assert_eq!(shapes[3], Some(Shape::Circle { origin: at(10, 0), radius: 7 }));
}

#[test]
fn ship_survives_two_asteroids_at_once() {
    let ship = Entity::make_spaceship(at(0, 0), 0);
    let mut g = game(vec![
        Some(ship),
        Some(Entity::asteroid_s_with(at(3, 0), still())),
        Some(Entity::asteroid_s_with(at(-3, 0), still())),
    ]);
    g.collision_system();
    assert_eq!(g.get_entity(0).unwrap().health, Some(Health { level: 1 }));
    assert_eq!(names(&g), vec!["Spaceship", "-", "-"]);
    assert!(!g.is_over());
}

#[test]
fn ship_dies_of_three_asteroids_at_once() {
    let ship = Entity::make_spaceship(at(0, 0), 0);
    let mut g = game(vec![
        Some(ship),
        Some(Entity::asteroid_s_with(at(3, 0), still())),
        Some(Entity::asteroid_s_with(at(-3, 0), still())),
        Some(Entity::asteroid_s_with(at(0, 3), still())),
    ]);
    g.collision_system();
    assert_eq!(names(&g), vec!["-", "-", "-", "-"]);
    assert!(g.is_over());
}

#[test]
fn collision_pass_walks_the_groups_found_before_it_started() {
    // Two large asteroids on top of each other: one group [0, 1]. The first
    // breaks into slots 2, 3, 4; the second fills the vacated slot 0.
    let mut g = game(vec![
        Some(Entity::asteroid_l_with(at(0, 0), still())),
        Some(Entity::asteroid_l_with(at(1, 0), still())),
    ]);
    g.collision_system();
    assert_eq!(
        names(&g),
        vec!["Asteroid_M", "-", "Asteroid_M", "Asteroid_M", "Debris", "Asteroid_M", "Debris"]
    );
    assert_eq!(g.entities[0].unwrap().position().to_tuple(), (4_500, 0));
    assert_eq!(g.entities[2].unwrap().position().to_tuple(), (3_500, 0));
}

#[test]
fn later_group_meets_what_took_over_a_slot() {
    // Groups found: [0, 1] and [1, 2] (0 and 2 do not overlap). In the first
    // group the laser at 0 scores and dies, the small asteroid at 1 dies. In
    // the second group slot 1 is vacant and skipped, and the laser at 2 finds
    // no asteroid left among the others.
    let mut g = game(vec![
        Some(Entity::make_laser(at(-1, 0), Rotation::identity(), (0, 0))),
        Some(Entity::asteroid_s_with(at(0, 0), still())),
        Some(Entity::make_laser(at(1, 0), Rotation::identity(), (0, 0))),
    ]);
    g.collision_system();
    assert_eq!(names(&g), vec!["-", "-", "Laser"]);
    assert_eq!(g.score(), 1);
}

#[test]
fn entities_without_behavior_or_shape_do_not_react() {
    let mut plain = Entity::asteroid_s_with(at(0, 0), still());
    plain.collision = None;
    let mut shapeless = Entity::asteroid_s_with(at(0, 0), still());
    shapeless.shape = None;
    let mut g = game(vec![Some(plain), Some(plain), Some(shapeless)]);
    g.collision_system();
    assert_eq!(names(&g), vec!["Asteroid_S", "Asteroid_S", "Asteroid_S"]);
}

#[test]
fn control_system_steers_the_ship_and_fires() {
    let ship = Entity::make_spaceship(at(5, 5), 0);
    let rock = Entity::asteroid_s_with(at(20, 20), Physics::from_samples((7, 8), (0, 0, 0), 0));
    let mut g = game(vec![None, Some(rock), Some(ship)]);
    let mut input = idle();
    input.is_forward_pressed = true;
    input.is_fire_pressed = true;
    g.control_tick(&input, SECOND);
    assert_eq!(names(&g), vec!["Laser", "Asteroid_S", "Spaceship"]);
    let ship = g.entities[2].unwrap();
    assert_eq!(ship.physics.unwrap().linear_speed, (0, THRUST));
    assert_eq!(ship.control, Some(Control { enabled: true, weapon_cooldown: WEAPON_COOLDOWN }));
    let laser = g.entities[0].unwrap();
    assert_eq!(laser.position(), at(5, 5));
    assert_eq!(laser.physics.unwrap().linear_speed, (0, THRUST + LASER_SPEED));
    assert_eq!(g.entities[1].unwrap().physics.unwrap().linear_speed, (7, 8));
    g.control_tick(&input, WEAPON_COOLDOWN);
    assert_eq!(names(&g), vec!["Laser", "Asteroid_S", "Spaceship"]);
    assert_eq!(g.entities[2].unwrap().control.unwrap().weapon_cooldown, 0);
}

#[test]
fn physics_system_moves_every_entity() {
    let a = Entity::asteroid_s_with(at(0, 0), Physics::from_samples((1_000, 0), (0, 0, 0), 0));
    let b = Entity::asteroid_s_with(at(0, 0), Physics::from_samples((0, -2_000), (0, 0, 0), 0));
    let mut g = game(vec![Some(a), None, Some(b), Some(Entity::new("Still", at(9, 9)))]);
    g.physics_tick(SECOND / 2);
    assert_eq!(g.entities[0].unwrap().position().to_tuple(), (500, 0));
    assert!(g.entities[1].is_none());
    assert_eq!(g.entities[2].unwrap().position().to_tuple(), (0, -1_000));
    assert_eq!(g.entities[3].unwrap().position(), at(9, 9));
    assert!(g.entities[0].unwrap().entered_world());
}

#[test]
fn lifetime_system_ages_and_kills() {
    let laser = Entity::make_laser(at(0, 0), Rotation::identity(), (0, 0));
    let debris = Entity::make_debris(at(0, 0));
    let mut g = game(vec![Some(laser), None, Some(debris), Some(Entity::new("Rock", at(0, 0))), Some(debris)]);
    g.lifetime_tick(DEBRIS_LIFETIME);
    assert_eq!(names(&g), vec!["Laser", "-", "Debris", "Rock", "Debris"]);
    assert_eq!(g.entities[0].unwrap().lifetime, Some(Lifetime { dies_after: SECOND - DEBRIS_LIFETIME }));
    assert_eq!(g.entities[2].unwrap().lifetime, Some(Lifetime { dies_after: 0 }));
    g.lifetime_tick(1);
    assert_eq!(names(&g), vec!["Laser", "-", "-", "Rock", "-"]);
    g.lifetime_tick(SECOND);
    assert_eq!(names(&g), vec!["-", "-", "-", "Rock", "-"]);
}

#[test]
fn population_is_kept_at_three_asteroids() {
    let rock = Entity::asteroid_s_with(at(0, 0), still());
    let mut g = game(vec![Some(rock), None, Some(rock)]);
    g.asteroids_spawn_system();
    assert_eq!(names(&g), vec!["Asteroid_S", "Asteroid_L", "Asteroid_S"]);
    let sent = g.entities[1].unwrap();
    assert!(!sent.entered_world());
    assert!(!g.world.rect().contains_point(sent.position().to_tuple()));
    assert_eq!(sent.collision, Some(Collision { on_collision: OnCollision::AsteroidL }));
    g.asteroids_spawn_system();
    assert_eq!(names(&g), vec!["Asteroid_S", "Asteroid_L", "Asteroid_S"]);
    g.kill(0);
    g.kill(2);
    g.asteroids_spawn_system();
    g.asteroids_spawn_system();
    g.asteroids_spawn_system();
    assert_eq!(names(&g), vec!["Asteroid_L", "Asteroid_L", "Asteroid_L"]);
}

#[test]
fn sent_asteroids_lie_outside_and_fly_to_the_center() {
    for _ in 0..100 {
        let mut g = game(vec![]);
        g.spawn_asteroid();
        let e = g.entities[0].unwrap();
        let (x, y) = e.position().to_tuple();
        assert!(x.abs() == 55 * UNIT || y.abs() == 55 * UNIT);
        assert!(x.abs() <= 55 * UNIT && y.abs() <= 55 * UNIT);
        assert!(!g.world.rect().contains_point((x, y)));
        let (vx, vy) = e.physics.unwrap().linear_speed;
        assert!(vx * x <= 0 && vy * y <= 0);
        assert!(vx.abs() <= 7_072 && vy.abs() <= 7_072);
    }
}

#[test]
fn asteroid_is_sent_in_for_given_draws() {
    let mut g = game(vec![]);
    g.world = World::init(2, 1);
    g.spawn_asteroid_with((10 * UNIT, 90 * UNIT), true, true, Physics::from_samples((3_000, 4_000), (0, 0, ONE), 1));
    g.spawn_asteroid_with((10 * UNIT, 90 * UNIT), false, false, Physics::from_samples((0, -5_000), (0, 0, ONE), 1));
    let left = g.entities[0].unwrap();
    assert_eq!(left.name, "Asteroid_L");
    assert_eq!(left.position().to_tuple(), (-105 * UNIT, 40 * UNIT));
    // Speed 5 along (105, -40) / |(105, -40)|, rounded toward zero.
    assert_eq!(left.physics.unwrap().linear_speed, (4_672, -1_779));
    assert_eq!(left.physics.unwrap().angular_speed.components(), (999_962, 0, 0, 8_727));
    let top = g.entities[1].unwrap();
    assert_eq!(top.position().to_tuple(), (-90 * UNIT, 55 * UNIT));
    assert_eq!(top.physics.unwrap().linear_speed, (4_266, -2_607));
}

fn all_meshes() -> Resources {
    let names = ["Spaceship", "Asteroid_L", "Asteroid_M", "Asteroid_S", "Laser", "Debris"];
    Resources {
        meshes: names.iter().enumerate().map(|(i, n)| Mesh { name: n.to_string(), material: i + 10 }).collect(),
        materials: vec![Material { name: "Rock".to_string() }],
    }
}

#[test]
fn new_game_starts_with_the_ship_and_three_asteroids() {
    let g = GameState::new_game(800, 600, &all_meshes()).ok().unwrap();
    assert_eq!(names(&g), vec!["Spaceship", "Asteroid_L", "Asteroid_L", "Asteroid_L"]);
    assert_eq!(g.world.size(), (133_333, 100_000));
    assert_eq!(g.score(), 0);
    assert!(!g.is_over());
    let ship = g.entities[0].unwrap();
    assert_eq!(ship.position().to_tuple(), (0, 0));
    assert_eq!(ship.rotation.components(), (ONE, 0, 0, 0));
    assert_eq!(ship.renderable, g.entity_factory.spaceship);
    assert!(ship.renderable.is_some());
    for slot in &g.entities[1..] {
        let e = slot.unwrap();
        assert!(!g.world.rect().contains_point(e.position().to_tuple()));
        assert_eq!(e.renderable, g.entity_factory.asteroid_l);
    }
}

#[test]
fn new_game_fails_without_the_meshes() {
    let missing = GameState::new_game(800, 600, &Resources::empty()).err().unwrap();
    assert_eq!(missing.name, "Spaceship");
    let g = GameState::with_factory(1, 1, EntityFactory::empty());
    assert_eq!(names(&g), vec!["Spaceship", "Asteroid_L", "Asteroid_L", "Asteroid_L"]);
}

#[test]
fn update_runs_the_systems_in_order() {
    let ship = Entity::make_spaceship(at(0, 0), 0);
    let rock = Entity::asteroid_s_with(at(0, 3), still());
    let far = Entity::asteroid_l_with(at(40, 40), still());
    let mut g = game(vec![Some(ship), Some(rock), Some(far), Some(far), Some(far)]);
    g.entities[2].as_mut().unwrap().position = at(40, -40);
    g.entities[3].as_mut().unwrap().position = at(-40, 40);
    let mut input = idle();
    input.is_fire_pressed = true;
    g.update(&input, 10 * NANOS_PER_MILLI);
    // The ship fires; the laser starts inside the small asteroid and the
    // ship: one group [0, 1, 5]. The ship is hit once, the asteroid dies,
    // and the laser, whose turn comes last, finds the asteroid gone.
    assert_eq!(names(&g), vec!["Spaceship", "-", "Asteroid_L", "Asteroid_L", "Asteroid_L", "Laser"]);
    assert_eq!(g.entities[0].unwrap().health, Some(Health { level: 2 }));
    assert_eq!(g.score(), 0);
    assert_eq!(g.entities[5].unwrap().lifetime, Some(Lifetime { dies_after: SECOND - 10 * NANOS_PER_MILLI }));
    assert_eq!(g.entities[5].unwrap().position().to_tuple(), (0, 800));
}

#[test]
fn systems_can_be_chained() {
    let ship = Entity::make_spaceship(at(0, 0), 0);
    let rock = Entity::asteroid_s_with(at(0, 3), still());
    let mut chained = game(vec![Some(ship), Some(rock)]);
    let mut stepped = game(vec![Some(ship), Some(rock)]);
    let mut input = idle();
    input.is_forward_pressed = true;
    let dtime = 20 * NANOS_PER_MILLI;
    chained
        .control_tick(&input, dtime)
        .physics_tick(dtime)
        .collision_system()
        .lifetime_tick(dtime)
        .submit();
    stepped.control_tick(&input, dtime);
    stepped.physics_tick(dtime);
    stepped.collision_system();
    stepped.lifetime_tick(dtime);
    assert_eq!(names(&chained), vec!["Spaceship", "-"]);
    assert_eq!(names(&chained), names(&stepped));
    assert_eq!(chained.entities[0].unwrap().health, Some(Health { level: 2 }));
    assert_eq!(chained.entities[0].unwrap().position(), stepped.entities[0].unwrap().position());
    assert_eq!(chained.entities[0].unwrap().position().to_tuple(), (0, 20));
    assert_eq!(chained.asteroids_spawn_system().asteroids_count(), 1);
}

#[test]
fn systems_read_the_clock() {
    let ship = Entity::make_spaceship(at(0, 0), 0);
    let laser = Entity::make_laser(at(20, 20), Rotation::identity(), (0, 0));
    let mut g = game(vec![Some(ship), Some(laser)]);
    let mut input = idle();
    input.is_forward_pressed = true;
    input.is_fire_pressed = true;
    while g.delta_time() < 20 * NANOS_PER_MILLI {
        std::hint::spin_loop();
    }
    g.control_system(&input).physics_system().collision_system().lifetime_system().asteroids_spawn_system().submit();
    // Time has passed for every system, however much it was.
    let ship = g.entities[0].unwrap();
    assert_eq!(ship.name, "Spaceship");
    assert_eq!(ship.health, Some(Health { level: 3 }));
    assert_eq!(ship.control, Some(Control { enabled: true, weapon_cooldown: WEAPON_COOLDOWN }));
    let speed = ship.physics.unwrap().linear_speed;
    assert!(speed.0 == 0 && speed.1 >= THRUST / 50 && speed.1 <= 60_000);
    assert!(ship.entered_world());
    for e in g.entities.iter().flatten().filter(|e| e.name == "Laser") {
        assert!(e.lifetime.unwrap().dies_after <= SECOND - 20 * NANOS_PER_MILLI);
    }
    assert_eq!(g.asteroids_count(), 1);
    assert_eq!(g.score(), 0);
}
