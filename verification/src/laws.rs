//! What holds of the registry across the events of the game: how many
//! entities of which name a breaking asteroid leaves, and what the upkeep of
//! the population adds.

use vstd::prelude::*;
use crate::components::Physics;
use crate::entity::Entity;
use crate::factory::EntityFactory;
use crate::geometry::contains_point_spec;
use crate::names::is_asteroid_name_spec;
use crate::registry::{
    asteroids_in, entities_in, holds_any, holds_asteroid, holds_named, killed, lemma_count_killed,
    lemma_count_pushed, lemma_pushed, named_in, pushed, Slots,
};
use crate::resolve::{large_split, medium_split, small_hit, Registry};
use crate::systems::{is_spawn, law_spawn_outside, population_kept, spawned_asteroid, MIN_ASTEROIDS};
use crate::world::{world_rect_spec, EXTENT_LIMIT};

verus! {

/// The names of the recipes differ from each other, and exactly the three
/// asteroid names mark an asteroid.
pub proof fn lemma_recipe_names()
    ensures
        is_asteroid_name_spec("Asteroid_L"@),
        is_asteroid_name_spec("Asteroid_M"@),
        is_asteroid_name_spec("Asteroid_S"@),
        !is_asteroid_name_spec("Debris"@),
        !is_asteroid_name_spec("Spaceship"@),
        !is_asteroid_name_spec("Laser"@),
        "Asteroid_L"@ != "Asteroid_M"@,
        "Asteroid_L"@ != "Asteroid_S"@,
        "Asteroid_M"@ != "Asteroid_S"@,
        "Debris"@ != "Asteroid_L"@,
        "Debris"@ != "Asteroid_M"@,
        "Debris"@ != "Asteroid_S"@,
{
    reveal_strlit("Asteroid");
    reveal_strlit("Asteroid_L");
    reveal_strlit("Asteroid_M");
    reveal_strlit("Asteroid_S");
    reveal_strlit("Debris");
    reveal_strlit("Spaceship");
    reveal_strlit("Laser");
    assert("Asteroid_L"@.subrange(0, 8) =~= "Asteroid"@);
    assert("Asteroid_M"@.subrange(0, 8) =~= "Asteroid"@);
    assert("Asteroid_S"@.subrange(0, 8) =~= "Asteroid"@);
    assert("Spaceship"@.subrange(0, 8)[0] != "Asteroid"@[0]);
    assert("Asteroid_L"@[9] != "Asteroid_M"@[9]);
    assert("Asteroid_L"@[9] != "Asteroid_S"@[9]);
    assert("Asteroid_M"@[9] != "Asteroid_S"@[9]);
}

/// How a push and a kill change the three counts that the laws speak of.
proof fn lemma_counts_pushed(slots: Slots, e: Entity, name: Seq<char>)
    ensures
        entities_in(pushed(slots, e)) == entities_in(slots) + 1,
        named_in(pushed(slots, e), name) == named_in(slots, name) + if e.name@ == name {
            1nat
        } else {
            0nat
        },
        asteroids_in(pushed(slots, e)) == asteroids_in(slots) + if is_asteroid_name_spec(e.name@) {
            1nat
        } else {
            0nat
        },
{
    lemma_count_pushed(slots, |slot: Option<Entity>| holds_any(slot), e);
    lemma_count_pushed(slots, |slot: Option<Entity>| holds_named(slot, name), e);
    lemma_count_pushed(slots, |slot: Option<Entity>| holds_asteroid(slot), e);
}

/// How a kill changes the three counts that the laws speak of.
proof fn lemma_counts_killed(slots: Slots, index: int, name: Seq<char>)
    requires
        0 <= index < slots.len(),
        slots[index] is Some,
    ensures
        entities_in(killed(slots, index)) + 1 == entities_in(slots),
        named_in(killed(slots, index), name) + (if slots[index]->0.name@ == name {
            1nat
        } else {
            0nat
        }) == named_in(slots, name),
        asteroids_in(killed(slots, index)) + (if is_asteroid_name_spec(slots[index]->0.name@) {
            1nat
        } else {
            0nat
        }) == asteroids_in(slots),
{
    lemma_count_killed(slots, |slot: Option<Entity>| holds_any(slot), index);
    lemma_count_killed(slots, |slot: Option<Entity>| holds_named(slot, name), index);
    lemma_count_killed(slots, |slot: Option<Entity>| holds_asteroid(slot), index);
}

/// When a large asteroid breaks, the registry gains exactly two medium
/// asteroids and one cloud of debris and loses the large asteroid: two
/// entities more than before, and one asteroid more.
pub proof fn law_large_split(before: Registry, factory: EntityFactory, this_id: int, first: Physics, second: Physics)
    requires
        0 <= this_id < before.slots.len(),
        before.slots[this_id] is Some,
        before.slots[this_id]->0.name@ == "Asteroid_L"@,
    ensures
        ({
            let after = large_split(before, factory, this_id, first, second);
            &&& after.slots[this_id] is None
            &&& entities_in(after.slots) == entities_in(before.slots) + 2
            &&& named_in(after.slots, "Asteroid_M"@) == named_in(before.slots, "Asteroid_M"@) + 2
            &&& named_in(after.slots, "Debris"@) == named_in(before.slots, "Debris"@) + 1
            &&& named_in(after.slots, "Asteroid_L"@) + 1 == named_in(before.slots, "Asteroid_L"@)
            &&& named_in(after.slots, "Asteroid_S"@) == named_in(before.slots, "Asteroid_S"@)
            &&& asteroids_in(after.slots) == asteroids_in(before.slots) + 1
            &&& after.score == before.score
        }),
{
    lemma_recipe_names();
    let parent = before.slots[this_id]->0;
    let a = crate::factory::rendered(
        crate::entity::asteroid_m_spec(
            crate::resolve::beside(parent.position, crate::entity::LARGE_SPLIT_OFFSET as int),
            first,
        ),
        factory.asteroid_m,
    );
    let b = crate::factory::rendered(
        crate::entity::asteroid_m_spec(
            crate::resolve::beside(parent.position, -crate::entity::LARGE_SPLIT_OFFSET),
            second,
        ),
        factory.asteroid_m,
    );
    let cloud = crate::factory::rendered(crate::entity::debris_spec(parent.position), factory.debris);
    let s1 = pushed(before.slots, a);
    let s2 = pushed(s1, b);
    let s3 = pushed(s2, cloud);
    lemma_pushed(before.slots, a);
    lemma_pushed(s1, b);
    lemma_pushed(s2, cloud);
    assert(s1[this_id] == before.slots[this_id]);
    assert(s2[this_id] == s1[this_id]);
    assert(s3[this_id] == s2[this_id]);
    lemma_counts_pushed(before.slots, a, "Asteroid_M"@);
    lemma_counts_pushed(s1, b, "Asteroid_M"@);
    lemma_counts_pushed(s2, cloud, "Asteroid_M"@);
    lemma_counts_killed(s3, this_id, "Asteroid_M"@);
    lemma_counts_pushed(before.slots, a, "Debris"@);
    lemma_counts_pushed(s1, b, "Debris"@);
    lemma_counts_pushed(s2, cloud, "Debris"@);
    lemma_counts_killed(s3, this_id, "Debris"@);
    lemma_counts_pushed(before.slots, a, "Asteroid_L"@);
    lemma_counts_pushed(s1, b, "Asteroid_L"@);
    lemma_counts_pushed(s2, cloud, "Asteroid_L"@);
    lemma_counts_killed(s3, this_id, "Asteroid_L"@);
    lemma_counts_pushed(before.slots, a, "Asteroid_S"@);
    lemma_counts_pushed(s1, b, "Asteroid_S"@);
    lemma_counts_pushed(s2, cloud, "Asteroid_S"@);
    lemma_counts_killed(s3, this_id, "Asteroid_S"@);
}

/// When a medium asteroid breaks, the registry gains exactly two small
/// asteroids and loses the medium one.
pub proof fn law_medium_split(before: Registry, factory: EntityFactory, this_id: int, first: Physics, second: Physics)
    requires
        0 <= this_id < before.slots.len(),
        before.slots[this_id] is Some,
        before.slots[this_id]->0.name@ == "Asteroid_M"@,
    ensures
        ({
            let after = medium_split(before, factory, this_id, first, second);
            &&& after.slots[this_id] is None
            &&& entities_in(after.slots) == entities_in(before.slots) + 1
            &&& named_in(after.slots, "Asteroid_S"@) == named_in(before.slots, "Asteroid_S"@) + 2
            &&& named_in(after.slots, "Asteroid_M"@) + 1 == named_in(before.slots, "Asteroid_M"@)
            &&& named_in(after.slots, "Asteroid_L"@) == named_in(before.slots, "Asteroid_L"@)
            &&& asteroids_in(after.slots) == asteroids_in(before.slots) + 1
            &&& after.score == before.score
        }),
{
    lemma_recipe_names();
    let parent = before.slots[this_id]->0;
    let a = crate::factory::rendered(
        crate::entity::asteroid_s_spec(
            crate::resolve::beside(parent.position, crate::entity::MEDIUM_SPLIT_OFFSET as int),
            first,
        ),
        factory.asteroid_s,
    );
    let b = crate::factory::rendered(
        crate::entity::asteroid_s_spec(
            crate::resolve::beside(parent.position, -crate::entity::MEDIUM_SPLIT_OFFSET),
            second,
        ),
        factory.asteroid_s,
    );
    let s1 = pushed(before.slots, a);
    let s2 = pushed(s1, b);
    lemma_pushed(before.slots, a);
    lemma_pushed(s1, b);
    assert(s2[this_id] == before.slots[this_id]);
    lemma_counts_pushed(before.slots, a, "Asteroid_S"@);
    lemma_counts_pushed(s1, b, "Asteroid_S"@);
    lemma_counts_killed(s2, this_id, "Asteroid_S"@);
    lemma_counts_pushed(before.slots, a, "Asteroid_M"@);
    lemma_counts_pushed(s1, b, "Asteroid_M"@);
    lemma_counts_killed(s2, this_id, "Asteroid_M"@);
    lemma_counts_pushed(before.slots, a, "Asteroid_L"@);
    lemma_counts_pushed(s1, b, "Asteroid_L"@);
    lemma_counts_killed(s2, this_id, "Asteroid_L"@);
}

/// When a small asteroid is hit, it is gone and leaves nothing: one entity
/// less, and every other slot as before.
pub proof fn law_small_hit(before: Registry, this_id: int)
    requires
        0 <= this_id < before.slots.len(),
        before.slots[this_id] is Some,
        before.slots[this_id]->0.name@ == "Asteroid_S"@,
    ensures
        ({
            let after = small_hit(before, this_id);
            &&& after.slots.len() == before.slots.len()
            &&& after.slots[this_id] is None
            &&& forall|k: int| 0 <= k < before.slots.len() && k != this_id ==> after.slots[k] == before.slots[k]
            &&& entities_in(after.slots) + 1 == entities_in(before.slots)
            &&& asteroids_in(after.slots) + 1 == asteroids_in(before.slots)
            &&& named_in(after.slots, "Asteroid_S"@) + 1 == named_in(before.slots, "Asteroid_S"@)
        }),
{
    lemma_recipe_names();
    lemma_counts_killed(before.slots, this_id, "Asteroid_S"@);
}

/// The upkeep of the population: while fewer than three asteroids are
/// left, it adds exactly one entity, a large asteroid that lies outside the
/// visible rectangle and has not entered the world; with three or more it
/// changes nothing.
pub proof fn law_population_kept(size: (int, int), factory: EntityFactory, before: Slots, after: Slots)
    requires
        0 < size.0 <= EXTENT_LIMIT,
        0 < size.1 <= EXTENT_LIMIT,
        population_kept(size, factory, before, after),
    ensures
        asteroids_in(before) >= MIN_ASTEROIDS ==> after == before,
        asteroids_in(before) < MIN_ASTEROIDS ==> {
            &&& entities_in(after) == entities_in(before) + 1
            &&& asteroids_in(after) == asteroids_in(before) + 1
            &&& named_in(after, "Asteroid_L"@) == named_in(before, "Asteroid_L"@) + 1
            &&& exists|e: Entity|
                {
                    &&& after == #[trigger] pushed(before, e)
                    &&& e.name == "Asteroid_L"
                    &&& !e.entered_world
                    &&& !contains_point_spec(world_rect_spec(size), (e.position@.x, e.position@.y))
                }
        },
{
    if asteroids_in(before) < MIN_ASTEROIDS {
        lemma_recipe_names();
        let e = choose|e: Entity| is_spawn(size, factory, e) && after == #[trigger] pushed(before, e);
        let (along, vertical_edge, negative, physics) = choose|
            along: (i64, i64),
            vertical_edge: bool,
            negative: bool,
            physics: Physics,
        |
            crate::systems::spawn_draws(size, along, physics) && e == #[trigger] spawned_asteroid(
                size,
                factory,
                along,
                vertical_edge,
                negative,
                physics,
            );
        law_spawn_outside(size, factory, along, vertical_edge, negative, physics);
        lemma_counts_pushed(before, e, "Asteroid_L"@);
        assert(after == pushed(before, e));
    }
}

} // verus!
