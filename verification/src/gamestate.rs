//! The game state: the registry of entities, the world they live in, the
//! score and the clock.

use std::time::Instant;
use vstd::prelude::*;
use crate::components::Health;
use crate::entity::Entity;
use crate::factory::EntityFactory;
use crate::names::{is_asteroid_name, same_text};
use crate::registry::{asteroids_in, count_slots, first_vacant, holds_asteroid, killed, pushed, Slots};
use crate::world::World;

verus! {

/// The state of one game.
pub struct GameState {
    /// The registry: each slot is vacant or holds an entity.
    pub entities: Vec<Option<Entity>>,
    pub world: World,
    /// When the last tick was submitted.
    pub last_update: Instant,
    pub score: usize,
    pub entity_factory: EntityFactory,
}

/// The slot holds the spaceship, and the spaceship has health.
pub open spec fn holds_ship_health(slot: Option<Entity>) -> bool {
    slot is Some && slot->0.health is Some && slot->0.name@ == "Spaceship"@
}

/// The first slot below `n` that holds the spaceship with its health, or
/// `n` if there is none.
pub open spec fn first_ship(slots: Slots, n: int) -> int
    decreases n,
{
    if n <= 0 {
        0
    } else {
        let earlier = first_ship(slots, n - 1);
        if earlier < n - 1 {
            earlier
        } else if holds_ship_health(slots[n - 1]) {
            n - 1
        } else {
            n
        }
    }
}

/// The health of the first spaceship in the registry, if there is one.
pub open spec fn ship_health(slots: Slots) -> Option<Health> {
    let slot = first_ship(slots, slots.len() as int);
    if slot < slots.len() {
        slots[slot]->0.health
    } else {
        None
    }
}

/// The game is over when no spaceship with health is left, or when its
/// health is at zero.
pub open spec fn is_over_spec(slots: Slots) -> bool {
    match ship_health(slots) {
        Some(health) => health.level == 0,
        None => true,
    }
}

impl GameState {
    /// Adds an entity to the registry. It takes the first vacant slot, or a
    /// new slot at the end if none is vacant.
    pub fn push(&mut self, entity: Entity)
        ensures
            final(self).entities@ == pushed(old(self).entities@, entity),
            final(self).entities@.len() >= old(self).entities@.len(),
            final(self).world == old(self).world,
            final(self).score == old(self).score,
            final(self).entity_factory == old(self).entity_factory,
            final(self).last_update == old(self).last_update,
    {
        let n = self.entities.len();
        let mut id: usize = 0;
        while id < n
            invariant
                id <= n,
                n == self.entities@.len(),
                first_vacant(self.entities@, id as int) == id,
                *self == *old(self),
            decreases n - id,
        {
            if self.entities[id].is_none() {
                self.entities[id] = Some(entity);
                proof {
                    lemma_vacant_found(old(self).entities@, id as int, n as int);
                }
                return ;
            }
            id = id + 1;
        }
        self.entities.push(Some(entity));
    }

    /// Removes the entity in slot `index`, if there is one. The slot must
    /// exist.
    pub fn kill(&mut self, index: usize)
        requires
            index < old(self).entities@.len(),
        ensures
            final(self).entities@ == killed(old(self).entities@, index as int),
            final(self).world == old(self).world,
            final(self).score == old(self).score,
            final(self).entity_factory == old(self).entity_factory,
            final(self).last_update == old(self).last_update,
    {
        self.entities[index] = None;
    }

    /// The score: the number of lasers that have hit an asteroid.
    pub fn score(&self) -> (score: usize)
        ensures
            score == self.score,
    {
        self.score
    }

    /// The entity in slot `id`, or nothing if the slot is vacant. The slot
    /// must exist.
    pub fn get_entity(&self, id: usize) -> (entity: Option<&Entity>)
        requires
            id < self.entities@.len(),
        ensures
            entity == match self.entities@[id as int] {
                Some(e) => Some(&e),
                None => None,
            },
    {
        self.entities[id].as_ref()
    }

    /// The entity in slot `id`, to be changed in place, or nothing if the
    /// slot is vacant. The slot must exist.
    pub fn get_entity_mut(&mut self, id: usize) -> (entity: Option<&mut Entity>)
        requires
            id < old(self).entities@.len(),
        ensures
            match old(self).entities@[id as int] {
                Some(e) => entity is Some && *entity->0 == e && final(self).entities@ == old(
                    self,
                ).entities@.update(id as int, Some(*final(entity->0))),
                None => entity is None && final(self).entities@ == old(self).entities@,
            },
            final(self).world == old(self).world,
            final(self).score == old(self).score,
            final(self).entity_factory == old(self).entity_factory,
            final(self).last_update == old(self).last_update,
    {
        self.entities[id].as_mut()
    }

    /// The health of the spaceship: of the first entity called `Spaceship`
    /// that has health.
    pub fn spaceship_health(&self) -> (health: Option<Health>)
        ensures
            health == ship_health(self.entities@),
    {
        let n = self.entities.len();
        let mut id: usize = 0;
        while id < n
            invariant
                id <= n,
                n == self.entities@.len(),
                first_ship(self.entities@, id as int) == id,
            decreases n - id,
        {
            if let Some(entity) = &self.entities[id] {
                if let Some(health) = entity.health {
                    if same_text(entity.name, "Spaceship") {
                        proof {
                            lemma_ship_found(self.entities@, id as int, n as int);
                        }
                        return Some(health);
                    }
                }
            }
            id = id + 1;
        }
        None
    }

    /// Whether the game is over: the spaceship is gone or out of health.
    pub fn is_over(&self) -> (over: bool)
        ensures
            over == is_over_spec(self.entities@),
    {
        match self.spaceship_health() {
            Some(health) => health.level == 0,
            None => true,
        }
    }

    /// The number of entities whose name marks an asteroid.
    pub fn asteroids_count(&self) -> (count: usize)
        ensures
            count == asteroids_in(self.entities@),
    {
        let n = self.entities.len();
        let mut count: usize = 0;
        let mut id: usize = 0;
        while id < n
            invariant
                id <= n,
                n == self.entities@.len(),
                count <= id,
                count == count_slots(self.entities@, |slot: Option<Entity>| holds_asteroid(slot), id as int),
            decreases n - id,
        {
            if let Some(entity) = &self.entities[id] {
                if is_asteroid_name(entity.name) {
                    count = count + 1;
                }
            }
            id = id + 1;
        }
        count
    }

    /// The time in nanoseconds since the last tick was submitted, at most
    /// `u64::MAX`.
    pub fn delta_time(&self) -> u64 {
        let elapsed = self.last_update.elapsed();
        let nanos = elapsed.as_nanos();
        crate::clock::saturated_nanos(nanos)
    }

    /// Ends the tick: the time of the next one is measured from now. What
    /// the clock then shows is not known here; [`GameState::restart_clock`]
    /// says what becomes of the state for every reading of it. All but the
    /// clock stays as it is.
    pub fn submit(&mut self)
        ensures
            final(self).entities == old(self).entities,
            final(self).world == old(self).world,
            final(self).score == old(self).score,
            final(self).entity_factory == old(self).entity_factory,
    {
        self.restart_clock(Instant::now());
    }

    /// Measures the time of the next tick from `now`.
    pub fn restart_clock(&mut self, now: Instant)
        ensures
            final(self).last_update == now,
            final(self).entities == old(self).entities,
            final(self).world == old(self).world,
            final(self).score == old(self).score,
            final(self).entity_factory == old(self).entity_factory,
    {
        self.last_update = now;
    }
}

/// A vacant slot that follows taken slots only is the first vacant slot of
/// any longer prefix.
proof fn lemma_vacant_found(slots: Slots, id: int, n: int)
    requires
        0 <= id < n <= slots.len(),
        first_vacant(slots, id) == id,
        slots[id] is None,
    ensures
        first_vacant(slots, n) == id,
    decreases n,
{
    if n > id + 1 {
        lemma_vacant_found(slots, id, n - 1);
    }
}

/// A spaceship that follows slots without one is the first spaceship of any
/// longer prefix.
proof fn lemma_ship_found(slots: Slots, id: int, n: int)
    requires
        0 <= id < n <= slots.len(),
        first_ship(slots, id) == id,
        holds_ship_health(slots[id]),
    ensures
        first_ship(slots, n) == id,
    decreases n,
{
    if n > id + 1 {
        lemma_ship_found(slots, id, n - 1);
    }
}

} // verus!
