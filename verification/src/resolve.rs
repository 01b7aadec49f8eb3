//! What a collision does: the behavior of each recipe when it is part of a
//! collision group, and the pass that resolves all groups of a tick.
//!
//! The groups are computed once, before anything changes. Behaviors kill
//! and push entities while the pass still walks those groups, so a member of
//! a later group can be gone, or replaced, when its turn comes. A vacant
//! slot is skipped; an entity that took over a vacated slot is treated as
//! the member.

use vstd::prelude::*;
use crate::collision::{find_collisions, find_collisions_spec, groups_view, lemma_groups};
use crate::components::{damaged_level, is_random_physics, Health, OnCollision, Physics};
use crate::entity::{
    asteroid_m_spec, asteroid_s_spec, debris_spec, Entity, ASTEROID_SPIN, LARGE_SPLIT_OFFSET,
    MEDIUM_SPLIT_OFFSET, SMALL_ASTEROID_SPEED,
};
use crate::factory::{rendered, EntityFactory};
use crate::gamestate::GameState;
use crate::geometry::{shape_translate_spec, Shape};
use crate::names::is_asteroid_name;
use crate::registry::{asteroids_among, killed, pushed, Slots};
use crate::world::{translate_spec, WorldPosition};

verus! {

/// What the collision pass reads and changes: the slots and the score.
#[verifier::ext_equal]
pub struct Registry {
    pub slots: Slots,
    pub score: usize,
}

/// The collision shape of a slot's entity, placed where the entity is.
pub open spec fn placed_shape(slot: Option<Entity>) -> Option<Shape> {
    match slot {
        Some(e) => match e.shape {
            Some(shape) => Some(shape_translate_spec(shape, (e.position@.x, e.position@.y))),
            None => None,
        },
        None => None,
    }
}

/// The placed shapes of all slots.
pub open spec fn snapshot(slots: Slots) -> Seq<Option<Shape>> {
    Seq::new(slots.len(), |i: int| placed_shape(slots[i]))
}

/// The first `n` members of a group without `this_id`.
pub open spec fn others_of(group: Seq<usize>, this_id: usize, n: int) -> Seq<usize>
    decreases n,
{
    if n <= 0 {
        Seq::empty()
    } else {
        let earlier = others_of(group, this_id, n - 1);
        if group[n - 1] != this_id {
            earlier.push(group[n - 1])
        } else {
            earlier
        }
    }
}

/// Where a half of a split asteroid appears: beside the parent, wrapped
/// around the world's edges.
pub open spec fn beside(parent: WorldPosition, offset: int) -> WorldPosition {
    WorldPosition::from_view(translate_spec(parent@, (offset, 0)))
}

/// A large asteroid breaks: two medium asteroids with the given physics
/// appear on either side, a cloud of debris in the middle, and the parent is
/// gone.
pub open spec fn large_split(
    before: Registry,
    factory: EntityFactory,
    this_id: int,
    first: Physics,
    second: Physics,
) -> Registry {
    let parent = before.slots[this_id]->0;
    let a = rendered(asteroid_m_spec(beside(parent.position, LARGE_SPLIT_OFFSET as int), first), factory.asteroid_m);
    let b = rendered(asteroid_m_spec(beside(parent.position, -LARGE_SPLIT_OFFSET), second), factory.asteroid_m);
    let cloud = rendered(debris_spec(parent.position), factory.debris);
    Registry { slots: killed(pushed(pushed(pushed(before.slots, a), b), cloud), this_id), score: before.score }
}

/// A medium asteroid breaks: two small asteroids with the given physics
/// appear on either side, and the parent is gone.
pub open spec fn medium_split(
    before: Registry,
    factory: EntityFactory,
    this_id: int,
    first: Physics,
    second: Physics,
) -> Registry {
    let parent = before.slots[this_id]->0;
    let a = rendered(asteroid_s_spec(beside(parent.position, MEDIUM_SPLIT_OFFSET as int), first), factory.asteroid_s);
    let b = rendered(asteroid_s_spec(beside(parent.position, -MEDIUM_SPLIT_OFFSET), second), factory.asteroid_s);
    Registry { slots: killed(pushed(pushed(before.slots, a), b), this_id), score: before.score }
}

/// A small asteroid is hit: it is gone.
pub open spec fn small_hit(before: Registry, this_id: int) -> Registry {
    Registry { slots: killed(before.slots, this_id), score: before.score }
}

/// The spaceship is hit: it loses one point of health for each asteroid
/// among the others, and is gone when none is left. A ship without health
/// is not harmed.
pub open spec fn spaceship_hit(before: Registry, this_id: int, others: Seq<usize>) -> Registry {
    let ship = before.slots[this_id]->0;
    match ship.health {
        Some(health) => {
            let level = damaged_level(
                health.level as int,
                asteroids_among(before.slots, others, others.len() as int) as int,
            );
            if level == 0 {
                Registry { slots: killed(before.slots, this_id), score: before.score }
            } else {
                Registry {
                    slots: before.slots.update(
                        this_id,
                        Some(Entity { health: Some(Health { level: level as usize }), ..ship }),
                    ),
                    score: before.score,
                }
            }
        },
        None => before,
    }
}

/// The score after one more hit; it stays at the largest number it can
/// hold.
pub open spec fn scored(score: usize) -> usize {
    if score < usize::MAX {
        (score + 1) as usize
    } else {
        score
    }
}

/// A laser is part of a group: if an asteroid is among the others, the hit
/// scores and the laser is gone; otherwise nothing happens.
pub open spec fn laser_hit(before: Registry, this_id: int, others: Seq<usize>) -> Registry {
    if asteroids_among(before.slots, others, others.len() as int) > 0 {
        Registry { slots: killed(before.slots, this_id), score: scored(before.score) }
    } else {
        before
    }
}

/// `after` is a possible result of the behavior of the entity in slot
/// `this_id` when it collides with `others`. The result is determined but
/// for the physics of new asteroids, which are drawn at random.
pub open spec fn resolved(
    behavior: OnCollision,
    before: Registry,
    factory: EntityFactory,
    this_id: int,
    others: Seq<usize>,
    after: Registry,
) -> bool {
    match behavior {
        OnCollision::AsteroidL => exists|first: Physics, second: Physics|
            {
                &&& is_random_physics(first, SMALL_ASTEROID_SPEED as int, ASTEROID_SPIN as int)
                &&& is_random_physics(second, SMALL_ASTEROID_SPEED as int, ASTEROID_SPIN as int)
                &&& after == #[trigger] large_split(before, factory, this_id, first, second)
            },
        OnCollision::AsteroidM => exists|first: Physics, second: Physics|
            {
                &&& is_random_physics(first, SMALL_ASTEROID_SPEED as int, ASTEROID_SPIN as int)
                &&& is_random_physics(second, SMALL_ASTEROID_SPEED as int, ASTEROID_SPIN as int)
                &&& after == #[trigger] medium_split(before, factory, this_id, first, second)
            },
        OnCollision::AsteroidS => after == small_hit(before, this_id),
        OnCollision::Spaceship => after == spaceship_hit(before, this_id, others),
        OnCollision::Laser => after == laser_hit(before, this_id, others),
    }
}

/// `after` is a possible result of the turn of member `m` of `group`: if
/// its slot holds an entity with a collision behavior, that behavior acts
/// on the other members; otherwise nothing changes.
pub open spec fn member_resolved(
    before: Registry,
    factory: EntityFactory,
    group: Seq<usize>,
    m: int,
    after: Registry,
) -> bool {
    let this_id = group[m];
    match before.slots[this_id as int] {
        Some(e) => match e.collision {
            Some(collision) => resolved(
                collision.on_collision,
                before,
                factory,
                this_id as int,
                others_of(group, this_id, group.len() as int),
                after,
            ),
            None => after == before,
        },
        None => after == before,
    }
}

/// `after` is a possible result of the turns of the first `m` members of
/// `group`, in order.
pub open spec fn group_resolved(
    before: Registry,
    factory: EntityFactory,
    group: Seq<usize>,
    m: int,
    after: Registry,
) -> bool
    decreases m,
{
    if m <= 0 {
        after == before
    } else {
        exists|between: Registry|
            group_resolved(before, factory, group, m - 1, between) && #[trigger] member_resolved(
                between,
                factory,
                group,
                m - 1,
                after,
            )
    }
}

/// `after` is a possible result of the turns of all members of `group`, in
/// order.
pub open spec fn whole_group_resolved(
    before: Registry,
    factory: EntityFactory,
    group: Seq<usize>,
    after: Registry,
) -> bool {
    group_resolved(before, factory, group, group.len() as int, after)
}

/// `after` is a possible result of resolving the first `g` of `groups`, in
/// order, each member of each group in its turn.
pub open spec fn groups_resolved(
    before: Registry,
    factory: EntityFactory,
    groups: Seq<Seq<usize>>,
    g: int,
    after: Registry,
) -> bool
    decreases g,
{
    if g <= 0 {
        after == before
    } else {
        exists|between: Registry|
            groups_resolved(before, factory, groups, g - 1, between) && #[trigger] whole_group_resolved(
                between,
                factory,
                groups[g - 1],
                after,
            )
    }
}

/// `after` is a possible result of one collision pass over `before`: the
/// groups are those of the placed shapes of `before`, and all of them are
/// resolved.
pub open spec fn collisions_resolved(before: Registry, factory: EntityFactory, after: Registry) -> bool {
    let groups = find_collisions_spec(snapshot(before.slots));
    groups_resolved(before, factory, groups, groups.len() as int, after)
}

impl GameState {
    /// The slots and the score.
    pub open spec fn registry(&self) -> Registry {
        Registry { slots: self.entities@, score: self.score }
    }

    /// Everything but the slots and the score is as in `other`.
    pub open spec fn same_setting(&self, other: &GameState) -> bool {
        &&& self.world == other.world
        &&& self.entity_factory == other.entity_factory
        &&& self.last_update == other.last_update
    }

    /// The number of `ids` whose slot holds an asteroid. Every id must be a
    /// slot of the registry.
    pub fn count_asteroids_among(&self, ids: &Vec<usize>) -> (count: usize)
        requires
            forall|k: int| 0 <= k < ids@.len() ==> (#[trigger] ids@[k]) < self.entities@.len(),
        ensures
            count == asteroids_among(self.entities@, ids@, ids@.len() as int),
    {
        let n = ids.len();
        let mut count: usize = 0;
        let mut k: usize = 0;
        while k < n
            invariant
                k <= n,
                n == ids@.len(),
                count <= k,
                count == asteroids_among(self.entities@, ids@, k as int),
                forall|k: int| 0 <= k < ids@.len() ==> (#[trigger] ids@[k]) < self.entities@.len(),
            decreases n - k,
        {
            if let Some(entity) = self.get_entity(ids[k]) {
                if is_asteroid_name(entity.name) {
                    count = count + 1;
                }
            }
            k = k + 1;
        }
        count
    }

    /// A large asteroid in slot `this_id` breaks.
    fn split_large(&mut self, this_id: usize)
        requires
            this_id < old(self).entities@.len(),
            old(self).entities@[this_id as int] is Some,
        ensures
            resolved(
                OnCollision::AsteroidL,
                old(self).registry(),
                old(self).entity_factory,
                this_id as int,
                Seq::empty(),
                final(self).registry(),
            ),
            final(self).same_setting(old(self)),
            final(self).entities@.len() >= old(self).entities@.len(),
    {
        let ghost before = self.registry();
        let ghost factory = self.entity_factory;
        if let Some(this) = self.get_entity(this_id) {
            let position = this.position;
            let a = self.entity_factory.make_asteroid_m(position.translate((LARGE_SPLIT_OFFSET, 0)));
            let b = self.entity_factory.make_asteroid_m(position.translate((-LARGE_SPLIT_OFFSET, 0)));
            let cloud = self.entity_factory.make_debris(position);
            self.push(a);
            self.push(b);
            self.push(cloud);
            self.kill(this_id);
            proof {
                assert(self.registry() =~= large_split(before, factory, this_id as int, a.physics->0, b.physics->0));
            }
        }
    }

    /// A medium asteroid in slot `this_id` breaks.
    fn split_medium(&mut self, this_id: usize)
        requires
            this_id < old(self).entities@.len(),
            old(self).entities@[this_id as int] is Some,
        ensures
            resolved(
                OnCollision::AsteroidM,
                old(self).registry(),
                old(self).entity_factory,
                this_id as int,
                Seq::empty(),
                final(self).registry(),
            ),
            final(self).same_setting(old(self)),
            final(self).entities@.len() >= old(self).entities@.len(),
    {
        let ghost before = self.registry();
        let ghost factory = self.entity_factory;
        if let Some(this) = self.get_entity(this_id) {
            let position = this.position;
            let a = self.entity_factory.make_asteroid_s(position.translate((MEDIUM_SPLIT_OFFSET, 0)));
            let b = self.entity_factory.make_asteroid_s(position.translate((-MEDIUM_SPLIT_OFFSET, 0)));
            self.push(a);
            self.push(b);
            self.kill(this_id);
            proof {
                assert(self.registry() =~= medium_split(before, factory, this_id as int, a.physics->0, b.physics->0));
            }
        }
    }

    /// The spaceship in slot `this_id` is hit by `other_ids`.
    fn hit_spaceship(&mut self, this_id: usize, other_ids: &Vec<usize>)
        requires
            this_id < old(self).entities@.len(),
            old(self).entities@[this_id as int] is Some,
            forall|k: int| 0 <= k < other_ids@.len() ==> (#[trigger] other_ids@[k]) < old(self).entities@.len(),
        ensures
            final(self).registry() == spaceship_hit(old(self).registry(), this_id as int, other_ids@),
            final(self).same_setting(old(self)),
            final(self).entities@.len() == old(self).entities@.len(),
    {
        let asteroids_number = self.count_asteroids_among(other_ids);
        let ghost before = self.registry();
        let mut dead = false;
        if let Some(this) = self.get_entity_mut(this_id) {
            if let Some(health) = &mut this.health {
                health.deal_damage(asteroids_number);
                dead = health.level == 0;
            }
        }
        if dead {
            self.kill(this_id);
        }
        proof {
            assert(self.registry() =~= spaceship_hit(before, this_id as int, other_ids@));
        }
    }

    /// The laser in slot `this_id` is part of a group with `other_ids`.
    fn hit_laser(&mut self, this_id: usize, other_ids: &Vec<usize>)
        requires
            this_id < old(self).entities@.len(),
            forall|k: int| 0 <= k < other_ids@.len() ==> (#[trigger] other_ids@[k]) < old(self).entities@.len(),
        ensures
            final(self).registry() == laser_hit(old(self).registry(), this_id as int, other_ids@),
            final(self).same_setting(old(self)),
            final(self).entities@.len() == old(self).entities@.len(),
    {
        let ghost before = self.registry();
        if self.count_asteroids_among(other_ids) > 0 {
            if self.score < usize::MAX {
                self.score = self.score + 1;
            }
            self.kill(this_id);
        }
        proof {
            assert(self.registry() =~= laser_hit(before, this_id as int, other_ids@));
        }
    }

    /// Lets the behavior of the entity in slot `this_id` act on a collision
    /// with the entities in the slots `other_ids`. The slot `this_id` must
    /// hold an entity, and all ids must be slots of the registry; a vacant
    /// slot among `other_ids` counts for nothing.
    pub fn on_collision(&mut self, behavior: OnCollision, this_id: usize, other_ids: &Vec<usize>)
        requires
            this_id < old(self).entities@.len(),
            old(self).entities@[this_id as int] is Some,
            forall|k: int| 0 <= k < other_ids@.len() ==> (#[trigger] other_ids@[k]) < old(self).entities@.len(),
        ensures
            resolved(
                behavior,
                old(self).registry(),
                old(self).entity_factory,
                this_id as int,
                other_ids@,
                final(self).registry(),
            ),
            final(self).same_setting(old(self)),
            final(self).entities@.len() >= old(self).entities@.len(),
    {
        match behavior {
            OnCollision::AsteroidL => self.split_large(this_id),
            OnCollision::AsteroidM => self.split_medium(this_id),
            OnCollision::AsteroidS => {
                self.kill(this_id);
                proof {
                    assert(self.registry() =~= small_hit(old(self).registry(), this_id as int));
                }
            },
            OnCollision::Spaceship => self.hit_spaceship(this_id, other_ids),
            OnCollision::Laser => self.hit_laser(this_id, other_ids),
        }
    }

    /// The collision shape of every slot's entity, placed where the entity
    /// is.
    pub fn collision_shapes(&self) -> (shapes: Vec<Option<Shape>>)
        ensures
            shapes@ == snapshot(self.entities@),
    {
        let n = self.entities.len();
        let mut shapes: Vec<Option<Shape>> = Vec::new();
        let mut id: usize = 0;
        while id < n
            invariant
                id <= n,
                n == self.entities@.len(),
                shapes@.len() == id,
                forall|k: int| 0 <= k < id ==> shapes@[k] == placed_shape(self.entities@[k]),
            decreases n - id,
        {
            let shape = match &self.entities[id] {
                Some(entity) => match &entity.shape {
                    Some(shape) => Some(shape.translate(entity.position.to_vector2())),
                    None => None,
                },
                None => None,
            };
            shapes.push(shape);
            id = id + 1;
        }
        assert(shapes@ =~= snapshot(self.entities@));
        shapes
    }

    /// The members of `group` other than `this_id`, in order.
    pub fn other_members(group: &Vec<usize>, this_id: usize) -> (others: Vec<usize>)
        ensures
            others@ == others_of(group@, this_id, group@.len() as int),
            forall|k: int| 0 <= k < others@.len() ==> group@.contains(#[trigger] others@[k]),
    {
        let n = group.len();
        let mut others: Vec<usize> = Vec::new();
        let mut k: usize = 0;
        while k < n
            invariant
                k <= n,
                n == group@.len(),
                others@ == others_of(group@, this_id, k as int),
                forall|j: int| 0 <= j < others@.len() ==> group@.contains(#[trigger] others@[j]),
            decreases n - k,
        {
            if group[k] != this_id {
                others.push(group[k]);
                assert(group@.contains(group@[k as int]));
            }
            k = k + 1;
        }
        others
    }

    /// The turn of member `m` of a collision group: if its slot still holds
    /// an entity with a collision behavior, the behavior acts on the other
    /// members of the group.
    fn resolve_member(&mut self, group: &Vec<usize>, m: usize)
        requires
            m < group@.len(),
            forall|k: int| 0 <= k < group@.len() ==> (#[trigger] group@[k]) < old(self).entities@.len(),
        ensures
            member_resolved(old(self).registry(), old(self).entity_factory, group@, m as int, final(self).registry()),
            final(self).same_setting(old(self)),
            final(self).entities@.len() >= old(self).entities@.len(),
    {
        let this_id = group[m];
        let other_ids = Self::other_members(group, this_id);
        let behavior = match self.get_entity(this_id) {
            Some(this) => match this.collision {
                Some(collision) => Some(collision.on_collision),
                None => None,
            },
            None => None,
        };
        if let Some(behavior) = behavior {
            self.on_collision(behavior, this_id, &other_ids);
        }
    }

    /// Resolves one collision group: each member has its turn, in order.
    fn resolve_group(&mut self, group: &Vec<usize>)
        requires
            forall|k: int| 0 <= k < group@.len() ==> (#[trigger] group@[k]) < old(self).entities@.len(),
        ensures
            group_resolved(
                old(self).registry(),
                old(self).entity_factory,
                group@,
                group@.len() as int,
                final(self).registry(),
            ),
            final(self).same_setting(old(self)),
            final(self).entities@.len() >= old(self).entities@.len(),
    {
        let ghost start = self.registry();
        let ghost factory = self.entity_factory;
        let n = group.len();
        let mut m: usize = 0;
        while m < n
            invariant
                m <= n,
                n == group@.len(),
                group_resolved(start, factory, group@, m as int, self.registry()),
                self.same_setting(old(self)),
                factory == self.entity_factory,
                self.entities@.len() >= old(self).entities@.len(),
                forall|k: int| 0 <= k < group@.len() ==> (#[trigger] group@[k]) < old(self).entities@.len(),
            decreases n - m,
        {
            let ghost between = self.registry();
            self.resolve_member(group, m);
            m = m + 1;
            assert(group_resolved(start, factory, group@, m - 1, between) && member_resolved(
                between,
                factory,
                group@,
                m - 1,
                self.registry(),
            ));
        }
    }

    /// The collision system: finds the groups of overlapping entities, then
    /// gives every member of every group its turn to react to the others of
    /// its group. The groups are found once, before any reaction; reactions
    /// kill and push entities while the pass goes on.
    pub fn collision_system(&mut self) -> (next: &mut Self)
        ensures
            collisions_resolved(old(self).registry(), old(self).entity_factory, next.registry()),
            next.same_setting(old(self)),
            next.entities@.len() >= old(self).entities@.len(),
            *final(self) == *final(next),
    {
        let ghost start = self.registry();
        let ghost factory = self.entity_factory;
        let ghost shapes = snapshot(self.entities@);
        let ghost found = find_collisions_spec(shapes);
        let groups = find_collisions(self.collision_shapes());
        let slots = self.entities.len();
        proof {
            lemma_groups(shapes, slots as int);
        }
        let n = groups.len();
        let mut g: usize = 0;
        while g < n
            invariant
                g <= n,
                n == groups@.len(),
                groups_view(groups@) == found,
                found == find_collisions_spec(shapes),
                shapes.len() == old(self).entities@.len(),
                forall|i: int, k: int|
                    0 <= i < found.len() && 0 <= k < found[i].len() ==> (#[trigger] found[i][k]) < shapes.len(),
                groups_resolved(start, factory, found, g as int, self.registry()),
                self.same_setting(old(self)),
                factory == self.entity_factory,
                self.entities@.len() >= old(self).entities@.len(),
            decreases n - g,
        {
            let ghost between = self.registry();
            let group = &groups[g];
            assert(group@ == found[g as int]);
            assert forall|k: int| 0 <= k < group@.len() implies (#[trigger] group@[k]) < self.entities@.len() by {
                assert(found[g as int][k] < shapes.len());
            }
            self.resolve_group(group);
            g = g + 1;
            assert(groups_resolved(start, factory, found, g - 1, between) && whole_group_resolved(
                between,
                factory,
                found[g - 1],
                self.registry(),
            ));
        }
        self
    }
}

} // verus!
