//! What the renderer is handed after a tick: the entities grouped by what
//! they are drawn with, their instances, and the lights.
//!
//! An entity that has entered the world is drawn nine times, on a lattice
//! of three by three worlds, so that the world looks endless across its
//! seams.

use vstd::prelude::*;
use crate::components::{Light, LightUniform, Renderable};
use crate::entity::{instance_spec, Entity, Instance};
use crate::gamestate::GameState;
use crate::geometry::{contains_point_spec, expand_spec, Rect};
use crate::names::same_text;
use crate::registry::Slots;
use crate::world::{world_rect_spec, World, COORD_LIMIT, EXTENT_LIMIT};

verus! {

/// The instance moved by `col` worlds to the right and `row` worlds up.
pub open spec fn shifted(instance: Instance, size: (int, int), col: int, row: int) -> Instance {
    Instance {
        position: (
            (instance.position.0 + size.0 * col) as i64,
            (instance.position.1 + size.1 * row) as i64,
            instance.position.2,
        ),
        rotation: instance.rotation,
    }
}

/// The instances an entity is drawn as: the entity alone before it has
/// entered the world; afterwards nine copies, row by row from the world
/// below to the world above, in each row from left to right.
pub open spec fn ghost_instances(size: (int, int), e: Entity) -> Seq<Instance> {
    if !e.entered_world {
        seq![instance_spec(e)]
    } else {
        Seq::new(9, |k: int| shifted(instance_spec(e), size, k % 3 - 1, k / 3 - 1))
    }
}

/// The lights that `light` casts from the first `n` of `instances`: one for
/// each instance inside `rect`.
pub open spec fn lights_from(light: Light, rect: Rect, instances: Seq<Instance>, n: int) -> Seq<LightUniform>
    decreases n,
{
    if n <= 0 {
        Seq::empty()
    } else {
        let earlier = lights_from(light, rect, instances, n - 1);
        let at = instances[n - 1].position;
        if contains_point_spec(rect, (at.0 as int, at.1 as int)) {
            earlier.push(light.uniform_spec((at.0, at.1)))
        } else {
            earlier
        }
    }
}

/// The lights of one entity: those of its instances that lie in the visible
/// rectangle grown by the light's radius.
pub open spec fn entity_lights(size: (int, int), e: Entity) -> Seq<LightUniform> {
    match e.light {
        Some(light) => lights_from(
            light,
            expand_spec(world_rect_spec(size), light.radius as int),
            ghost_instances(size, e),
            ghost_instances(size, e).len() as int,
        ),
        None => Seq::empty(),
    }
}

/// The lights of the entities in the slots below `n`, in the order of the
/// slots.
pub open spec fn lights_upto(size: (int, int), slots: Slots, n: int) -> Seq<LightUniform>
    decreases n,
{
    if n <= 0 {
        Seq::empty()
    } else {
        lights_upto(size, slots, n - 1) + match slots[n - 1] {
            Some(e) => entity_lights(size, e),
            None => Seq::empty(),
        }
    }
}

/// The order in which groups are drawn: by shader, then mesh, then
/// material.
pub open spec fn key_less(a: Renderable, b: Renderable) -> bool {
    ||| a.shader.rank_spec() < b.shader.rank_spec()
    ||| (a.shader == b.shader && a.mesh < b.mesh)
    ||| (a.shader == b.shader && a.mesh == b.mesh && a.material < b.material)
}

/// The entities in the slots below `n` that are drawn with `key`, in the
/// order of the slots.
pub open spec fn members(slots: Slots, key: Renderable, n: int) -> Seq<Entity>
    decreases n,
{
    if n <= 0 {
        Seq::empty()
    } else {
        let earlier = members(slots, key, n - 1);
        match slots[n - 1] {
            Some(e) => if e.renderable == Some(key) {
                earlier.push(e)
            } else {
                earlier
            },
            None => earlier,
        }
    }
}

/// Some slot below `n` holds an entity drawn with `key`.
pub open spec fn key_used(slots: Slots, key: Renderable, n: int) -> bool {
    exists|j: int| 0 <= j < n && (#[trigger] slots[j]) is Some && slots[j]->0.renderable == Some(key)
}

/// `keys` are the keys used in the slots below `n`, each once, in drawing
/// order.
pub open spec fn is_key_list(slots: Slots, keys: Seq<Renderable>, n: int) -> bool {
    &&& forall|a: int, b: int| 0 <= a < b < keys.len() ==> key_less(#[trigger] keys[a], #[trigger] keys[b])
    &&& forall|q: int| 0 <= q < keys.len() ==> key_used(slots, #[trigger] keys[q], n)
    &&& forall|j: int|
        0 <= j < n && (#[trigger] slots[j]) is Some && slots[j]->0.renderable is Some ==> keys.contains(
            slots[j]->0.renderable->0,
        )
}

/// The entities that are drawn alike.
pub struct RenderGroup {
    pub key: Renderable,
    pub entities: Vec<Entity>,
}

/// The instances that are drawn alike.
pub struct InstanceGroup {
    pub key: Renderable,
    pub instances: Vec<Instance>,
}

/// `groups` is the grouping of the renderable entities of `slots`: one
/// group for each key in use, in drawing order, holding the entities of
/// that key in the order of their slots.
pub open spec fn is_grouping(slots: Slots, groups: Seq<RenderGroup>) -> bool {
    &&& is_key_list(slots, Seq::new(groups.len(), |g: int| groups[g].key), slots.len() as int)
    &&& forall|g: int|
        0 <= g < groups.len() ==> (#[trigger] groups[g]).entities@ == members(
            slots,
            groups[g].key,
            slots.len() as int,
        )
}

/// The instances of the first `n` of `entities`, one entity after the
/// other.
pub open spec fn instances_of(size: (int, int), entities: Seq<Entity>, n: int) -> Seq<Instance>
    decreases n,
{
    if n <= 0 {
        Seq::empty()
    } else {
        instances_of(size, entities, n - 1) + ghost_instances(size, entities[n - 1])
    }
}

/// The state of the walk that cuts the registry into runs of equal names:
/// the runs that are closed, and the name and the entities of the open one.
pub struct Runs {
    pub closed: Seq<(&'static str, Seq<Entity>)>,
    pub name: &'static str,
    pub open: Seq<Entity>,
}

/// The walk after one more entity. An entity joins the open run if it has
/// the run's name, or if the run has no name yet, which it then takes;
/// otherwise the open run is closed and the entity opens a new one.
pub open spec fn run_step(runs: Runs, e: Entity) -> Runs {
    let name = if runs.name@.len() == 0 {
        e.name
    } else {
        runs.name
    };
    if name@ == e.name@ {
        Runs { closed: runs.closed, name, open: runs.open.push(e) }
    } else {
        Runs { closed: runs.closed.push((name, runs.open)), name: e.name, open: seq![e] }
    }
}

/// The walk after the slots below `n`. Vacant slots are passed over.
pub open spec fn runs_upto(slots: Slots, n: int) -> Runs
    decreases n,
{
    if n <= 0 {
        Runs { closed: Seq::empty(), name: "", open: Seq::empty() }
    } else {
        let earlier = runs_upto(slots, n - 1);
        match slots[n - 1] {
            Some(e) => run_step(earlier, e),
            None => earlier,
        }
    }
}

/// The runs of equal names in the registry, in order: the closed runs and
/// then the open one. A registry without entities has one empty run
/// without a name.
pub open spec fn runs_by_name(slots: Slots) -> Seq<(&'static str, Seq<Entity>)> {
    let runs = runs_upto(slots, slots.len() as int);
    runs.closed.push((runs.name, runs.open))
}

/// The runs as sequences.
pub open spec fn runs_view(groups: Seq<(&'static str, Vec<Entity>)>) -> Seq<(&'static str, Seq<Entity>)> {
    Seq::new(groups.len(), |g: int| (groups[g].0, groups[g].1@))
}

/// The drawing order is strict and total.
pub proof fn lemma_key_order(a: Renderable, b: Renderable, c: Renderable)
    ensures
        !key_less(a, a),
        key_less(a, b) && key_less(b, c) ==> key_less(a, c),
        !key_less(a, b) && a != b ==> key_less(b, a),
{
}

impl World {
    /// A coordinate moved by `step` worlds, where `step` is -1, 0 or 1.
    fn shift(base: i64, extent: i64, step: i64) -> (r: i64)
        requires
            -COORD_LIMIT <= base <= COORD_LIMIT,
            0 < extent <= EXTENT_LIMIT,
            -1 <= step <= 1,
        ensures
            r == base + extent * step,
    {
        assert(extent * step == if step == -1 {
            -extent
        } else if step == 0 {
            0
        } else {
            extent as int
        }) by (nonlinear_arith)
            requires
                -1 <= step <= 1,
        ;
        if step < 0 {
            base - extent
        } else if step == 0 {
            base
        } else {
            base + extent
        }
    }

    /// The instances an entity is drawn as.
    pub fn add_ghost_instances(&self, entity: &Entity) -> (instances: Vec<Instance>)
        ensures
            instances@ == ghost_instances(self.spec_size(), *entity),
    {
        let instance = entity.to_instance();
        if !entity.entered_world() {
            let mut instances: Vec<Instance> = Vec::new();
            instances.push(instance);
            assert(instances@ =~= seq![instance]);
            return instances;
        }
        let (w, h) = self.size();
        let (x, y) = entity.position().to_tuple();
        let mut instances: Vec<Instance> = Vec::new();
        let mut row: i64 = -1;
        while row <= 1
            invariant
                -1 <= row <= 2,
                0 < w <= EXTENT_LIMIT,
                0 < h <= EXTENT_LIMIT,
                -COORD_LIMIT <= x <= COORD_LIMIT,
                -COORD_LIMIT <= y <= COORD_LIMIT,
                instance == instance_spec(*entity),
                instance.position.0 == x,
                instance.position.1 == y,
                (w as int, h as int) == self.spec_size(),
                instances@.len() == (row + 1) * 3,
                forall|k: int|
                    0 <= k < instances@.len() ==> instances@[k] == shifted(
                        instance,
                        self.spec_size(),
                        k % 3 - 1,
                        k / 3 - 1,
                    ),
            decreases 2 - row,
        {
            let mut col: i64 = -1;
            while col <= 1
                invariant
                    -1 <= row <= 1,
                    -1 <= col <= 2,
                    0 < w <= EXTENT_LIMIT,
                    0 < h <= EXTENT_LIMIT,
                    -COORD_LIMIT <= x <= COORD_LIMIT,
                    -COORD_LIMIT <= y <= COORD_LIMIT,
                    instance.position.0 == x,
                    instance.position.1 == y,
                    (w as int, h as int) == self.spec_size(),
                    instances@.len() == (row + 1) * 3 + (col + 1),
                    forall|k: int|
                        0 <= k < instances@.len() ==> instances@[k] == shifted(
                            instance,
                            self.spec_size(),
                            k % 3 - 1,
                            k / 3 - 1,
                        ),
                decreases 2 - col,
            {
                let ghost_instance = Instance {
                    position: (Self::shift(x, w, col), Self::shift(y, h, row), instance.position.2),
                    rotation: instance.rotation,
                };
                instances.push(ghost_instance);
                col = col + 1;
            }
            row = row + 1;
        }
        assert(instances@ =~= ghost_instances(self.spec_size(), *entity));
        instances
    }
}

impl GameState {
    /// The lights of one entity.
    fn lights_of(&self, entity: &Entity) -> (lights: Vec<LightUniform>)
        ensures
            lights@ == entity_lights(self.world.spec_size(), *entity),
    {
        let mut lights: Vec<LightUniform> = Vec::new();
        if let Some(light) = entity.light {
            let mut rect = self.world.rect();
            rect.expand(light.radius);
            let instances = self.world.add_ghost_instances(entity);
            let n = instances.len();
            let mut k: usize = 0;
            while k < n
                invariant
                    k <= n,
                    n == instances@.len(),
                    lights@ == lights_from(light, rect, instances@, k as int),
                decreases n - k,
            {
                let at = instances[k].position;
                if rect.contains_point((at.0, at.1)) {
                    lights.push(light.uniform((at.0, at.1)));
                }
                k = k + 1;
            }
        }
        lights
    }

    /// The lights of all entities that carry one: for each of the entity's
    /// instances that lies in the visible rectangle grown by the light's
    /// radius, the light placed at that instance.
    pub fn light_uniforms(&self) -> (lights: Vec<LightUniform>)
        ensures
            lights@ == lights_upto(self.world.spec_size(), self.entities@, self.entities@.len() as int),
    {
        let mut lights: Vec<LightUniform> = Vec::new();
        let n = self.entities.len();
        let mut id: usize = 0;
        while id < n
            invariant
                id <= n,
                n == self.entities@.len(),
                lights@ == lights_upto(self.world.spec_size(), self.entities@, id as int),
            decreases n - id,
        {
            if let Some(entity) = &self.entities[id] {
                let mut found = self.lights_of(entity);
                let ghost earlier = lights@;
                lights.append(&mut found);
                assert(lights@ =~= earlier + entity_lights(self.world.spec_size(), *entity));
            } else {
                assert(lights@ + Seq::<LightUniform>::empty() =~= lights@);
            }
            id = id + 1;
        }
        lights
    }

    /// Whether `a` is drawn before `b`.
    fn key_before(a: &Renderable, b: &Renderable) -> (before: bool)
        ensures
            before == key_less(*a, *b),
    {
        let ra = a.shader.rank();
        let rb = b.shader.rank();
        ra < rb || (ra == rb && a.mesh < b.mesh) || (ra == rb && a.mesh == b.mesh && a.material < b.material)
    }

    /// Whether two keys are the same.
    fn key_same(a: &Renderable, b: &Renderable) -> (same: bool)
        ensures
            same == (*a == *b),
    {
        a.shader.rank() == b.shader.rank() && a.mesh == b.mesh && a.material == b.material
    }

    /// The keys in use, each once, in drawing order.
    fn render_keys(&self) -> (keys: Vec<Renderable>)
        ensures
            is_key_list(self.entities@, keys@, self.entities@.len() as int),
    {
        let mut keys: Vec<Renderable> = Vec::new();
        let n = self.entities.len();
        let mut id: usize = 0;
        while id < n
            invariant
                id <= n,
                n == self.entities@.len(),
                is_key_list(self.entities@, keys@, id as int),
            decreases n - id,
        {
            let ghost earlier = keys@;
            let renderable = match &self.entities[id] {
                Some(entity) => entity.renderable,
                None => None,
            };
            if let Some(key) = renderable {
                let count = keys.len();
                let mut at: usize = 0;
                while at < count && Self::key_before(&keys[at], &key)
                    invariant
                        at <= count,
                        count == keys@.len(),
                        forall|q: int| 0 <= q < at ==> key_less(#[trigger] keys@[q], key),
                    decreases count - at,
                {
                    at = at + 1;
                }
                let present = at < count && Self::key_same(&keys[at], &key);
                if !present {
                    keys.insert(at, key);
                    proof {
                        assert forall|a: int, b: int| 0 <= a < b < keys@.len() implies key_less(
                            #[trigger] keys@[a],
                            #[trigger] keys@[b],
                        ) by {
                            if b > at {
                                assert(keys@[b] == earlier[b - 1]);
                                if at < earlier.len() {
                                    lemma_key_order(key, earlier[at as int], earlier[b - 1]);
                                }
                            }
                            if a > at {
                                assert(keys@[a] == earlier[a - 1]);
                            }
                            if a < at {
                                assert(keys@[a] == earlier[a]);
                            }
                        }
                        assert(keys@[at as int] == key);
                    }
                } else {
                    assert(keys@[at as int] == key);
                }
                proof {
                    assert(self.entities@[id as int] is Some);
                    assert forall|q: int| 0 <= q < keys@.len() implies key_used(
                        self.entities@,
                        #[trigger] keys@[q],
                        id + 1,
                    ) by {
                        if !present && q == at {
                        } else {
                            let p = if !present && q > at {
                                q - 1
                            } else {
                                q
                            };
                            assert(keys@[q] == earlier[p]);
                            assert(key_used(self.entities@, earlier[p], id as int));
                            let j = choose|j: int|
                                0 <= j < id && (#[trigger] self.entities@[j]) is Some && self.entities@[j]->0.renderable
                                    == Some(earlier[p]);
                            assert(0 <= j < id + 1 && self.entities@[j] is Some);
                        }
                    }
                    assert forall|j: int|
                        0 <= j < id + 1 && (#[trigger] self.entities@[j]) is Some
                            && self.entities@[j]->0.renderable is Some implies keys@.contains(
                        self.entities@[j]->0.renderable->0,
                    ) by {
                        if j < id {
                            let wanted = self.entities@[j]->0.renderable->0;
                            assert(earlier.contains(wanted));
                            let p = choose|p: int| 0 <= p < earlier.len() && earlier[p] == wanted;
                            let q = if !present && p >= at {
                                p + 1
                            } else {
                                p
                            };
                            assert(keys@[q] == wanted);
                        }
                    }
                }
            } else {
                proof {
                    assert forall|q: int| 0 <= q < keys@.len() implies key_used(
                        self.entities@,
                        #[trigger] keys@[q],
                        id + 1,
                    ) by {
                        assert(key_used(self.entities@, keys@[q], id as int));
                        let j = choose|j: int|
                            0 <= j < id && (#[trigger] self.entities@[j]) is Some && self.entities@[j]->0.renderable
                                == Some(keys@[q]);
                        assert(0 <= j < id + 1 && self.entities@[j] is Some);
                    }
                }
            }
            id = id + 1;
        }
        keys
    }

    /// The entities drawn with `key`, in the order of their slots.
    fn members_of(&self, key: &Renderable) -> (found: Vec<Entity>)
        ensures
            found@ == members(self.entities@, *key, self.entities@.len() as int),
    {
        let mut found: Vec<Entity> = Vec::new();
        let n = self.entities.len();
        let mut id: usize = 0;
        while id < n
            invariant
                id <= n,
                n == self.entities@.len(),
                found@ == members(self.entities@, *key, id as int),
            decreases n - id,
        {
            if let Some(entity) = &self.entities[id] {
                if let Some(renderable) = &entity.renderable {
                    if Self::key_same(renderable, key) {
                        found.push(*entity);
                    }
                }
            }
            id = id + 1;
        }
        found
    }

    /// The renderable entities, grouped by what they are drawn with. The
    /// groups come in drawing order: by shader, then mesh, then material.
    pub fn entities_grouped(&self) -> (groups: Vec<RenderGroup>)
        ensures
            is_grouping(self.entities@, groups@),
    {
        let keys = self.render_keys();
        let mut groups: Vec<RenderGroup> = Vec::new();
        let n = keys.len();
        let mut g: usize = 0;
        while g < n
            invariant
                g <= n,
                n == keys@.len(),
                groups@.len() == g,
                forall|q: int|
                    0 <= q < g ==> (#[trigger] groups@[q]).key == keys@[q] && groups@[q].entities@ == members(
                        self.entities@,
                        keys@[q],
                        self.entities@.len() as int,
                    ),
            decreases n - g,
        {
            let key = keys[g];
            groups.push(RenderGroup { key, entities: self.members_of(&key) });
            g = g + 1;
        }
        assert(Seq::new(groups@.len(), |g: int| groups@[g].key) =~= keys@);
        groups
    }

    /// The instances of the renderable entities, grouped as the entities
    /// are: in each group the instances of its entities, one entity after
    /// the other.
    pub fn instances_grouped(&self) -> (groups: Vec<InstanceGroup>)
        ensures
            exists|by_entity: Seq<RenderGroup>|
                {
                    &&& #[trigger] is_grouping(self.entities@, by_entity)
                    &&& groups@.len() == by_entity.len()
                    &&& forall|g: int|
                        0 <= g < groups@.len() ==> (#[trigger] groups@[g]).key == by_entity[g].key
                            && groups@[g].instances@ == instances_of(
                            self.world.spec_size(),
                            by_entity[g].entities@,
                            by_entity[g].entities@.len() as int,
                        )
                },
    {
        let by_entity = self.entities_grouped();
        let mut groups: Vec<InstanceGroup> = Vec::new();
        let n = by_entity.len();
        let mut g: usize = 0;
        while g < n
            invariant
                g <= n,
                n == by_entity@.len(),
                groups@.len() == g,
                forall|q: int|
                    0 <= q < g ==> (#[trigger] groups@[q]).key == by_entity@[q].key && groups@[q].instances@
                        == instances_of(
                        self.world.spec_size(),
                        by_entity@[q].entities@,
                        by_entity@[q].entities@.len() as int,
                    ),
            decreases n - g,
        {
            let group = &by_entity[g];
            let mut instances: Vec<Instance> = Vec::new();
            let count = group.entities.len();
            let mut k: usize = 0;
            while k < count
                invariant
                    k <= count,
                    count == group.entities@.len(),
                    instances@ == instances_of(self.world.spec_size(), group.entities@, k as int),
                decreases count - k,
            {
                let mut ghosts = self.world.add_ghost_instances(&group.entities[k]);
                let ghost earlier = instances@;
                instances.append(&mut ghosts);
                assert(instances@ =~= earlier + ghost_instances(self.world.spec_size(), group.entities@[k as int]));
                k = k + 1;
            }
            groups.push(InstanceGroup { key: group.key, instances });
            g = g + 1;
        }
        assert(is_grouping(self.entities@, by_entity@));
        groups
    }

    /// The entities cut into runs of equal names, in the order of their
    /// slots.
    pub fn entities_grouped_by_name(&self) -> (groups: Vec<(&'static str, Vec<Entity>)>)
        ensures
            runs_view(groups@) == runs_by_name(self.entities@),
    {
        let mut groups: Vec<(&'static str, Vec<Entity>)> = Vec::new();
        let mut group: Vec<Entity> = Vec::new();
        let mut entity_name: &'static str = "";
        proof {
            reveal_strlit("");
        }
        let n = self.entities.len();
        let mut id: usize = 0;
        while id < n
            invariant
                id <= n,
                n == self.entities@.len(),
                runs_view(groups@) == runs_upto(self.entities@, id as int).closed,
                entity_name == runs_upto(self.entities@, id as int).name,
                group@ == runs_upto(self.entities@, id as int).open,
            decreases n - id,
        {
            if let Some(entity) = &self.entities[id] {
                if entity_name.unicode_len() == 0 {
                    entity_name = entity.name;
                }
                if same_text(entity_name, entity.name) {
                    group.push(*entity);
                } else {
                    let ghost earlier = groups@;
                    let ghost closing = group@;
                    groups.push((entity_name, group));
                    assert(runs_view(groups@) =~= runs_view(earlier).push((entity_name, closing)));
                    entity_name = entity.name;
                    group = Vec::new();
                    group.push(*entity);
                    assert(group@ =~= seq![*entity]);
                }
            }
            id = id + 1;
        }
        let ghost earlier = groups@;
        let ghost closing = group@;
        groups.push((entity_name, group));
        assert(runs_view(groups@) =~= runs_view(earlier).push((entity_name, closing)));
        groups
    }
}

} // verus!
