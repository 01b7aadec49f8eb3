//! The entity registry as a sequence of slots, each vacant or holding an
//! entity: what pushing and killing do to it, and what can be counted in
//! it.
//!
//! A slot's index is no lasting identity: once an entity is killed, the next
//! push takes its slot.

use vstd::prelude::*;
use crate::entity::Entity;
use crate::names::is_asteroid_name_spec;

verus! {

/// The slots of a registry.
pub type Slots = Seq<Option<Entity>>;

/// The first vacant slot below `n`, or `n` if all slots below `n` are
/// taken.
pub open spec fn first_vacant(slots: Slots, n: int) -> int
    decreases n,
{
    if n <= 0 {
        0
    } else {
        let earlier = first_vacant(slots, n - 1);
        if earlier < n - 1 {
            earlier
        } else if slots[n - 1] is None {
            n - 1
        } else {
            n
        }
    }
}

/// The slot that the next push fills: the first vacant one, or a new slot
/// at the end.
pub open spec fn next_slot(slots: Slots) -> int {
    first_vacant(slots, slots.len() as int)
}

/// The registry after `entity` is pushed: it takes the first vacant slot if
/// there is one, and a new slot at the end if not.
pub open spec fn pushed(slots: Slots, entity: Entity) -> Slots {
    let slot = next_slot(slots);
    if slot < slots.len() {
        slots.update(slot, Some(entity))
    } else {
        slots.push(Some(entity))
    }
}

/// The registry after the first `k` of `entities` are pushed, in order.
pub open spec fn pushed_all(slots: Slots, entities: Seq<Entity>, k: int) -> Slots
    decreases k,
{
    if k <= 0 {
        slots
    } else {
        pushed(pushed_all(slots, entities, k - 1), entities[k - 1])
    }
}

/// The registry after the entity in slot `index` is killed: the slot is
/// vacant.
pub open spec fn killed(slots: Slots, index: int) -> Slots {
    slots.update(index, None)
}

/// The slot holds an entity whose name marks an asteroid.
pub open spec fn holds_asteroid(slot: Option<Entity>) -> bool {
    slot is Some && is_asteroid_name_spec(slot->0.name@)
}

/// The slot holds an entity with the given name.
pub open spec fn holds_named(slot: Option<Entity>, name: Seq<char>) -> bool {
    slot is Some && slot->0.name@ == name
}

/// The slot holds an entity.
pub open spec fn holds_any(slot: Option<Entity>) -> bool {
    slot is Some
}

/// The number of slots below `n` that satisfy `wanted`.
pub open spec fn count_slots(slots: Slots, wanted: spec_fn(Option<Entity>) -> bool, n: int) -> nat
    decreases n,
{
    if n <= 0 {
        0
    } else {
        count_slots(slots, wanted, n - 1) + if wanted(slots[n - 1]) {
            1nat
        } else {
            0nat
        }
    }
}

/// The number of slots that satisfy `wanted`.
pub open spec fn count_all(slots: Slots, wanted: spec_fn(Option<Entity>) -> bool) -> nat {
    count_slots(slots, wanted, slots.len() as int)
}

/// The number of asteroids in the registry.
pub open spec fn asteroids_in(slots: Slots) -> nat {
    count_all(slots, |slot: Option<Entity>| holds_asteroid(slot))
}

/// The number of entities in the registry.
pub open spec fn entities_in(slots: Slots) -> nat {
    count_all(slots, |slot: Option<Entity>| holds_any(slot))
}

/// The number of entities with the given name in the registry.
pub open spec fn named_in(slots: Slots, name: Seq<char>) -> nat {
    count_all(slots, |slot: Option<Entity>| holds_named(slot, name))
}

/// The number of the first `n` of `ids` whose slot holds an asteroid.
pub open spec fn asteroids_among(slots: Slots, ids: Seq<usize>, n: int) -> nat
    decreases n,
{
    if n <= 0 {
        0
    } else {
        asteroids_among(slots, ids, n - 1) + if holds_asteroid(slots[ids[n - 1] as int]) {
            1nat
        } else {
            0nat
        }
    }
}

/// The first vacant slot: every slot before it is taken, and it is vacant
/// unless it lies at the end.
pub proof fn lemma_first_vacant(slots: Slots, n: int)
    requires
        0 <= n <= slots.len(),
    ensures
        0 <= first_vacant(slots, n) <= n,
        forall|k: int| 0 <= k < first_vacant(slots, n) ==> (#[trigger] slots[k]) is Some,
        first_vacant(slots, n) < n ==> slots[first_vacant(slots, n)] is None,
    decreases n,
{
    if n > 0 {
        lemma_first_vacant(slots, n - 1);
    }
}

/// A push keeps every entity where it is and adds one: no slot is lost,
/// and at most one slot is new.
pub proof fn lemma_pushed(slots: Slots, entity: Entity)
    ensures
        slots.len() <= pushed(slots, entity).len() <= slots.len() + 1,
        0 <= next_slot(slots) < pushed(slots, entity).len(),
        pushed(slots, entity)[next_slot(slots)] == Some(entity),
        forall|k: int|
            0 <= k < slots.len() && k != next_slot(slots) ==> #[trigger] pushed(slots, entity)[k]
                == slots[k],
        forall|k: int| 0 <= k < slots.len() && (#[trigger] slots[k]) is Some ==> k != next_slot(slots),
{
    lemma_first_vacant(slots, slots.len() as int);
}

/// Counting below `n` does not look at slots from `n` on.
pub proof fn lemma_count_prefix(a: Slots, b: Slots, wanted: spec_fn(Option<Entity>) -> bool, n: int)
    requires
        n <= a.len(),
        n <= b.len(),
        forall|k: int| 0 <= k < n ==> a[k] == b[k],
    ensures
        count_slots(a, wanted, n) == count_slots(b, wanted, n),
    decreases n,
{
    if n > 0 {
        lemma_count_prefix(a, b, wanted, n - 1);
    }
}

/// Replacing the content of one slot changes the count by what the old and
/// the new content contribute.
pub proof fn lemma_count_update(
    slots: Slots,
    wanted: spec_fn(Option<Entity>) -> bool,
    index: int,
    content: Option<Entity>,
    n: int,
)
    requires
        0 <= index < n <= slots.len(),
    ensures
        count_slots(slots.update(index, content), wanted, n) + (if wanted(slots[index]) {
            1nat
        } else {
            0nat
        }) == count_slots(slots, wanted, n) + (if wanted(content) {
            1nat
        } else {
            0nat
        }),
    decreases n,
{
    let changed = slots.update(index, content);
    if index == n - 1 {
        lemma_count_prefix(slots, changed, wanted, n - 1);
    } else {
        lemma_count_update(slots, wanted, index, content, n - 1);
    }
}

/// A new slot at the end adds what its content contributes.
pub proof fn lemma_count_push(slots: Slots, wanted: spec_fn(Option<Entity>) -> bool, content: Option<Entity>)
    ensures
        count_all(slots.push(content), wanted) == count_all(slots, wanted) + (if wanted(content) {
            1nat
        } else {
            0nat
        }),
{
    lemma_count_prefix(slots, slots.push(content), wanted, slots.len() as int);
}

/// A push adds one to the count if the entity is wanted, and nothing
/// otherwise, as long as a vacant slot is not wanted.
pub proof fn lemma_count_pushed(slots: Slots, wanted: spec_fn(Option<Entity>) -> bool, entity: Entity)
    requires
        !wanted(None),
    ensures
        count_all(pushed(slots, entity), wanted) == count_all(slots, wanted) + (if wanted(Some(entity)) {
            1nat
        } else {
            0nat
        }),
{
    lemma_first_vacant(slots, slots.len() as int);
    let slot = next_slot(slots);
    if slot < slots.len() {
        lemma_count_update(slots, wanted, slot, Some(entity), slots.len() as int);
    } else {
        lemma_count_push(slots, wanted, Some(entity));
    }
}

/// A kill takes one off the count if the killed entity was wanted, and
/// nothing otherwise, as long as a vacant slot is not wanted.
pub proof fn lemma_count_killed(slots: Slots, wanted: spec_fn(Option<Entity>) -> bool, index: int)
    requires
        0 <= index < slots.len(),
        !wanted(None),
    ensures
        count_all(killed(slots, index), wanted) + (if wanted(slots[index]) {
            1nat
        } else {
            0nat
        }) == count_all(slots, wanted),
{
    lemma_count_update(slots, wanted, index, None, slots.len() as int);
}

} // verus!
