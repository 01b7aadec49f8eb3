//! Collision detection: which shapes of a list overlap which.
//!
//! Detection is the plain quadratic scan, and its grouping is deliberately
//! forward-only: the group seeded by slot `i` holds `i` and every later slot
//! that overlaps `i`. Groups are not merged, so a slot can appear in several
//! groups, and two members of a group need not overlap each other.

use vstd::prelude::*;
use crate::geometry::{overlaps_spec, Shape};

verus! {

/// The slots `j` with `i < j < n` that hold a shape overlapping the shape in
/// slot `i`, in ascending order.
pub open spec fn partners(shapes: Seq<Option<Shape>>, i: int, n: int) -> Seq<usize>
    decreases n - i,
{
    if n <= i + 1 {
        Seq::empty()
    } else {
        let earlier = partners(shapes, i, n - 1);
        if shapes[n - 1] is Some && overlaps_spec(shapes[i]->0, shapes[n - 1]->0) {
            earlier.push((n - 1) as usize)
        } else {
            earlier
        }
    }
}

/// Whether slot `i` seeds a group: it holds a shape that some later slot
/// overlaps.
pub open spec fn seeds_group(shapes: Seq<Option<Shape>>, i: int) -> bool {
    shapes[i] is Some && partners(shapes, i, shapes.len() as int).len() > 0
}

/// The group seeded by slot `i`: `i` itself, then its partners.
pub open spec fn group_of(shapes: Seq<Option<Shape>>, i: int) -> Seq<usize> {
    seq![i as usize] + partners(shapes, i, shapes.len() as int)
}

/// The groups seeded by the slots below `n`, in ascending order of the seed.
pub open spec fn collisions_upto(shapes: Seq<Option<Shape>>, n: int) -> Seq<Seq<usize>>
    decreases n,
{
    if n <= 0 {
        Seq::empty()
    } else {
        let earlier = collisions_upto(shapes, n - 1);
        if seeds_group(shapes, n - 1) {
            earlier.push(group_of(shapes, n - 1))
        } else {
            earlier
        }
    }
}

/// All collision groups of a list of optional shapes.
pub open spec fn find_collisions_spec(shapes: Seq<Option<Shape>>) -> Seq<Seq<usize>> {
    collisions_upto(shapes, shapes.len() as int)
}

/// The groups as sequences of sequences.
pub open spec fn groups_view(groups: Seq<Vec<usize>>) -> Seq<Seq<usize>> {
    Seq::new(groups.len(), |k: int| groups[k]@)
}

/// Every partner of `i` is a later slot below `n` that holds a shape
/// overlapping the one in slot `i`; partners are in ascending order.
pub proof fn lemma_partners(shapes: Seq<Option<Shape>>, i: int, n: int)
    requires
        0 <= i,
        n <= shapes.len() <= usize::MAX,
    ensures
        forall|k: int|
            0 <= k < partners(shapes, i, n).len() ==> {
                let j = #[trigger] partners(shapes, i, n)[k];
                &&& i < j < n
                &&& shapes[j as int] is Some
                &&& overlaps_spec(shapes[i]->0, shapes[j as int]->0)
            },
        forall|k: int, l: int|
            0 <= k < l < partners(shapes, i, n).len() ==> partners(shapes, i, n)[k] < partners(
                shapes,
                i,
                n,
            )[l],
        partners(shapes, i, n).len() <= if n > i {
            n - i - 1
        } else {
            0
        },
    decreases n - i,
{
    if n > i + 1 {
        lemma_partners(shapes, i, n - 1);
        let earlier = partners(shapes, i, n - 1);
        let all = partners(shapes, i, n);
        assert forall|k: int| 0 <= k < all.len() implies {
            let j = #[trigger] all[k];
            &&& i < j < n
            &&& shapes[j as int] is Some
            &&& overlaps_spec(shapes[i]->0, shapes[j as int]->0)
        } by {
            if k < earlier.len() {
                assert(all[k] == earlier[k]);
            }
        }
        assert forall|k: int, l: int| 0 <= k < l < all.len() implies all[k] < all[l] by {
            assert(all[k] == earlier[k]);
            if l < earlier.len() {
                assert(all[l] == earlier[l]);
            }
        }
    }
}

/// Every reported group has at least two members, starts with its seed, and
/// seeds ascend from group to group; every member is a slot of the list.
pub proof fn lemma_groups(shapes: Seq<Option<Shape>>, n: int)
    requires
        0 <= n <= shapes.len() <= usize::MAX,
    ensures
        collisions_upto(shapes, n).len() <= n,
        forall|g: int|
            0 <= g < collisions_upto(shapes, n).len() ==> {
                let group = #[trigger] collisions_upto(shapes, n)[g];
                &&& group.len() >= 2
                &&& 0 <= group[0] < n
                &&& group == group_of(shapes, group[0] as int)
                &&& seeds_group(shapes, group[0] as int)
                &&& forall|k: int| 0 <= k < group.len() ==> (#[trigger] group[k]) < shapes.len()
            },
        forall|g: int, h: int|
            0 <= g < h < collisions_upto(shapes, n).len() ==> collisions_upto(shapes, n)[g][0]
                < collisions_upto(shapes, n)[h][0],
    decreases n,
{
    if n > 0 {
        lemma_groups(shapes, n - 1);
        lemma_partners(shapes, n - 1, shapes.len() as int);
        let earlier = collisions_upto(shapes, n - 1);
        let all = collisions_upto(shapes, n);
        if seeds_group(shapes, n - 1) {
            let group = group_of(shapes, n - 1);
            let tail = partners(shapes, n - 1, shapes.len() as int);
            assert(group[0] == (n - 1) as usize);
            assert forall|k: int| 0 <= k < group.len() implies (#[trigger] group[k]) < shapes.len() by {
                if k > 0 {
                    assert(group[k] == tail[k - 1]);
                }
            }
            assert(all[earlier.len() as int] == group);
        }
        assert forall|g: int| 0 <= g < all.len() implies {
            let group = #[trigger] all[g];
            &&& group.len() >= 2
            &&& 0 <= group[0] < n
            &&& group == group_of(shapes, group[0] as int)
            &&& seeds_group(shapes, group[0] as int)
            &&& forall|k: int| 0 <= k < group.len() ==> (#[trigger] group[k]) < shapes.len()
        } by {
            if g < earlier.len() {
                assert(all[g] == earlier[g]);
            }
        }
        assert forall|g: int, h: int| 0 <= g < h < all.len() implies all[g][0] < all[h][0] by {
            assert(all[g] == earlier[g]);
            if h < earlier.len() {
                assert(all[h] == earlier[h]);
            }
        }
    }
}

/// Pairs a slot's index with its content, when the slot is filled.
pub fn to_option<T>(t: (usize, &Option<T>)) -> (r: Option<(usize, &T)>)
    ensures
        r == match *t.1 {
            Some(v) => Some((t.0, &v)),
            None => None,
        },
{
    match t.1 {
        Some(v) => Some((t.0, v)),
        None => None,
    }
}

/// Groups the overlapping shapes of a list. Each slot is either vacant or
/// holds a shape; a group lists the seed's slot first, then every later slot
/// whose shape overlaps the seed's. Only groups of at least two are
/// reported, in ascending order of the seed.
pub fn find_collisions(shapes: Vec<Option<Shape>>) -> (groups: Vec<Vec<usize>>)
    ensures
        groups_view(groups@) == find_collisions_spec(shapes@),
{
    let mut total_collisions: Vec<Vec<usize>> = Vec::new();
    let n = shapes.len();
    let mut i: usize = 0;
    while i < n
        invariant
            i <= n,
            n == shapes.len(),
            groups_view(total_collisions@) == collisions_upto(shapes@, i as int),
        decreases n - i,
    {
        if let Some((seed, shape)) = to_option((i, &shapes[i])) {
            let mut this_shape_collisions: Vec<usize> = Vec::new();
            this_shape_collisions.push(seed);
            let mut j: usize = i + 1;
            while j < n
                invariant
                    i < j <= n,
                    n == shapes.len(),
                    seed == i,
                    shapes@[i as int] == Some(*shape),
                    this_shape_collisions@ == seq![i] + partners(shapes@, i as int, j as int),
                decreases n - j,
            {
                if let Some((other, another_shape)) = to_option((j, &shapes[j])) {
                    if shape.overlaps(another_shape) {
                        this_shape_collisions.push(other);
                    }
                }
                j = j + 1;
                assert(this_shape_collisions@ =~= seq![i] + partners(shapes@, i as int, j as int));
            }
            if this_shape_collisions.len() > 1 {
                let ghost before = total_collisions@;
                total_collisions.push(this_shape_collisions);
                assert(groups_view(total_collisions@) =~= groups_view(before).push(
                    group_of(shapes@, i as int),
                ));
            }
        }
        i = i + 1;
    }
    total_collisions
}

} // verus!
