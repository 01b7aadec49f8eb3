//! The table of loaded assets, looked up by name.

use vstd::prelude::*;
use crate::names::same_text;

verus! {

/// A loaded mesh: its name and the material it is drawn with.
pub struct Mesh {
    pub name: String,
    pub material: usize,
}

/// A loaded material.
pub struct Material {
    pub name: String,
}

/// Everything the asset loader produced.
pub struct Resources {
    pub meshes: Vec<Mesh>,
    pub materials: Vec<Material>,
}

/// No mesh before index `n` has the given name.
pub open spec fn no_mesh_before(meshes: Seq<Mesh>, name: Seq<char>, n: int) -> bool {
    forall|k: int| 0 <= k < n ==> (#[trigger] meshes[k]).name@ != name
}

/// The index of the first mesh with the given name, if there is one.
pub open spec fn first_mesh_named(meshes: Seq<Mesh>, name: Seq<char>) -> Option<int> {
    if exists|i: int| is_first_mesh_named(meshes, name, i) {
        Some(choose|i: int| is_first_mesh_named(meshes, name, i))
    } else {
        None
    }
}

/// `i` is the index of the first mesh with the given name.
pub open spec fn is_first_mesh_named(meshes: Seq<Mesh>, name: Seq<char>, i: int) -> bool {
    &&& 0 <= i < meshes.len()
    &&& meshes[i].name@ == name
    &&& no_mesh_before(meshes, name, i)
}

/// There is at most one first mesh of a name.
pub proof fn lemma_first_mesh_unique(meshes: Seq<Mesh>, name: Seq<char>, i: int, j: int)
    requires
        is_first_mesh_named(meshes, name, i),
        is_first_mesh_named(meshes, name, j),
    ensures
        i == j,
{
    if i < j {
        assert(meshes[i].name@ != name);
    }
    if j < i {
        assert(meshes[j].name@ != name);
    }
}

impl Resources {
    /// A table without assets.
    pub fn empty() -> (r: Resources)
        ensures
            r.meshes@.len() == 0,
            r.materials@.len() == 0,
    {
        Resources { meshes: Vec::new(), materials: Vec::new() }
    }

    /// The first mesh with the given name, with its index.
    pub fn get_mesh_by_name(&self, name: &str) -> (found: Option<(usize, &Mesh)>)
        ensures
            match found {
                Some((id, mesh)) => is_first_mesh_named(self.meshes@, name@, id as int) && *mesh
                    == self.meshes@[id as int],
                None => no_mesh_before(self.meshes@, name@, self.meshes@.len() as int),
            },
            found.is_some() == first_mesh_named(self.meshes@, name@).is_some(),
            found.is_some() ==> found.unwrap().0 == first_mesh_named(self.meshes@, name@).unwrap(),
    {
        let n = self.meshes.len();
        let mut id: usize = 0;
        while id < n
            invariant
                id <= n,
                n == self.meshes@.len(),
                no_mesh_before(self.meshes@, name@, id as int),
            decreases n - id,
        {
            let mesh = &self.meshes[id];
            if same_text(mesh.name.as_str(), name) {
                proof {
                    assert(is_first_mesh_named(self.meshes@, name@, id as int));
                    let chosen = choose|i: int| is_first_mesh_named(self.meshes@, name@, i);
                    lemma_first_mesh_unique(self.meshes@, name@, id as int, chosen);
                }
                return Some((id, mesh));
            }
            id = id + 1;
        }
        proof {
            assert forall|i: int| !is_first_mesh_named(self.meshes@, name@, i) by {
                if 0 <= i < self.meshes@.len() {
                    assert(self.meshes@[i].name@ != name@);
                }
            }
        }
        None
    }
}

} // verus!
