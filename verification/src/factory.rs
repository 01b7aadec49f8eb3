//! The entity factory: the recipes of the game, bound to the meshes and
//! materials that the renderer draws them with.

use vstd::prelude::*;
use crate::components::{is_random_physics, Renderable};
use crate::entity::{
    asteroid_l_spec, asteroid_m_spec, asteroid_s_spec, debris_spec, laser_spec, spaceship_spec, Entity,
    ASTEROID_SPIN, LARGE_ASTEROID_SPEED, SMALL_ASTEROID_SPEED,
};
use crate::resource::{first_mesh_named, Mesh, Resources};
use crate::rotation::Rotation;
use crate::shaders::ShaderName;
use crate::world::WorldPosition;

verus! {

/// A mesh that a recipe asks for is not among the loaded assets.
#[derive(Clone, Copy, Debug)]
pub struct MissingMesh {
    pub name: &'static str,
}

/// What each recipe is drawn with. A factory without renderables makes
/// entities that are simulated and never drawn.
#[derive(Clone, Copy, Debug)]
pub struct EntityFactory {
    pub spaceship: Option<Renderable>,
    pub asteroid_l: Option<Renderable>,
    pub asteroid_m: Option<Renderable>,
    pub asteroid_s: Option<Renderable>,
    pub laser: Option<Renderable>,
    pub debris: Option<Renderable>,
}

/// What the mesh called `name` is drawn with under `shader`, if a mesh of
/// that name is loaded: the first such mesh and its material.
pub open spec fn renderable_spec(meshes: Seq<Mesh>, shader: ShaderName, name: Seq<char>) -> Option<
    Renderable,
> {
    match first_mesh_named(meshes, name) {
        Some(id) => Some(Renderable { shader, mesh: id as usize, material: meshes[id].material }),
        None => None,
    }
}

/// The factory in which every recipe is bound to the mesh of its name.
pub open spec fn bound_factory(meshes: Seq<Mesh>) -> EntityFactory {
    EntityFactory {
        spaceship: renderable_spec(meshes, ShaderName::Model, "Spaceship"@),
        asteroid_l: renderable_spec(meshes, ShaderName::Model, "Asteroid_L"@),
        asteroid_m: renderable_spec(meshes, ShaderName::Model, "Asteroid_M"@),
        asteroid_s: renderable_spec(meshes, ShaderName::Model, "Asteroid_S"@),
        laser: renderable_spec(meshes, ShaderName::Model, "Laser"@),
        debris: renderable_spec(meshes, ShaderName::Texture, "Debris"@),
    }
}

/// The name of the first recipe, in the order of the fields, whose mesh is
/// not loaded.
pub open spec fn first_missing(meshes: Seq<Mesh>) -> Option<Seq<char>> {
    let f = bound_factory(meshes);
    if f.spaceship is None {
        Some("Spaceship"@)
    } else if f.asteroid_l is None {
        Some("Asteroid_L"@)
    } else if f.asteroid_m is None {
        Some("Asteroid_M"@)
    } else if f.asteroid_s is None {
        Some("Asteroid_S"@)
    } else if f.laser is None {
        Some("Laser"@)
    } else if f.debris is None {
        Some("Debris"@)
    } else {
        None
    }
}

/// The entity drawn with `renderable`.
pub open spec fn rendered(e: Entity, renderable: Option<Renderable>) -> Entity {
    Entity { renderable, ..e }
}

impl EntityFactory {
    /// A factory whose entities are not drawn.
    pub fn empty() -> (f: EntityFactory)
        ensures
            f == (EntityFactory {
                spaceship: None,
                asteroid_l: None,
                asteroid_m: None,
                asteroid_s: None,
                laser: None,
                debris: None,
            }),
    {
        EntityFactory { spaceship: None, asteroid_l: None, asteroid_m: None, asteroid_s: None, laser: None, debris: None }
    }

    /// What the mesh called `name` is drawn with.
    fn renderable(resources: &Resources, shader: ShaderName, name: &'static str) -> (r: Result<
        Renderable,
        MissingMesh,
    >)
        ensures
            match r {
                Ok(found) => renderable_spec(resources.meshes@, shader, name@) == Some(found),
                Err(missing) => renderable_spec(resources.meshes@, shader, name@) is None && missing.name
                    == name,
            },
    {
        match resources.get_mesh_by_name(name) {
            Some((id, mesh)) => Ok(Renderable { shader, mesh: id, material: mesh.material }),
            None => Err(MissingMesh { name }),
        }
    }

    /// Binds every recipe to the mesh of its name. Succeeds exactly when
    /// all six meshes are loaded; otherwise names the first that is not.
    pub fn new(resources: &Resources) -> (r: Result<EntityFactory, MissingMesh>)
        ensures
            match r {
                Ok(factory) => first_missing(resources.meshes@) is None && factory == bound_factory(
                    resources.meshes@,
                ),
                Err(missing) => first_missing(resources.meshes@) == Some(missing.name@),
            },
    {
        let spaceship = match Self::renderable(resources, ShaderName::Model, "Spaceship") {
            Ok(r) => r,
            Err(e) => { return Err(e); },
        };
        let asteroid_l = match Self::renderable(resources, ShaderName::Model, "Asteroid_L") {
            Ok(r) => r,
            Err(e) => { return Err(e); },
        };
        let asteroid_m = match Self::renderable(resources, ShaderName::Model, "Asteroid_M") {
            Ok(r) => r,
            Err(e) => { return Err(e); },
        };
        let asteroid_s = match Self::renderable(resources, ShaderName::Model, "Asteroid_S") {
            Ok(r) => r,
            Err(e) => { return Err(e); },
        };
        let laser = match Self::renderable(resources, ShaderName::Model, "Laser") {
            Ok(r) => r,
            Err(e) => { return Err(e); },
        };
        let debris = match Self::renderable(resources, ShaderName::Texture, "Debris") {
            Ok(r) => r,
            Err(e) => { return Err(e); },
        };
        Ok(
            EntityFactory {
                spaceship: Some(spaceship),
                asteroid_l: Some(asteroid_l),
                asteroid_m: Some(asteroid_m),
                asteroid_s: Some(asteroid_s),
                laser: Some(laser),
                debris: Some(debris),
            },
        )
    }

    /// The entity drawn with `renderable`.
    fn render(e: Entity, renderable: Option<Renderable>) -> (r: Entity)
        ensures
            r == rendered(e, renderable),
    {
        let mut e = e;
        e.renderable = renderable;
        e
    }

    /// A small asteroid with random velocity and spin.
    pub fn make_asteroid_s(&self, position: WorldPosition) -> (e: Entity)
        ensures
            e.physics is Some,
            is_random_physics(e.physics->0, SMALL_ASTEROID_SPEED as int, ASTEROID_SPIN as int),
            e == rendered(asteroid_s_spec(position, e.physics->0), self.asteroid_s),
    {
        Self::render(Entity::make_asteroid_s(position), self.asteroid_s)
    }

    /// A medium asteroid with random velocity and spin.
    pub fn make_asteroid_m(&self, position: WorldPosition) -> (e: Entity)
        ensures
            e.physics is Some,
            is_random_physics(e.physics->0, SMALL_ASTEROID_SPEED as int, ASTEROID_SPIN as int),
            e == rendered(asteroid_m_spec(position, e.physics->0), self.asteroid_m),
    {
        Self::render(Entity::make_asteroid_m(position), self.asteroid_m)
    }

    /// A large asteroid with random velocity and spin.
    pub fn make_asteroid_l(&self, position: WorldPosition) -> (e: Entity)
        ensures
            e.physics is Some,
            is_random_physics(e.physics->0, LARGE_ASTEROID_SPEED as int, ASTEROID_SPIN as int),
            e == rendered(asteroid_l_spec(position, e.physics->0), self.asteroid_l),
    {
        Self::render(Entity::make_asteroid_l(position), self.asteroid_l)
    }

    /// The spaceship.
    pub fn make_spaceship(&self, position: WorldPosition, rotation_angle: i64) -> (e: Entity)
        ensures
            e == rendered(spaceship_spec(position, rotation_angle), self.spaceship),
    {
        Self::render(Entity::make_spaceship(position, rotation_angle), self.spaceship)
    }

    /// A laser fired at `position` along `rotation`.
    pub fn make_laser(&self, position: WorldPosition, rotation: Rotation, relative_speed: (i64, i64)) -> (e:
        Entity)
        ensures
            e == rendered(laser_spec(position, rotation, relative_speed), self.laser),
    {
        Self::render(Entity::make_laser(position, rotation, relative_speed), self.laser)
    }

    /// A cloud of debris.
    pub fn make_debris(&self, position: WorldPosition) -> (e: Entity)
        ensures
            e == rendered(debris_spec(position), self.debris),
    {
        Self::render(Entity::make_debris(position), self.debris)
    }
}

} // verus!
