//! The shaders an entity can be drawn with.

use vstd::prelude::*;

verus! {

/// Selects one of the render pipelines.
#[derive(Copy, Clone, PartialEq, Eq, Hash, PartialOrd, Ord, Debug, Structural)]
pub enum ShaderName {
    Model,
    Texture,
}

impl ShaderName {
    /// The place of the shader in the drawing order.
    pub open spec fn rank_spec(self) -> int {
        match self {
            ShaderName::Model => 0,
            ShaderName::Texture => 1,
        }
    }

    /// The place of the shader in the drawing order.
    pub fn rank(self) -> (r: u8)
        ensures
            r == self.rank_spec(),
    {
        match self {
            ShaderName::Model => 0,
            ShaderName::Texture => 1,
        }
    }
}

/// A shader, holding the pipeline `P` that the renderer made for it.
pub struct Shader<P> {
    pub pipeline: P,
}

/// The shaders of the game, one per [`ShaderName`].
pub struct Shaders<P> {
    pub texture: Shader<P>,
    pub model: Shader<P>,
}

impl<P> Shaders<P> {
    /// The shader that `name` selects.
    pub fn by_name(&self, name: ShaderName) -> (shader: &Shader<P>)
        ensures
            *shader == match name {
                ShaderName::Model => self.model,
                ShaderName::Texture => self.texture,
            },
    {
        match name {
            ShaderName::Model => &self.model,
            ShaderName::Texture => &self.texture,
        }
    }
}

} // verus!
