//! The resource references of a material.

use vstd::prelude::*;

use crate::handle::{ShaderHandle, TextureHandle};

verus! {

/// The resources a material draws with: a shader program, a diffuse texture
/// and a normal map. Materials are small values copied into each draw; the
/// numeric appearance (base colour, UV tiling) travels with the entity's
/// state.
#[derive(Clone, Copy, PartialEq, Eq, Structural, Debug)]
pub struct Material {
    pub shader_prog: ShaderHandle,
    pub diffuse_tex: TextureHandle,
    pub normal_tex: TextureHandle,
}

impl Material {
    pub fn new(shader_prog: ShaderHandle, diffuse_tex: TextureHandle, normal_tex: TextureHandle) -> (r:
        Material)
        ensures
            r.shader_prog == shader_prog,
            r.diffuse_tex == diffuse_tex,
            r.normal_tex == normal_tex,
    {
        Material { shader_prog, diffuse_tex, normal_tex }
    }
}

} // verus!
