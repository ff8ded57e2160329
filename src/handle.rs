//! Typed handles into the four arenas of the resource context.
//!
//! All four share one representation, an index, but are distinct types, so a
//! texture handle can never be passed where a mesh handle is expected.

use vstd::prelude::*;

verus! {

/// A handle to a texture in the resource context.
#[derive(Clone, Copy, PartialEq, Eq, Structural, Debug, Hash)]
pub struct TextureHandle {
    pub index: usize,
}

/// A handle to a compiled shader program in the resource context.
#[derive(Clone, Copy, PartialEq, Eq, Structural, Debug, Hash)]
pub struct ShaderHandle {
    pub index: usize,
}

/// A handle to a mesh (model) in the resource context.
#[derive(Clone, Copy, PartialEq, Eq, Structural, Debug, Hash)]
pub struct MeshHandle {
    pub index: usize,
}

/// A handle to a scene entity in the resource context.
#[derive(Clone, Copy, PartialEq, Eq, Structural, Debug, Hash)]
pub struct EntityHandle {
    pub index: usize,
}

} // verus!
