//! Scene entities.

use vstd::prelude::*;

use crate::handle::MeshHandle;
use crate::material::Material;

verus! {

/// A scene entity: its name, the mesh and material it is drawn with, and
/// whether it is an overlay (drawn last, after a depth clear, so that scene
/// geometry never hides it).
///
/// `state` is what the entity carries beyond that and the library never
/// reads: its transform, bounding box, colour and physics link.
pub struct GameObject<S> {
    pub name: String,
    pub model: MeshHandle,
    pub material: Material,
    pub overlay: bool,
    pub state: S,
}

impl<S> GameObject<S> {
    /// A non-overlay entity.
    pub fn new(name: String, model: MeshHandle, material: Material, state: S) -> (r: GameObject<S>)
        ensures
            r.name@ == name@,
            r.model == model,
            r.material == material,
            !r.overlay,
            r.state == state,
    {
        GameObject { name, model, material, overlay: false, state }
    }
}

} // verus!
