//! The scene editor: three overlay gizmos (one per axis) and the selection
//! of an entity by clicking on it.

use vstd::prelude::*;

use crate::gameobject::GameObject;
use crate::handle::EntityHandle;
use crate::input::{Input, MouseButton, mouse_slot};
use crate::renderer::RenderContext;
use crate::resource_manager::ResourceContext;

verus! {

/// `g` made an overlay entity, everything else kept.
pub open spec fn as_overlay<S>(g: GameObject<S>) -> GameObject<S> {
    GameObject { name: g.name, model: g.model, material: g.material, overlay: true, state: g.state }
}

/// The editor's gizmos and the selected entity.
pub struct Editor {
    gizmo_x: EntityHandle,
    gizmo_y: EntityHandle,
    gizmo_z: EntityHandle,
    selected_obj: Option<EntityHandle>,
}

impl Editor {
    /// The x, y and z gizmos.
    pub closed spec fn gizmos(&self) -> (EntityHandle, EntityHandle, EntityHandle) {
        (self.gizmo_x, self.gizmo_y, self.gizmo_z)
    }

    /// The selected entity, if any.
    pub closed spec fn selected(&self) -> Option<EntityHandle> {
        self.selected_obj
    }

    /// Whether `h` is one of the gizmos.
    pub open spec fn is_gizmo_spec(&self, h: EntityHandle) -> bool {
        h == self.gizmos().0 || h == self.gizmos().1 || h == self.gizmos().2
    }

    /// Sets up the editor: the three gizmo entities are made overlays,
    /// allocated in the order x, y, z and appended to the render list.
    /// Nothing is selected.
    pub fn new<Tex, Prog, Mdl, S>(
        rc: &mut RenderContext,
        res: &mut ResourceContext<Tex, Prog, Mdl, S>,
        gizmo_x: GameObject<S>,
        gizmo_y: GameObject<S>,
        gizmo_z: GameObject<S>,
    ) -> (r: Editor)
        ensures
            ({
                let n = old(res).gameobjects().len();
                let (x, y, z) = r.gizmos();
                &&& x.index == n && y.index == n + 1 && z.index == n + 2
                &&& final(res).gameobjects() == old(res).gameobjects().push(as_overlay(gizmo_x)).push(
                    as_overlay(gizmo_y),
                ).push(as_overlay(gizmo_z))
                &&& final(rc).gameobjects@ == old(rc).gameobjects@.push(x).push(y).push(z)
            }),
            r.selected() is None,
            final(res).textures() == old(res).textures(),
            final(res).shaders() == old(res).shaders(),
            final(res).models() == old(res).models(),
            final(res).glyphs() == old(res).glyphs(),
            final(rc).picked_object == old(rc).picked_object,
            final(rc).viewport() == old(rc).viewport(),
            final(rc).picking_attachments() == old(rc).picking_attachments(),
    {
        let mut gizmo_x = gizmo_x;
        let mut gizmo_y = gizmo_y;
        let mut gizmo_z = gizmo_z;
        gizmo_x.overlay = true;
        gizmo_y.overlay = true;
        gizmo_z.overlay = true;
        let x = res.alloc_gameobject(gizmo_x);
        let y = res.alloc_gameobject(gizmo_y);
        let z = res.alloc_gameobject(gizmo_z);
        rc.gameobjects.push(x);
        rc.gameobjects.push(y);
        rc.gameobjects.push(z);
        Editor { gizmo_x: x, gizmo_y: y, gizmo_z: z, selected_obj: None }
    }

    /// The x, y and z gizmos.
    pub fn gizmo_handles(&self) -> (r: (EntityHandle, EntityHandle, EntityHandle))
        ensures
            r == self.gizmos(),
    {
        (self.gizmo_x, self.gizmo_y, self.gizmo_z)
    }

    /// Whether the entity `id` is one of the gizmos.
    pub fn is_gizmo(&self, id: Option<EntityHandle>) -> (r: bool)
        requires
            id is Some,
        ensures
            r == self.is_gizmo_spec(id->0),
    {
        let h = id.unwrap();
        h == self.gizmo_x || h == self.gizmo_y || h == self.gizmo_z
    }

    /// A left click selects the picked entity, unless it is a gizmo or
    /// nothing is picked. Returns the selected entity, which the gizmos
    /// follow.
    pub fn update(&mut self, rc: &RenderContext, input: &Input) -> (r: Option<EntityHandle>)
        requires
            input.wf(),
        ensures
            final(self).gizmos() == old(self).gizmos(),
            final(self).selected() == (if input.mouse()[mouse_slot(MouseButton::Left) as int]
                && !input.last_mouse()[mouse_slot(MouseButton::Left) as int] && rc.picked_object is Some
                && !old(self).is_gizmo_spec(rc.picked_object->0) {
                rc.picked_object
            } else {
                old(self).selected()
            }),
            r == final(self).selected(),
    {
        if input.get_mouse_down(MouseButton::Left) && rc.picked_object.is_some() {
            if !self.is_gizmo(rc.picked_object) {
                self.selected_obj = rc.picked_object;
            }
        }
        self.selected_obj
    }
}

} // verus!
