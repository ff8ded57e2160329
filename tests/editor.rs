use rust_engine::editor::Editor;
use rust_engine::gameobject::GameObject;
use rust_engine::handle::{EntityHandle, MeshHandle, ShaderHandle, TextureHandle};
use rust_engine::input::{Input, InputEvent, MouseButton};
use rust_engine::material::Material;
use rust_engine::renderer::RenderContext;
use rust_engine::resource_manager::ResourceContext;

type Ctx = ResourceContext<(), (), (), &'static str>;

fn gizmo(name: &str, colour: &'static str) -> GameObject<&'static str> {
    let mat = Material::new(ShaderHandle { index: 0 }, TextureHandle { index: 0 }, TextureHandle { index: 0 });
    GameObject::new(name.to_string(), MeshHandle { index: 0 }, mat, colour)
}

fn setup() -> (RenderContext, Ctx, Editor) {
    let mut rc = RenderContext::new(800, 600);
    let mut res: Ctx = ResourceContext::new();
    let ground = res.alloc_gameobject(gizmo("plane", "white"));
    rc.gameobjects.push(ground);
    let ed = Editor::new(&mut rc, &mut res, gizmo("Gizmo x", "red"), gizmo("Gizmo y", "green"), gizmo("Gizmo z", "blue"));
    (rc, res, ed)
}

fn click(input: &mut Input) {
    input.start_event_proc();
    input.process_events(&InputEvent::Mouse { button: MouseButton::Left, pressed: true });
}

#[test]
fn gizmos_become_overlays_in_render_list() {
    let (rc, res, _ed) = setup();
    assert_eq!(rc.gameobjects, vec![EntityHandle { index: 0 }, EntityHandle { index: 1 }, EntityHandle { index: 2 }, EntityHandle { index: 3 }]);
    assert!(!res.get_gameobject_ref(EntityHandle { index: 0 }).overlay);
    for (k, (name, colour)) in [("Gizmo x", "red"), ("Gizmo y", "green"), ("Gizmo z", "blue")].iter().enumerate() {
        let g = res.get_gameobject_ref(EntityHandle { index: k + 1 });
        assert!(g.overlay);
        assert_eq!(g.name, *name);
        assert_eq!(g.state, *colour);
    }
}

#[test]
fn gizmo_test() {
    let (_rc, _res, ed) = setup();
    assert!(!ed.is_gizmo(Some(EntityHandle { index: 0 })));
    assert!(ed.is_gizmo(Some(EntityHandle { index: 1 })));
    assert!(ed.is_gizmo(Some(EntityHandle { index: 2 })));
    assert!(ed.is_gizmo(Some(EntityHandle { index: 3 })));
    assert!(!ed.is_gizmo(Some(EntityHandle { index: 4 })));
}

#[test]
fn click_selects_picked_entity_but_not_gizmo() {
    let (mut rc, _res, mut ed) = setup();
    let mut input = Input::new();
    rc.picked_object = Some(EntityHandle { index: 0 });
    assert_eq!(ed.update(&rc, &input), None);
    click(&mut input);
    assert_eq!(ed.update(&rc, &input), Some(EntityHandle { index: 0 }));
    rc.picked_object = Some(EntityHandle { index: 2 });
    input.process_events(&InputEvent::Mouse { button: MouseButton::Left, pressed: false });
    click(&mut input);
    assert_eq!(ed.update(&rc, &input), Some(EntityHandle { index: 0 }));
    rc.picked_object = None;
    input.process_events(&InputEvent::Mouse { button: MouseButton::Left, pressed: false });
    click(&mut input);
    assert_eq!(ed.update(&rc, &input), Some(EntityHandle { index: 0 }));
}

#[test]
fn held_button_does_not_reselect() {
    let (mut rc, _res, mut ed) = setup();
    let mut input = Input::new();
    rc.picked_object = Some(EntityHandle { index: 0 });
    click(&mut input);
    assert_eq!(ed.update(&rc, &input), Some(EntityHandle { index: 0 }));
    input.start_event_proc();
    rc.picked_object = Some(EntityHandle { index: 9 });
    assert_eq!(ed.update(&rc, &input), Some(EntityHandle { index: 0 }));
}
