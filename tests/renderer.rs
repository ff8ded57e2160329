use rust_engine::gameobject::GameObject;
use rust_engine::handle::{EntityHandle, MeshHandle, ShaderHandle, TextureHandle};
use rust_engine::material::Material;
use rust_engine::picking::{picked_from, readback_for, Readback};
use rust_engine::renderer::{render, Pass, RenderContext};
use rust_engine::resource_manager::ResourceContext;

type Ctx = ResourceContext<(), (), (), ()>;

fn scene(overlays: &[bool]) -> (RenderContext, Ctx) {
    let mut res: Ctx = ResourceContext::new();
    let mut rc = RenderContext::new(640, 480);
    let mesh = MeshHandle { index: 0 };
    let mat = Material::new(ShaderHandle { index: 0 }, TextureHandle { index: 0 }, TextureHandle { index: 0 });
    for (k, &ov) in overlays.iter().enumerate() {
        let mut g = GameObject::new(format!("obj{}", k), mesh, mat, ());
        g.overlay = ov;
        let h = res.alloc_gameobject(g);
        rc.gameobjects.push(h);
    }
    (rc, res)
}

fn e(i: usize) -> EntityHandle {
    EntityHandle { index: i }
}

#[test]
fn new_context_is_ready_at_window_size() {
    let rc = RenderContext::new(1024, 768);
    assert_eq!((rc.width(), rc.height()), (1024, 768));
    assert_eq!(rc.picking_size, Some((1024, 768)));
    assert!(rc.gameobjects.is_empty());
    assert_eq!(rc.picked_object, None);
}

#[test]
fn resize_remakes_picking_attachments() {
    let mut rc = RenderContext::new(1024, 768);
    let size = rc.resized(800, 600);
    assert_eq!(size, (800, 600));
    assert_eq!((rc.width, rc.height), (800, 600));
    assert_eq!(rc.picking_size, Some((800, 600)));
}

#[test]
fn init_picking_buffers_sets_size_only() {
    let mut rc = RenderContext::new(10, 20);
    assert_eq!(rc.init_picking_buffers(30, 40), (30, 40));
    assert_eq!(rc.picking_size, Some((30, 40)));
    assert_eq!((rc.width, rc.height), (10, 20));
}

#[test]
fn overlay_entities_drawn_after_depth_clear() {
    let (mut rc, res) = scene(&[true, false, false, true]);
    let plan = render(&mut rc, &res, None, 0);
    assert_eq!(
        plan.passes,
        vec![
            Pass::ClearAll,
            Pass::Draw { entity: e(1), id: 2 },
            Pass::Draw { entity: e(2), id: 3 },
            Pass::ClearDepth,
            Pass::Draw { entity: e(0), id: 1 },
            Pass::Draw { entity: e(3), id: 4 },
        ]
    );
}

#[test]
fn overlapping_overlay_and_scene_entity() {
    let (mut rc, res) = scene(&[true, false]);
    let plan = render(&mut rc, &res, Some((5, 5)), 0);
    let clear = plan.passes.iter().position(|p| *p == Pass::ClearDepth).unwrap();
    let scene_draw = plan.passes.iter().position(|p| *p == Pass::Draw { entity: e(1), id: 2 }).unwrap();
    let overlay_draw = plan.passes.iter().position(|p| *p == Pass::Draw { entity: e(0), id: 1 }).unwrap();
    assert!(scene_draw < clear && clear < overlay_draw);
}

#[test]
fn empty_scene_plans_only_clears() {
    let (mut rc, res) = scene(&[]);
    let plan = render(&mut rc, &res, Some((0, 0)), 0);
    assert_eq!(plan.passes, vec![Pass::ClearAll, Pass::ClearDepth]);
    assert_eq!(plan.readback, Readback::CopyPixel { left: 0, bottom: 479 });
}

#[test]
fn pick_round_trip_next_frame() {
    let (mut rc, res) = scene(&[false, false, true]);
    let plan = render(&mut rc, &res, Some((100, 200)), 0);
    assert_eq!(rc.picked_object, None);
    assert_eq!(plan.readback, Readback::CopyPixel { left: 100, bottom: 279 });
    // the ID pass wrote entity 1's ID (2) under the cursor
    let id = match plan.passes[2] {
        Pass::Draw { entity, id } => {
            assert_eq!(entity, e(1));
            id
        }
        _ => panic!("expected a draw"),
    };
    render(&mut rc, &res, Some((100, 200)), id);
    assert_eq!(rc.picked_object, Some(e(1)));
    render(&mut rc, &res, Some((100, 200)), 0);
    assert_eq!(rc.picked_object, None);
}

#[test]
fn picked_value_past_list_picks_nothing() {
    let list = vec![e(4), e(7)];
    assert_eq!(picked_from(&list, 0), None);
    assert_eq!(picked_from(&list, 1), Some(e(4)));
    assert_eq!(picked_from(&list, 2), Some(e(7)));
    assert_eq!(picked_from(&list, 3), None);
    assert_eq!(picked_from(&list, u32::MAX), None);
}

#[test]
fn cursor_outside_viewport_writes_sentinel() {
    assert_eq!(readback_for(None, 640, 480), Readback::WriteSentinel);
    assert_eq!(readback_for(Some((-1, 10)), 640, 480), Readback::WriteSentinel);
    assert_eq!(readback_for(Some((10, -1)), 640, 480), Readback::WriteSentinel);
    assert_eq!(readback_for(Some((640, 10)), 640, 480), Readback::WriteSentinel);
    assert_eq!(readback_for(Some((10, 480)), 640, 480), Readback::WriteSentinel);
    assert_eq!(readback_for(Some((0, 0)), 0, 0), Readback::WriteSentinel);
}

#[test]
fn cursor_corners_inside_viewport() {
    assert_eq!(readback_for(Some((0, 0)), 640, 480), Readback::CopyPixel { left: 0, bottom: 479 });
    assert_eq!(readback_for(Some((639, 479)), 640, 480), Readback::CopyPixel { left: 639, bottom: 0 });
}

#[test]
fn render_after_resize_uses_new_bounds() {
    let (mut rc, res) = scene(&[false]);
    rc.resized(100, 50);
    let plan = render(&mut rc, &res, Some((120, 10)), 0);
    assert_eq!(plan.readback, Readback::WriteSentinel);
    let plan = render(&mut rc, &res, Some((99, 49)), 0);
    assert_eq!(plan.readback, Readback::CopyPixel { left: 99, bottom: 0 });
}

#[test]
fn find_game_object_by_name() {
    let (rc, res) = scene(&[false, false, false]);
    assert_eq!(rc.get_gameobject(&res, "obj2".to_string()), e(2));
    assert_eq!(rc.get_gameobject(&res, "obj0".to_string()), e(0));
    assert_eq!(rc.get_gameobject(&res, "missing".to_string()), e(0));
}
