use rust_engine::gameobject::GameObject;
use rust_engine::handle::{MeshHandle, ShaderHandle, TextureHandle};
use rust_engine::material::Material;
use rust_engine::resource_manager::ResourceContext;

type Ctx = ResourceContext<String, String, String, u32>;

fn material() -> Material {
    Material::new(ShaderHandle { index: 0 }, TextureHandle { index: 0 }, TextureHandle { index: 1 })
}

#[test]
fn handles_follow_call_order() {
    let mut res: Ctx = ResourceContext::new();
    for k in 0..5usize {
        let h = res.alloc_tex(format!("tex{}", k));
        assert_eq!(h.index, k);
        assert_eq!(res.get_tex_ref(h), &format!("tex{}", k));
    }
    for k in 0..5usize {
        assert_eq!(res.get_tex_ref(TextureHandle { index: k }), &format!("tex{}", k));
    }
}

#[test]
fn each_arena_counts_on_its_own() {
    let mut res: Ctx = ResourceContext::new();
    let t0 = res.alloc_tex("t0".to_string());
    let s0 = res.alloc_shader("s0".to_string());
    let t1 = res.alloc_tex("t1".to_string());
    let m0 = res.alloc_model("m0".to_string());
    let s1 = res.alloc_shader("s1".to_string());
    assert_eq!((t0.index, t1.index), (0, 1));
    assert_eq!((s0.index, s1.index), (0, 1));
    assert_eq!(m0.index, 0);
    let e0 = res.alloc_gameobject(GameObject::new("cube".to_string(), m0, material(), 7));
    assert_eq!(e0.index, 0);
}

#[test]
fn equal_indices_of_different_kinds_name_different_resources() {
    let mut res: Ctx = ResourceContext::new();
    let t = res.alloc_tex("brick texture".to_string());
    let m = res.alloc_model("sphere mesh".to_string());
    assert_eq!(t.index, m.index);
    assert_eq!(res.get_tex_ref(t), "brick texture");
    assert_eq!(res.get_model_ref(m), "sphere mesh");
}

#[test]
fn mutable_access_changes_only_that_slot() {
    let mut res: Ctx = ResourceContext::new();
    let a = res.alloc_shader("a".to_string());
    let b = res.alloc_shader("b".to_string());
    res.get_shader_ref_mut(b).push_str("2");
    assert_eq!(res.get_shader_ref(a), "a");
    assert_eq!(res.get_shader_ref(b), "b2");
    let m = res.alloc_model("m".to_string());
    let e = res.alloc_gameobject(GameObject::new("ball".to_string(), m, material(), 1));
    res.get_gameobject_ref_mut(e).state = 42;
    assert_eq!(res.get_gameobject_ref(e).state, 42);
    assert_eq!(res.get_gameobject_ref(e).name, "ball");
    assert!(!res.get_gameobject_ref(e).overlay);
    let t = res.alloc_tex("x".to_string());
    res.get_tex_ref_mut(t).push('!');
    assert_eq!(res.get_tex_ref(t), "x!");
    let m2 = res.alloc_model("n".to_string());
    res.get_model_ref_mut(m2).push('?');
    assert_eq!(res.get_model_ref(m2), "n?");
    assert_eq!(res.get_model_ref(m), "m");
}

#[test]
fn new_game_object_keeps_its_parts() {
    let g = GameObject::new("plane".to_string(), MeshHandle { index: 3 }, material(), 9u8);
    assert_eq!(g.name, "plane");
    assert_eq!(g.model, MeshHandle { index: 3 });
    assert_eq!(g.material, material());
    assert!(!g.overlay);
    assert_eq!(g.state, 9);
}

#[test]
fn glyph_lookup_misses_then_hits() {
    let mut res: Ctx = ResourceContext::new();
    assert_eq!(res.get_glyph('a', 14, 1), None);
    let t = res.alloc_tex("a".to_string());
    res.store_glyph('a', 14, 1, t);
    assert_eq!(res.get_glyph('a', 14, 1), Some(t));
    assert_eq!(res.get_glyph('a', 14, 2), None);
    assert_eq!(res.get_glyph('a', 20, 1), None);
    assert_eq!(res.get_glyph('b', 14, 1), None);
}

#[test]
fn glyph_store_replaces_earlier_entry() {
    let mut res: Ctx = ResourceContext::new();
    res.store_glyph('q', -3, i32::MIN, TextureHandle { index: 4 });
    res.store_glyph('q', -3, i32::MIN, TextureHandle { index: 9 });
    assert_eq!(res.get_glyph('q', -3, i32::MIN), Some(TextureHandle { index: 9 }));
    assert_eq!(res.get_glyph('q', -3, i32::MAX), None);
}

#[test]
fn glyph_rasterised_once_per_key() {
    let mut res: Ctx = ResourceContext::new();
    let first = res.glyph_texture('g', 17, 2, || "glyph g".to_string());
    let second = res.glyph_texture('g', 17, 2, || panic!("rasterised twice"));
    assert_eq!(first, second);
    assert_eq!(res.get_tex_ref(first), "glyph g");
    let next = res.alloc_tex("other".to_string());
    assert_eq!(next.index, 1);
}

#[test]
fn glyph_keys_differing_in_one_part_get_own_textures() {
    let mut res: Ctx = ResourceContext::new();
    let a = res.glyph_texture('x', 12, 1, || "x12r1".to_string());
    let b = res.glyph_texture('x', 13, 1, || "x13r1".to_string());
    let c = res.glyph_texture('x', 12, 2, || "x12r2".to_string());
    let d = res.glyph_texture('y', 12, 1, || "y12r1".to_string());
    assert_eq!([a.index, b.index, c.index, d.index], [0, 1, 2, 3]);
    assert_eq!(res.get_glyph('x', 13, 1), Some(b));
}

#[test]
fn entity_handles_ignore_calls_on_other_arenas() {
    let mut res: Ctx = ResourceContext::new();
    let m = res.alloc_model("m".to_string());
    let mut handles = Vec::new();
    for k in 0..3u32 {
        let t = res.alloc_tex(format!("t{}", k));
        res.store_glyph('z', k as i32, 1, t);
        let _ = res.get_glyph('z', 0, 1);
        res.alloc_shader(format!("s{}", k));
        handles.push(res.alloc_gameobject(GameObject::new(format!("e{}", k), m, material(), k)));
        res.alloc_model(format!("m{}", k));
    }
    assert_eq!(handles.iter().map(|h| h.index).collect::<Vec<_>>(), vec![0, 1, 2]);
    for (k, h) in handles.iter().enumerate() {
        assert_eq!(res.get_gameobject_ref(*h).state, k as u32);
    }
    assert_eq!(res.get_model_ref(m), "m");
    assert_eq!(res.gameobject_count(), 3);
}
