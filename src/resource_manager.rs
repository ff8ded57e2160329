//! The resource context: four append-only arenas (textures, shader programs,
//! meshes, scene entities) behind typed handles, and the glyph cache that
//! maps (character, font size, font resolution) to a rasterised texture.

use std::collections::HashMap;
use vstd::prelude::*;

use crate::arena::Arena;
use crate::gameobject::GameObject;
use crate::handle::{EntityHandle, MeshHandle, ShaderHandle, TextureHandle};

verus! {

broadcast use vstd::std_specs::hash::group_hash_axioms;

/// What identifies a cached glyph: the character, the font point size and
/// the font raster resolution.
pub type GlyphKey = (char, i32, i32);

/// The integer that the glyph cache files a glyph under: the three parts of
/// the key in disjoint bit ranges, so that distinct keys never collide.
pub open spec fn glyph_code(k: GlyphKey) -> int {
    (k.0 as u32) as int * 0x1_0000_0000_0000_0000 + (k.1 as int + 0x8000_0000) * 0x1_0000_0000 + (
    k.2 as int + 0x8000_0000)
}

proof fn lemma_glyph_code_injective(a: GlyphKey, b: GlyphKey)
    requires
        glyph_code(a) == glyph_code(b),
    ensures
        a == b,
{
    let ha = (a.0 as u32) as int;
    let hb = (b.0 as u32) as int;
    let ma = a.1 as int + 0x8000_0000;
    let mb = b.1 as int + 0x8000_0000;
    let la = a.2 as int + 0x8000_0000;
    let lb = b.2 as int + 0x8000_0000;
    assert(0 <= ma < 0x1_0000_0000 && 0 <= mb < 0x1_0000_0000);
    assert(0 <= la < 0x1_0000_0000 && 0 <= lb < 0x1_0000_0000);
    assert(ma * 0x1_0000_0000 + la == mb * 0x1_0000_0000 + lb ==> ma == mb) by (nonlinear_arith)
        requires
            0 <= ma < 0x1_0000_0000,
            0 <= mb < 0x1_0000_0000,
            0 <= la < 0x1_0000_0000,
            0 <= lb < 0x1_0000_0000,
    ;
    assert(ha * 0x1_0000_0000_0000_0000 + (ma * 0x1_0000_0000 + la) == hb * 0x1_0000_0000_0000_0000
        + (mb * 0x1_0000_0000 + lb) ==> ha == hb) by (nonlinear_arith)
        requires
            0 <= ma * 0x1_0000_0000 + la < 0x1_0000_0000_0000_0000,
            0 <= mb * 0x1_0000_0000 + lb < 0x1_0000_0000_0000_0000,
    ;
    vstd::utf8::char_u32_cast(a.0, a.0 as u32);
    vstd::utf8::char_u32_cast(b.0, b.0 as u32);
}

fn glyph_index(character: char, font_size: i32, font_res: i32) -> (r: u128)
    ensures
        r as int == glyph_code((character, font_size, font_res)),
{
    let high = character as u32 as u128;
    let mid = (font_size as i64 + 0x8000_0000i64) as u128;
    let low = (font_res as i64 + 0x8000_0000i64) as u128;
    high * 0x1_0000_0000_0000_0000u128 + mid * 0x1_0000_0000u128 + low
}

proof fn lemma_glyph_code_range(k: GlyphKey)
    ensures
        0 <= glyph_code(k) < 0x1_0000_0000_0000_0000_0000_0000,
{
    let h = (k.0 as u32) as int;
    let m = k.1 as int + 0x8000_0000;
    let l = k.2 as int + 0x8000_0000;
    assert(0 <= h * 0x1_0000_0000_0000_0000 + m * 0x1_0000_0000 + l < 0x1_0000_0000_0000_0000_0000_0000)
        by (nonlinear_arith)
        requires
            0 <= h < 0x1_0000_0000,
            0 <= m < 0x1_0000_0000,
            0 <= l < 0x1_0000_0000,
    ;
}

/// What a call of `glyph_texture` for key `k` that returned `r` does to a
/// context `a`, making `b`: on a hit it returns the cached handle and changes
/// nothing; on a miss it allocates one texture, returns its handle and caches
/// it under `k`. The other arenas are untouched either way.
pub open spec fn glyph_step<Tex, Prog, Mdl, S>(
    a: ResourceContext<Tex, Prog, Mdl, S>,
    b: ResourceContext<Tex, Prog, Mdl, S>,
    k: GlyphKey,
    r: TextureHandle,
) -> bool {
    &&& b.shaders() == a.shaders()
    &&& b.models() == a.models()
    &&& b.gameobjects() == a.gameobjects()
    &&& if a.glyphs().contains_key(k) {
        &&& r == a.glyphs()[k]
        &&& b.textures() == a.textures()
        &&& b.glyphs() == a.glyphs()
    } else {
        &&& r.index == a.textures().len()
        &&& b.textures().len() == a.textures().len() + 1
        &&& b.textures().take(a.textures().len() as int) == a.textures()
        &&& b.glyphs() == a.glyphs().insert(k, r)
    }
}

/// The owner of every GPU-backed object of a session, each behind a handle of
/// its kind. Nothing is ever freed: resource lifetime is session lifetime.
///
/// `Tex`, `Prog` and `Mdl` are the texture, shader program and mesh types of
/// the graphics backend; `S` is the numeric state that entities carry.
pub struct ResourceContext<Tex, Prog, Mdl, S> {
    texture_resources: Arena<Tex>,
    shader_resources: Arena<Prog>,
    model_resources: Arena<Mdl>,
    gameobject_resources: Arena<GameObject<S>>,
    glyph_storage: HashMap<u128, TextureHandle>,
}

impl<Tex, Prog, Mdl, S> ResourceContext<Tex, Prog, Mdl, S> {
    /// The textures, in allocation order.
    pub closed spec fn textures(&self) -> Seq<Tex> {
        self.texture_resources@
    }

    /// The shader programs, in allocation order.
    pub closed spec fn shaders(&self) -> Seq<Prog> {
        self.shader_resources@
    }

    /// The meshes, in allocation order.
    pub closed spec fn models(&self) -> Seq<Mdl> {
        self.model_resources@
    }

    /// The scene entities, in allocation order.
    pub closed spec fn gameobjects(&self) -> Seq<GameObject<S>> {
        self.gameobject_resources@
    }

    /// The glyph cache.
    pub closed spec fn glyphs(&self) -> Map<GlyphKey, TextureHandle> {
        Map::new(
            |k: GlyphKey| self.glyph_storage@.contains_key(glyph_code(k) as u128),
            |k: GlyphKey| self.glyph_storage@[glyph_code(k) as u128],
        )
    }

    /// A context with every arena and the glyph cache empty.
    pub fn new() -> (r: Self)
        ensures
            r.textures().len() == 0,
            r.shaders().len() == 0,
            r.models().len() == 0,
            r.gameobjects().len() == 0,
            r.glyphs() == Map::<GlyphKey, TextureHandle>::empty(),
    {
        let r = ResourceContext {
            texture_resources: Arena::new(),
            shader_resources: Arena::new(),
            model_resources: Arena::new(),
            gameobject_resources: Arena::new(),
            glyph_storage: HashMap::new(),
        };
        assert(r.glyphs() =~= Map::<GlyphKey, TextureHandle>::empty());
        r
    }

    /// Appends a texture and returns its handle: the number of textures
    /// allocated before it.
    pub fn alloc_tex(&mut self, texture: Tex) -> (r: TextureHandle)
        ensures
            r.index == old(self).textures().len(),
            final(self).textures() == old(self).textures().push(texture),
            final(self).shaders() == old(self).shaders(),
            final(self).models() == old(self).models(),
            final(self).gameobjects() == old(self).gameobjects(),
            final(self).glyphs() == old(self).glyphs(),
    {
        let index = self.texture_resources.push(texture);
        TextureHandle { index }
    }

    /// The texture behind `id`.
    pub fn get_tex_ref(&self, id: TextureHandle) -> (r: &Tex)
        requires
            id.index < self.textures().len(),
        ensures
            *r == self.textures()[id.index as int],
    {
        self.texture_resources.get(id.index)
    }

    /// The texture behind `id`, for mutation in place.
    pub fn get_tex_ref_mut(&mut self, id: TextureHandle) -> (r: &mut Tex)
        requires
            id.index < old(self).textures().len(),
        ensures
            *r == old(self).textures()[id.index as int],
            final(self).textures() == old(self).textures().update(id.index as int, *final(r)),
            final(self).shaders() == old(self).shaders(),
            final(self).models() == old(self).models(),
            final(self).gameobjects() == old(self).gameobjects(),
            final(self).glyphs() == old(self).glyphs(),
    {
        self.texture_resources.get_mut(id.index)
    }

    /// Appends a shader program and returns its handle: the number of shader programs
    /// allocated before it.
    pub fn alloc_shader(&mut self, shader: Prog) -> (r: ShaderHandle)
        ensures
            r.index == old(self).shaders().len(),
            final(self).shaders() == old(self).shaders().push(shader),
            final(self).textures() == old(self).textures(),
            final(self).models() == old(self).models(),
            final(self).gameobjects() == old(self).gameobjects(),
            final(self).glyphs() == old(self).glyphs(),
    {
        let index = self.shader_resources.push(shader);
        ShaderHandle { index }
    }

    /// The shader program behind `id`.
    pub fn get_shader_ref(&self, id: ShaderHandle) -> (r: &Prog)
        requires
            id.index < self.shaders().len(),
        ensures
            *r == self.shaders()[id.index as int],
    {
        self.shader_resources.get(id.index)
    }

    /// The shader program behind `id`, for mutation in place.
    pub fn get_shader_ref_mut(&mut self, id: ShaderHandle) -> (r: &mut Prog)
        requires
            id.index < old(self).shaders().len(),
        ensures
            *r == old(self).shaders()[id.index as int],
            final(self).shaders() == old(self).shaders().update(id.index as int, *final(r)),
            final(self).textures() == old(self).textures(),
            final(self).models() == old(self).models(),
            final(self).gameobjects() == old(self).gameobjects(),
            final(self).glyphs() == old(self).glyphs(),
    {
        self.shader_resources.get_mut(id.index)
    }

    /// Appends a mesh and returns its handle: the number of meshes
    /// allocated before it.
    pub fn alloc_model(&mut self, model: Mdl) -> (r: MeshHandle)
        ensures
            r.index == old(self).models().len(),
            final(self).models() == old(self).models().push(model),
            final(self).textures() == old(self).textures(),
            final(self).shaders() == old(self).shaders(),
            final(self).gameobjects() == old(self).gameobjects(),
            final(self).glyphs() == old(self).glyphs(),
    {
        let index = self.model_resources.push(model);
        MeshHandle { index }
    }

    /// The mesh behind `id`.
    pub fn get_model_ref(&self, id: MeshHandle) -> (r: &Mdl)
        requires
            id.index < self.models().len(),
        ensures
            *r == self.models()[id.index as int],
    {
        self.model_resources.get(id.index)
    }

    /// The mesh behind `id`, for mutation in place.
    pub fn get_model_ref_mut(&mut self, id: MeshHandle) -> (r: &mut Mdl)
        requires
            id.index < old(self).models().len(),
        ensures
            *r == old(self).models()[id.index as int],
            final(self).models() == old(self).models().update(id.index as int, *final(r)),
            final(self).textures() == old(self).textures(),
            final(self).shaders() == old(self).shaders(),
            final(self).gameobjects() == old(self).gameobjects(),
            final(self).glyphs() == old(self).glyphs(),
    {
        self.model_resources.get_mut(id.index)
    }

    /// Appends a scene entity and returns its handle: the number of scene entities
    /// allocated before it.
    pub fn alloc_gameobject(&mut self, gameobject: GameObject<S>) -> (r: EntityHandle)
        ensures
            r.index == old(self).gameobjects().len(),
            final(self).gameobjects() == old(self).gameobjects().push(gameobject),
            final(self).textures() == old(self).textures(),
            final(self).shaders() == old(self).shaders(),
            final(self).models() == old(self).models(),
            final(self).glyphs() == old(self).glyphs(),
    {
        let index = self.gameobject_resources.push(gameobject);
        EntityHandle { index }
    }

    /// The scene entity behind `id`.
    pub fn get_gameobject_ref(&self, id: EntityHandle) -> (r: &GameObject<S>)
        requires
            id.index < self.gameobjects().len(),
        ensures
            *r == self.gameobjects()[id.index as int],
    {
        self.gameobject_resources.get(id.index)
    }

    /// The scene entity behind `id`, for mutation in place.
    pub fn get_gameobject_ref_mut(&mut self, id: EntityHandle) -> (r: &mut GameObject<S>)
        requires
            id.index < old(self).gameobjects().len(),
        ensures
            *r == old(self).gameobjects()[id.index as int],
            final(self).gameobjects() == old(self).gameobjects().update(id.index as int, *final(r)),
            final(self).textures() == old(self).textures(),
            final(self).shaders() == old(self).shaders(),
            final(self).models() == old(self).models(),
            final(self).glyphs() == old(self).glyphs(),
    {
        self.gameobject_resources.get_mut(id.index)
    }

    /// The number of textures allocated so far.
    pub fn texture_count(&self) -> (r: usize)
        ensures
            r == self.textures().len(),
    {
        self.texture_resources.len()
    }

    /// The number of shader programs allocated so far.
    pub fn shader_count(&self) -> (r: usize)
        ensures
            r == self.shaders().len(),
    {
        self.shader_resources.len()
    }

    /// The number of meshes allocated so far.
    pub fn model_count(&self) -> (r: usize)
        ensures
            r == self.models().len(),
    {
        self.model_resources.len()
    }

    /// The number of scene entities allocated so far.
    pub fn gameobject_count(&self) -> (r: usize)
        ensures
            r == self.gameobjects().len(),
    {
        self.gameobject_resources.len()
    }

    /// The texture of a glyph, rasterised at most once per key: on a cache
    /// hit the cached handle is returned and nothing is allocated; on a miss
    /// `rasterize` makes the texture, which is allocated and cached.
    pub fn glyph_texture<F: FnOnce() -> Tex>(
        &mut self,
        character: char,
        font_size: i32,
        font_res: i32,
        rasterize: F,
    ) -> (r: TextureHandle)
        requires
            rasterize.requires(()),
        ensures
            glyph_step(*old(self), *final(self), (character, font_size, font_res), r),
            !old(self).glyphs().contains_key((character, font_size, font_res)) ==> rasterize.ensures(
                (),
                final(self).textures().last(),
            ),
    {
        match self.get_glyph(character, font_size, font_res) {
            Some(t) => t,
            None => {
                let tex = rasterize();
                let t = self.alloc_tex(tex);
                self.store_glyph(character, font_size, font_res, t);
                assert(self.textures().take(old(self).textures().len() as int) =~= old(self).textures());
                t
            },
        }
    }

    /// Files `texture` in the glyph cache under the glyph's key, replacing
    /// any earlier entry.
    pub fn store_glyph(&mut self, character: char, font_size: i32, font_res: i32, texture: TextureHandle)
        ensures
            final(self).glyphs() == old(self).glyphs().insert((character, font_size, font_res), texture),
            final(self).textures() == old(self).textures(),
            final(self).shaders() == old(self).shaders(),
            final(self).models() == old(self).models(),
            final(self).gameobjects() == old(self).gameobjects(),
    {
        let key = glyph_index(character, font_size, font_res);
        self.glyph_storage.insert(key, texture);
        proof {
            let k0 = (character, font_size, font_res);
            assert forall|k: GlyphKey| k != k0 implies glyph_code(k) as u128 != key by {
                lemma_glyph_code_range(k);
                if glyph_code(k) as u128 == key {
                    lemma_glyph_code_injective(k, k0);
                }
            }
            assert(final(self).glyphs() =~= old(self).glyphs().insert(k0, texture));
        }
    }

    /// The texture cached for the glyph, if any; a miss is no error.
    pub fn get_glyph(&self, character: char, font_size: i32, font_res: i32) -> (r: Option<TextureHandle>)
        ensures
            r == (if self.glyphs().contains_key((character, font_size, font_res)) {
                Some(self.glyphs()[(character, font_size, font_res)])
            } else {
                None
            }),
    {
        let key = glyph_index(character, font_size, font_res);
        match self.glyph_storage.get(&key) {
            Some(t) => Some(*t),
            None => None,
        }
    }
}

/// Glyph cache idempotence: when two glyph lookups with the same key follow
/// each other, the second returns the handle that the first returned and
/// allocates no texture, whether or not the first was a hit.
pub proof fn lemma_glyph_cache_idempotent<Tex, Prog, Mdl, S>(
    a: ResourceContext<Tex, Prog, Mdl, S>,
    b: ResourceContext<Tex, Prog, Mdl, S>,
    c: ResourceContext<Tex, Prog, Mdl, S>,
    k: GlyphKey,
    first: TextureHandle,
    second: TextureHandle,
)
    requires
        glyph_step(a, b, k, first),
        glyph_step(b, c, k, second),
    ensures
        second == first,
        c.textures() == b.textures(),
        c.glyphs() == b.glyphs(),
{
}

/// What one call on a resource context does to the arena whose length
/// `len_of` reads: `Some(i)` for an allocation in that arena that returned
/// a handle of index `i`, which is the old length, growing the arena by one;
/// `None` for any other call, which keeps its length. By their contracts,
/// the `alloc_*` of an arena meet this with `Some`, and every other call of
/// `ResourceContext` (allocations in the other arenas, the glyph calls, the
/// getters, the `get_*_ref_mut`) meets it with `None`.
pub open spec fn arena_call<Tex, Prog, Mdl, S>(
    a: ResourceContext<Tex, Prog, Mdl, S>,
    b: ResourceContext<Tex, Prog, Mdl, S>,
    len_of: spec_fn(ResourceContext<Tex, Prog, Mdl, S>) -> nat,
    allocated: Option<usize>,
) -> bool {
    match allocated {
        Some(i) => i == len_of(a) && len_of(b) == len_of(a) + 1,
        None => len_of(b) == len_of(a),
    }
}

/// How many of the first `n` calls were allocations.
pub open spec fn allocations_before(allocs: Seq<Option<usize>>, n: int) -> nat
    decreases n,
{
    if n <= 0 {
        0
    } else {
        allocations_before(allocs, n - 1) + if allocs[n - 1] is Some {
            1nat
        } else {
            0nat
        }
    }
}

proof fn lemma_allocations_monotone(allocs: Seq<Option<usize>>, i: int, j: int)
    requires
        0 <= i <= j,
    ensures
        allocations_before(allocs, i) <= allocations_before(allocs, j),
    decreases j - i,
{
    if i < j {
        lemma_allocations_monotone(allocs, i, j - 1);
    }
}

proof fn lemma_run_length<Tex, Prog, Mdl, S>(
    states: Seq<ResourceContext<Tex, Prog, Mdl, S>>,
    allocs: Seq<Option<usize>>,
    len_of: spec_fn(ResourceContext<Tex, Prog, Mdl, S>) -> nat,
    i: int,
)
    requires
        states.len() == allocs.len() + 1,
        forall|k: int| 0 <= k < allocs.len() ==> arena_call(states[k], states[k + 1], len_of, #[trigger] allocs[k]),
        0 <= i < states.len(),
    ensures
        len_of(states[i]) == len_of(states[0]) + allocations_before(allocs, i),
    decreases i,
{
    if i > 0 {
        lemma_run_length(states, allocs, len_of, i - 1);
        assert(arena_call(states[i - 1], states[i], len_of, allocs[i - 1]));
    }
}

/// Handle monotonicity: in a run of calls on a resource context that starts
/// with the arena empty (as `new` leaves every arena), whatever calls on
/// other arenas come between, the allocations in that arena return the
/// indices 0, 1, 2, ... in call order, and each handle stays below the
/// arena's length from its own allocation to the end of the run.
pub proof fn lemma_handles_in_call_order<Tex, Prog, Mdl, S>(
    states: Seq<ResourceContext<Tex, Prog, Mdl, S>>,
    allocs: Seq<Option<usize>>,
    len_of: spec_fn(ResourceContext<Tex, Prog, Mdl, S>) -> nat,
)
    requires
        states.len() == allocs.len() + 1,
        len_of(states[0]) == 0,
        forall|k: int| 0 <= k < allocs.len() ==> arena_call(states[k], states[k + 1], len_of, #[trigger] allocs[k]),
    ensures
        forall|i: int|
            0 <= i < allocs.len() && #[trigger] allocs[i] is Some ==> allocs[i]->0 == allocations_before(allocs, i),
        forall|i: int, j: int|
            0 <= i < allocs.len() && #[trigger] allocs[i] is Some && i < j < states.len() ==> allocs[i]->0 < len_of(
                #[trigger] states[j],
            ),
{
    assert forall|i: int| 0 <= i < allocs.len() && #[trigger] allocs[i] is Some implies allocs[i]->0
        == allocations_before(allocs, i) by {
        lemma_run_length(states, allocs, len_of, i);
        assert(arena_call(states[i], states[i + 1], len_of, allocs[i]));
    }
    assert forall|i: int, j: int|
        0 <= i < allocs.len() && #[trigger] allocs[i] is Some && i < j < states.len() implies allocs[i]->0
        < len_of(#[trigger] states[j]) by {
        lemma_run_length(states, allocs, len_of, i);
        lemma_run_length(states, allocs, len_of, j);
        lemma_allocations_monotone(allocs, i + 1, j);
        assert(arena_call(states[i], states[i + 1], len_of, allocs[i]));
    }
}

/// Arena isolation: calls that keep one arena's items (every call on the
/// other arenas and every glyph call keeps them, by their contracts) never
/// change what a handle of that arena names, whatever handles of equal index
/// the other arenas hand out meanwhile.
pub proof fn lemma_arena_isolated<Tex, Prog, Mdl, S, T>(
    states: Seq<ResourceContext<Tex, Prog, Mdl, S>>,
    items_of: spec_fn(ResourceContext<Tex, Prog, Mdl, S>) -> Seq<T>,
    k: int,
)
    requires
        states.len() > 0,
        0 <= k < items_of(states[0]).len(),
        forall|i: int| 0 <= i < states.len() - 1 ==> items_of(#[trigger] states[i + 1]) == items_of(states[i]),
    ensures
        k < items_of(states.last()).len(),
        items_of(states.last())[k] == items_of(states[0])[k],
    decreases states.len(),
{
    if states.len() > 1 {
        let prefix = states.drop_last();
        assert forall|i: int| 0 <= i < prefix.len() - 1 implies items_of(#[trigger] prefix[i + 1]) == items_of(
            prefix[i],
        ) by {
            assert(prefix[i + 1] == states[i + 1]);
            assert(prefix[i] == states[i]);
        }
        lemma_arena_isolated(prefix, items_of, k);
        let i = states.len() - 2;
        assert(items_of(states[i + 1]) == items_of(states[i]));
        assert(prefix.last() == states[i]);
        assert(states.last() == states[i + 1]);
    }
}

} // verus!
