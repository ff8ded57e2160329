//! The scene renderer's decisions for one frame: consume last frame's pick,
//! lay out the passes (opaque entities, a depth clear, overlay entities) and
//! choose the picking read-back. The graphics backend carries the plan out.

use vstd::prelude::*;

use crate::gameobject::GameObject;
use crate::handle::EntityHandle;
use crate::picking::{Readback, decode_pick, picked_from, readback_for, readback_spec};
use crate::resource_manager::ResourceContext;

verus! {

/// One step of a frame on the colour target and the picking ID target,
/// which are drawn in lockstep with the same transforms.
#[derive(Clone, Copy, PartialEq, Eq, Structural, Debug)]
pub enum Pass {
    /// Clear the colour target to the clear colour, the ID target to 0 and
    /// both depth buffers.
    ClearAll,
    /// Draw `entity` into the colour target, and with the value `id` into
    /// the ID target, depth-tested (nearer wins) with depth writes.
    Draw { entity: EntityHandle, id: u32 },
    /// Clear both depth buffers, so that what follows is drawn in front.
    ClearDepth,
}

/// The work of one frame: the passes in order, then the read-back.
pub struct FramePlan {
    pub passes: Vec<Pass>,
    pub readback: Readback,
}

/// The draws of the first `n` entries of the render list whose overlay flag
/// is `overlay`, in list order; the entry at position `i` gets the ID
/// `i + 1`.
pub open spec fn phase_draws<S>(
    list: Seq<EntityHandle>,
    objs: Seq<GameObject<S>>,
    overlay: bool,
    n: nat,
) -> Seq<Pass>
    decreases n,
{
    if n == 0 {
        Seq::empty()
    } else {
        let prev = phase_draws(list, objs, overlay, (n - 1) as nat);
        let h = list[n - 1];
        if objs[h.index as int].overlay == overlay {
            prev.push(Pass::Draw { entity: h, id: n as u32 })
        } else {
            prev
        }
    }
}

/// The passes of a frame: clear everything, draw the non-overlay entities,
/// clear depth, draw the overlay entities.
pub open spec fn frame_passes<S>(list: Seq<EntityHandle>, objs: Seq<GameObject<S>>) -> Seq<Pass> {
    seq![Pass::ClearAll] + phase_draws(list, objs, false, list.len()) + seq![Pass::ClearDepth]
        + phase_draws(list, objs, true, list.len())
}

/// The per-frame state of the scene renderer: the render list, the entity
/// picked from the last read-back, the viewport size and the size of the
/// picking attachments (the ID texture and its depth buffer).
pub struct RenderContext {
    pub gameobjects: Vec<EntityHandle>,
    pub picked_object: Option<EntityHandle>,
    pub width: u32,
    pub height: u32,
    pub picking_size: Option<(u32, u32)>,
}

impl RenderContext {
    /// The viewport size.
    pub open spec fn viewport(&self) -> (u32, u32) {
        (self.width, self.height)
    }

    /// The size of the picking attachments; none before they are made.
    pub open spec fn picking_attachments(&self) -> Option<(u32, u32)> {
        self.picking_size
    }

    /// The picking attachments exist and match the viewport, so a frame
    /// may be drawn.
    pub open spec fn picking_ready(&self) -> bool {
        self.picking_attachments() == Some(self.viewport())
    }

    /// Every entry of the render list is a handle of `objs`.
    pub open spec fn list_valid<S>(&self, objs: Seq<GameObject<S>>) -> bool {
        forall|i: int| 0 <= i < self.gameobjects@.len() ==> (#[trigger] self.gameobjects@[i]).index < objs.len()
    }

    /// A context for a window of `win_width` by `win_height` pixels, with an
    /// empty render list, nothing picked and picking attachments of the
    /// window's size.
    pub fn new(win_width: i32, win_height: i32) -> (r: RenderContext)
        requires
            win_width >= 0,
            win_height >= 0,
        ensures
            r.gameobjects@.len() == 0,
            r.picked_object is None,
            r.viewport() == (win_width as u32, win_height as u32),
            r.picking_ready(),
    {
        let mut rc = RenderContext {
            gameobjects: Vec::new(),
            picked_object: None,
            width: win_width as u32,
            height: win_height as u32,
            picking_size: None,
        };
        rc.init_picking_buffers(win_width, win_height);
        rc
    }

    /// The viewport width.
    pub fn width(&self) -> (r: u32)
        ensures
            r == self.viewport().0,
    {
        self.width
    }

    /// The viewport height.
    pub fn height(&self) -> (r: u32)
        ensures
            r == self.viewport().1,
    {
        self.height
    }

    /// (Re)makes the picking attachments at `width` by `height` and returns
    /// that size, which the backend must give the ID texture and its depth
    /// buffer.
    pub fn init_picking_buffers(&mut self, width: i32, height: i32) -> (r: (u32, u32))
        requires
            width >= 0,
            height >= 0,
        ensures
            r == (width as u32, height as u32),
            final(self).picking_attachments() == Some(r),
            final(self).viewport() == old(self).viewport(),
            final(self).gameobjects == old(self).gameobjects,
            final(self).picked_object == old(self).picked_object,
    {
        let size = (width as u32, height as u32);
        self.picking_size = Some(size);
        size
    }

    /// Takes on a new viewport size: the picking attachments are remade at
    /// that size before anything else is drawn. Returns the new size.
    pub fn resized(&mut self, width: i32, height: i32) -> (r: (u32, u32))
        requires
            width >= 0,
            height >= 0,
        ensures
            r == (width as u32, height as u32),
            final(self).viewport() == r,
            final(self).picking_attachments() == Some(r),
            final(self).picking_ready(),
            final(self).gameobjects == old(self).gameobjects,
            final(self).picked_object == old(self).picked_object,
    {
        self.width = width as u32;
        self.height = height as u32;
        self.init_picking_buffers(width, height)
    }
}

impl RenderContext {
    /// The first entity of the render list named `name`, or the first entity
    /// of the list when none is.
    pub fn get_gameobject<Tex, Prog, Mdl, S>(
        &self,
        resources: &ResourceContext<Tex, Prog, Mdl, S>,
        name: String,
    ) -> (r: EntityHandle)
        requires
            self.gameobjects@.len() > 0,
            self.list_valid(resources.gameobjects()),
        ensures
            ({
                let list = self.gameobjects@;
                let objs = resources.gameobjects();
                ||| exists|k: int|
                    0 <= k < list.len() && objs[list[k].index as int].name@ == name@ && r == list[k]
                        && forall|j: int| 0 <= j < k ==> objs[#[trigger] list[j].index as int].name@ != name@
                ||| r == list[0] && forall|j: int|
                    0 <= j < list.len() ==> objs[#[trigger] list[j].index as int].name@ != name@
            }),
    {
        let mut i: usize = 0;
        while i < self.gameobjects.len()
            invariant
                i <= self.gameobjects@.len(),
                self.list_valid(resources.gameobjects()),
                forall|j: int|
                    0 <= j < i ==> resources.gameobjects()[#[trigger] self.gameobjects@[j].index as int].name@
                        != name@,
            decreases self.gameobjects@.len() - i,
        {
            let h = self.gameobjects[i];
            if resources.get_gameobject_ref(h).name == name {
                return h;
            }
            i += 1;
        }
        self.gameobjects[0]
    }
}

fn append_phase<Tex, Prog, Mdl, S>(
    list: &Vec<EntityHandle>,
    resources: &ResourceContext<Tex, Prog, Mdl, S>,
    overlay: bool,
    passes: &mut Vec<Pass>,
)
    requires
        list@.len() < u32::MAX,
        forall|i: int| 0 <= i < list@.len() ==> (#[trigger] list@[i]).index < resources.gameobjects().len(),
    ensures
        final(passes)@ == old(passes)@ + phase_draws(list@, resources.gameobjects(), overlay, list@.len()),
{
    let mut i: usize = 0;
    while i < list.len()
        invariant
            i <= list@.len(),
            list@.len() < u32::MAX,
            forall|j: int| 0 <= j < list@.len() ==> (#[trigger] list@[j]).index < resources.gameobjects().len(),
            passes@ == old(passes)@ + phase_draws(list@, resources.gameobjects(), overlay, i as nat),
        decreases list@.len() - i,
    {
        let h = list[i];
        let gobj = resources.get_gameobject_ref(h);
        if gobj.overlay == overlay {
            passes.push(Pass::Draw { entity: h, id: (i + 1) as u32 });
        }
        proof {
            let objs = resources.gameobjects();
            let prev = phase_draws(list@, objs, overlay, i as nat);
            if objs[h.index as int].overlay == overlay {
                assert(passes@ =~= old(passes)@ + prev.push(Pass::Draw { entity: h, id: (i + 1) as u32 }));
            }
        }
        i += 1;
    }
}

/// One frame's decisions. First the value read back at the end of the last
/// frame is consumed: a non-zero value `v` picks the entity at position
/// `v - 1` of the render list, 0 picks nothing. Then the passes are laid
/// out: the non-overlay entities, a depth clear, the overlay entities, each
/// drawn with the ID `position + 1`. Last comes the read-back at the cursor,
/// or the sentinel when the cursor is unknown or outside the viewport.
///
/// The picking attachments must match the viewport: a frame is never drawn
/// into attachments of a stale size.
pub fn render<Tex, Prog, Mdl, S>(
    context: &mut RenderContext,
    resources: &ResourceContext<Tex, Prog, Mdl, S>,
    cursor_position: Option<(i32, i32)>,
    readback_value: u32,
) -> (plan: FramePlan)
    requires
        old(context).picking_ready(),
        old(context).list_valid(resources.gameobjects()),
        old(context).gameobjects@.len() < u32::MAX,
    ensures
        final(context).picked_object == decode_pick(old(context).gameobjects@, readback_value),
        final(context).gameobjects == old(context).gameobjects,
        final(context).viewport() == old(context).viewport(),
        final(context).picking_attachments() == old(context).picking_attachments(),
        plan.passes@ == frame_passes(old(context).gameobjects@, resources.gameobjects()),
        plan.readback == readback_spec(cursor_position, old(context).width, old(context).height),
{
    context.picked_object = picked_from(&context.gameobjects, readback_value);
    let mut passes: Vec<Pass> = Vec::new();
    passes.push(Pass::ClearAll);
    append_phase(&context.gameobjects, resources, false, &mut passes);
    passes.push(Pass::ClearDepth);
    append_phase(&context.gameobjects, resources, true, &mut passes);
    let readback = readback_for(cursor_position, context.width, context.height);
    proof {
        let list = context.gameobjects@;
        let objs = resources.gameobjects();
        assert(passes@ =~= frame_passes(list, objs));
    }
    FramePlan { passes, readback }
}

/// What one pixel of the two targets holds: the entity whose colour is there
/// (none: the clear colour), the value of the ID target, and the depth (none:
/// cleared, behind any geometry).
pub struct Pixel {
    pub color: Option<EntityHandle>,
    pub id: u32,
    pub depth: Option<int>,
}

/// The effect of one pass on a pixel, where `cover` gives the depth at which
/// each entity covers the pixel, if it does. A draw lands only where it is
/// nearer than what the depth buffer holds.
pub open spec fn apply_pass(p: Pixel, pass: Pass, cover: spec_fn(EntityHandle) -> Option<int>) -> Pixel {
    match pass {
        Pass::ClearAll => Pixel { color: None, id: 0, depth: None },
        Pass::ClearDepth => Pixel { color: p.color, id: p.id, depth: None },
        Pass::Draw { entity, id } => match cover(entity) {
            Some(d) => if p.depth is None || d < p.depth->0 {
                Pixel { color: Some(entity), id, depth: Some(d) }
            } else {
                p
            },
            None => p,
        },
    }
}

/// The pixel after the passes, in order.
pub open spec fn run_passes(p: Pixel, passes: Seq<Pass>, cover: spec_fn(EntityHandle) -> Option<int>) -> Pixel
    decreases passes.len(),
{
    if passes.len() == 0 {
        p
    } else {
        run_passes(apply_pass(p, passes[0], cover), passes.drop_first(), cover)
    }
}

/// Whether some draw of `passes` covers the pixel.
pub open spec fn some_draw_covers(passes: Seq<Pass>, cover: spec_fn(EntityHandle) -> Option<int>) -> bool
    decreases passes.len(),
{
    if passes.len() == 0 {
        false
    } else {
        (passes[0] matches Pass::Draw { entity, .. } && cover(entity) is Some) || some_draw_covers(
            passes.drop_first(),
            cover,
        )
    }
}

proof fn lemma_run_append(p: Pixel, a: Seq<Pass>, b: Seq<Pass>, cover: spec_fn(EntityHandle) -> Option<int>)
    ensures
        run_passes(p, a + b, cover) == run_passes(run_passes(p, a, cover), b, cover),
    decreases a.len(),
{
    if a.len() > 0 {
        assert((a + b).drop_first() =~= a.drop_first() + b);
        lemma_run_append(apply_pass(p, a[0], cover), a.drop_first(), b, cover);
    } else {
        assert(a + b =~= b);
    }
}

proof fn lemma_phase_shape<S>(list: Seq<EntityHandle>, objs: Seq<GameObject<S>>, overlay: bool, n: nat)
    requires
        n <= list.len() < u32::MAX,
    ensures
        forall|k: int|
            0 <= k < phase_draws(list, objs, overlay, n).len() ==> {
                let q = #[trigger] phase_draws(list, objs, overlay, n)[k];
                &&& q is Draw
                &&& 1 <= q->Draw_id <= n
                &&& q->Draw_entity == list[q->Draw_id - 1]
                &&& objs[q->Draw_entity.index as int].overlay == overlay
            },
    decreases n,
{
    if n > 0 {
        lemma_phase_shape(list, objs, overlay, (n - 1) as nat);
    }
}

proof fn lemma_phase_covers<S>(
    list: Seq<EntityHandle>,
    objs: Seq<GameObject<S>>,
    overlay: bool,
    n: nat,
    i: int,
    cover: spec_fn(EntityHandle) -> Option<int>,
)
    requires
        0 <= i < n <= list.len(),
        objs[list[i].index as int].overlay == overlay,
        cover(list[i]) is Some,
    ensures
        some_draw_covers(phase_draws(list, objs, overlay, n), cover),
    decreases n,
{
    let prev = phase_draws(list, objs, overlay, (n - 1) as nat);
    if i < n - 1 {
        lemma_phase_covers(list, objs, overlay, (n - 1) as nat, i, cover);
        if objs[list[n - 1].index as int].overlay == overlay {
            lemma_covers_push(prev, Pass::Draw { entity: list[n - 1], id: n as u32 }, cover);
        }
    } else {
        lemma_covers_last(prev, Pass::Draw { entity: list[i], id: n as u32 }, cover);
    }
}

proof fn lemma_covers_push(s: Seq<Pass>, q: Pass, cover: spec_fn(EntityHandle) -> Option<int>)
    requires
        some_draw_covers(s, cover),
    ensures
        some_draw_covers(s.push(q), cover),
    decreases s.len(),
{
    assert(s.push(q).drop_first() =~= s.drop_first().push(q));
    if !(s[0] matches Pass::Draw { entity, .. } && cover(entity) is Some) {
        lemma_covers_push(s.drop_first(), q, cover);
    }
}

proof fn lemma_covers_last(s: Seq<Pass>, q: Pass, cover: spec_fn(EntityHandle) -> Option<int>)
    requires
        q matches Pass::Draw { entity, .. } && cover(entity) is Some,
    ensures
        some_draw_covers(s.push(q), cover),
    decreases s.len(),
{
    if s.len() > 0 {
        assert(s.push(q).drop_first() =~= s.drop_first().push(q));
        lemma_covers_last(s.drop_first(), q, cover);
    } else {
        assert(s.push(q).drop_first() =~= Seq::<Pass>::empty());
    }
}

/// Every draw in `passes` carries an ID that decodes to its entity.
pub open spec fn ids_decode(list: Seq<EntityHandle>, passes: Seq<Pass>) -> bool {
    forall|k: int|
        0 <= k < passes.len() && (#[trigger] passes[k]) is Draw ==> decode_pick(list, passes[k]->Draw_id)
            == Some(passes[k]->Draw_entity)
}

proof fn lemma_run_keeps_decoding(
    list: Seq<EntityHandle>,
    p: Pixel,
    passes: Seq<Pass>,
    cover: spec_fn(EntityHandle) -> Option<int>,
)
    requires
        ids_decode(list, passes),
        decode_pick(list, p.id) == p.color,
        p.id <= list.len(),
    ensures
        decode_pick(list, run_passes(p, passes, cover).id) == run_passes(p, passes, cover).color,
        run_passes(p, passes, cover).id <= list.len(),
    decreases passes.len(),
{
    if passes.len() > 0 {
        assert(passes[0] is Draw ==> decode_pick(list, passes[0]->Draw_id) == Some(passes[0]->Draw_entity));
        let rest = passes.drop_first();
        assert forall|k: int| 0 <= k < rest.len() && (#[trigger] rest[k]) is Draw implies decode_pick(
            list,
            rest[k]->Draw_id,
        ) == Some(rest[k]->Draw_entity) by {
            assert(rest[k] == passes[k + 1]);
        }
        lemma_run_keeps_decoding(list, apply_pass(p, passes[0], cover), rest, cover);
    }
}

/// In a run of overlay draws, once the pixel's depth is set its colour is an
/// overlay entity, and a draw that covers the pixel leaves an overlay colour.
proof fn lemma_overlay_run<S>(
    objs: Seq<GameObject<S>>,
    p: Pixel,
    passes: Seq<Pass>,
    cover: spec_fn(EntityHandle) -> Option<int>,
)
    requires
        forall|k: int|
            0 <= k < passes.len() ==> (#[trigger] passes[k]) is Draw && objs[passes[k]->Draw_entity.index as int].overlay,
        p.depth is None || (p.color is Some && objs[p.color->0.index as int].overlay),
    ensures
        ({
            let f = run_passes(p, passes, cover);
            &&& f.depth is None || (f.color is Some && objs[f.color->0.index as int].overlay)
            &&& (some_draw_covers(passes, cover) || (p.color is Some && objs[p.color->0.index as int].overlay))
                ==> (f.color is Some && objs[f.color->0.index as int].overlay)
        }),
    decreases passes.len(),
{
    if passes.len() > 0 {
        let rest = passes.drop_first();
        assert forall|k: int| 0 <= k < rest.len() implies (#[trigger] rest[k]) is Draw
            && objs[rest[k]->Draw_entity.index as int].overlay by {
            assert(rest[k] == passes[k + 1]);
        }
        assert(passes[0] is Draw);
        lemma_overlay_run(objs, apply_pass(p, passes[0], cover), rest, cover);
    }
}

proof fn lemma_run_uncovered(p: Pixel, passes: Seq<Pass>, cover: spec_fn(EntityHandle) -> Option<int>)
    requires
        forall|h: EntityHandle| #[trigger] cover(h) is None,
        forall|k: int| 0 <= k < passes.len() ==> (#[trigger] passes[k]) != Pass::ClearAll,
    ensures
        run_passes(p, passes, cover).color == p.color,
        run_passes(p, passes, cover).id == p.id,
    decreases passes.len(),
{
    if passes.len() > 0 {
        let rest = passes.drop_first();
        assert forall|k: int| 0 <= k < rest.len() implies (#[trigger] rest[k]) != Pass::ClearAll by {
            assert(rest[k] == passes[k + 1]);
        }
        assert(passes[0] != Pass::ClearAll);
        if let Pass::Draw { entity, .. } = passes[0] {
            assert(cover(entity) is None);
        }
        lemma_run_uncovered(apply_pass(p, passes[0], cover), rest, cover);
    }
}

/// Picking round trip: the ID that a frame leaves at a pixel decodes to the
/// entity whose colour is seen there. Read back at the cursor and consumed
/// at the start of the next frame, it picks exactly that entity; a pixel that
/// no geometry covers keeps the sentinel 0, which picks nothing.
pub proof fn lemma_pick_round_trip<S>(
    list: Seq<EntityHandle>,
    objs: Seq<GameObject<S>>,
    cover: spec_fn(EntityHandle) -> Option<int>,
    start: Pixel,
)
    requires
        list.len() < u32::MAX,
    ensures
        ({
            let f = run_passes(start, frame_passes(list, objs), cover);
            &&& decode_pick(list, f.id) == f.color
            &&& f.color is None ==> f.id == 0
            &&& (forall|h: EntityHandle| #[trigger] cover(h) is None) ==> f.color is None && f.id == 0
        }),
        decode_pick(list, 0) is None,
{
    let passes = frame_passes(list, objs);
    let n = list.len();
    lemma_phase_shape(list, objs, false, n);
    lemma_phase_shape(list, objs, true, n);
    assert forall|k: int| 0 <= k < passes.len() && (#[trigger] passes[k]) is Draw implies decode_pick(
        list,
        passes[k]->Draw_id,
    ) == Some(passes[k]->Draw_entity) by {
        let a = phase_draws(list, objs, false, n);
        let b = phase_draws(list, objs, true, n);
        if 1 <= k < 1 + a.len() {
            assert(passes[k] == a[k - 1]);
        } else if k >= 2 + a.len() {
            assert(passes[k] == b[k - 2 - a.len()]);
        }
    }
    assert(passes[0] == Pass::ClearAll);
    let cleared = apply_pass(start, passes[0], cover);
    assert(passes.drop_first() =~= phase_draws(list, objs, false, n) + seq![Pass::ClearDepth] + phase_draws(
        list,
        objs,
        true,
        n,
    ));
    let rest = passes.drop_first();
    assert forall|k: int| 0 <= k < rest.len() && (#[trigger] rest[k]) is Draw implies decode_pick(
        list,
        rest[k]->Draw_id,
    ) == Some(rest[k]->Draw_entity) by {
        assert(rest[k] == passes[k + 1]);
    }
    lemma_run_keeps_decoding(list, cleared, rest, cover);
    if forall|h: EntityHandle| #[trigger] cover(h) is None {
        lemma_phase_shape(list, objs, false, n);
        assert forall|k: int| 0 <= k < rest.len() implies (#[trigger] rest[k]) != Pass::ClearAll by {
            assert(rest[k] == passes[k + 1]);
            let a = phase_draws(list, objs, false, n);
            let b = phase_draws(list, objs, true, n);
            if 1 <= k + 1 < 1 + a.len() {
                assert(passes[k + 1] == a[k]);
            } else if k + 1 >= 2 + a.len() {
                assert(passes[k + 1] == b[k + 1 - 2 - a.len()]);
            }
        }
        lemma_run_uncovered(cleared, rest, cover);
    }
}

/// Overlay ordering: when an overlay entity of the render list covers a
/// pixel, after the frame the colour and the ID at that pixel come from an
/// overlay entity, whatever the depths of the other geometry there. Of one
/// scene entity and one overlay entity that overlap, the overlay entity is
/// the one seen and the one picked.
pub proof fn lemma_overlay_wins<S>(
    list: Seq<EntityHandle>,
    objs: Seq<GameObject<S>>,
    cover: spec_fn(EntityHandle) -> Option<int>,
    start: Pixel,
    i: int,
)
    requires
        list.len() < u32::MAX,
        0 <= i < list.len(),
        objs[list[i].index as int].overlay,
        cover(list[i]) is Some,
    ensures
        ({
            let f = run_passes(start, frame_passes(list, objs), cover);
            &&& f.color is Some
            &&& objs[f.color->0.index as int].overlay
            &&& decode_pick(list, f.id) == f.color
        }),
        list.len() == 2 && !objs[list[1 - i].index as int].overlay ==> ({
            let f = run_passes(start, frame_passes(list, objs), cover);
            f.color == Some(list[i]) && decode_pick(list, f.id) == Some(list[i])
        }),
{
    let n = list.len();
    let a = phase_draws(list, objs, false, n);
    let b = phase_draws(list, objs, true, n);
    let head = seq![Pass::ClearAll] + a + seq![Pass::ClearDepth];
    assert(frame_passes(list, objs) == head + b);
    lemma_run_append(start, head, b, cover);
    lemma_run_append(start, seq![Pass::ClearAll] + a, seq![Pass::ClearDepth], cover);
    let mid = run_passes(start, head, cover);
    let before = run_passes(start, seq![Pass::ClearAll] + a, cover);
    let cd = seq![Pass::ClearDepth];
    assert(cd.drop_first() =~= Seq::<Pass>::empty());
    assert(cd[0] == Pass::ClearDepth);
    assert(run_passes(apply_pass(before, Pass::ClearDepth, cover), Seq::<Pass>::empty(), cover) == apply_pass(
        before,
        Pass::ClearDepth,
        cover,
    ));
    assert(mid == apply_pass(before, Pass::ClearDepth, cover));
    lemma_phase_shape(list, objs, true, n);
    lemma_phase_covers(list, objs, true, n, i, cover);
    lemma_overlay_run(objs, mid, b, cover);
    lemma_pick_round_trip(list, objs, cover, start);
}

} // verus!
