//! The upscaling render node: per-view GPU work with a single-slot
//! binding cache.
//!
//! Once per frame and view the node receives the view's extracted state.
//! A missing view, a camera in skip mode, or an unready pipeline are
//! expected conditions: the node records nothing and succeeds. Otherwise
//! it resolves a binding set through its cache (recreating it only when
//! the primary texture's identity changed), and records one pass that
//! binds the upscaling pipeline and draws a full-screen triangle.

use vstd::prelude::*;
use crate::gpu::{
    BindGroupId, BindGroupLayoutId, CachedRenderPipelineId, GpuCommand, LoadOp, RenderContext,
    SamplerId, TextureViewId,
};
use crate::pipeline_cache::PipelineCache;

verus! {

/// The destination of one view: its output texture and the main texture
/// holding the frame rendered so far.
#[derive(Clone, Copy, PartialEq, Eq, Structural, Debug)]
pub struct ViewTarget {
    pub main_texture: TextureViewId,
    pub out_texture: TextureViewId,
}

/// What a camera wants done with its output.
#[derive(Clone, Copy, PartialEq, Eq, Structural, Debug)]
pub enum CameraOutputMode {
    /// Write to the destination, loading its attachment as declared.
    Write { color_attachment_load_op: LoadOp },
    /// Produce no output this frame.
    Skip,
}

/// The extracted camera descriptor of a view, when the view has one.
#[derive(Clone, Copy, PartialEq, Eq, Structural, Debug)]
pub struct ExtractedCamera {
    pub output_mode: CameraOutputMode,
}

/// The upscaling pipeline handle stored on a view.
#[derive(Clone, Copy, PartialEq, Eq, Structural, Debug)]
pub struct ViewUpscalingPipeline {
    pub id: CachedRenderPipelineId,
}

/// The externally owned blit pipeline state the node builds bindings against.
#[derive(Clone, Copy, PartialEq, Eq, Structural, Debug)]
pub struct BlitPipeline {
    pub texture_bind_group: BindGroupLayoutId,
}

/// The per-view state the node's query yields: target, pipeline handle,
/// and the camera descriptor if the view has one.
#[derive(Clone, Copy, PartialEq, Eq, Structural, Debug)]
pub struct UpscalingView {
    pub target: ViewTarget,
    pub upscaling_pipeline: ViewUpscalingPipeline,
    pub camera: Option<ExtractedCamera>,
}

/// The node's only error: a backend-fatal failure bubbling out of a frame.
/// Expected-absence conditions never produce it.
#[derive(Clone, Copy, PartialEq, Eq, Structural, Debug)]
pub struct NodeRunError {
    pub code: u32,
}

/// A single-slot memoized association from a texture's identity to the
/// binding set derived from it, invalidated when the identity changes.
#[derive(Clone, Copy, PartialEq, Eq, Structural, Debug)]
pub struct TextureBindGroupCache {
    pub slot: Option<CachedBinding>,
}

/// One cached pairing of a texture identity with the binding derived from it.
#[derive(Clone, Copy, PartialEq, Eq, Structural, Debug)]
pub struct CachedBinding {
    pub texture: TextureViewId,
    pub bind_group: BindGroupId,
}

/// The two backend calls a cache miss performs: create a sampler with
/// default settings, then build the binding set pairing texture and
/// sampler against the fixed layout.
pub open spec fn cache_miss_commands(
    layout: BindGroupLayoutId,
    current: TextureViewId,
    next_id: u64,
) -> Seq<GpuCommand> {
    let sampler = SamplerId { id: next_id };
    let bind_group = BindGroupId { id: (next_id + 1) as u64 };
    seq![
        GpuCommand::CreateSampler { sampler },
        GpuCommand::CreateBindGroup { bind_group, layout, texture: current, sampler },
    ]
}

impl TextureBindGroupCache {
    /// Whether the stored entry is valid for the current identity.
    pub open spec fn is_hit(self, current: TextureViewId) -> bool {
        self.slot matches Some(entry) && entry.texture == current
    }

    /// The cache contents after a lookup with `current`.
    pub open spec fn after_lookup(self, current: TextureViewId, next_id: u64)
        -> TextureBindGroupCache {
        if self.is_hit(current) {
            self
        } else {
            TextureBindGroupCache {
                slot: Some(
                    CachedBinding {
                        texture: current,
                        bind_group: BindGroupId { id: (next_id + 1) as u64 },
                    },
                ),
            }
        }
    }

    /// The binding a lookup with `current` returns.
    pub open spec fn lookup_bind_group(self, current: TextureViewId, next_id: u64) -> BindGroupId {
        if self.is_hit(current) {
            self.slot->Some_0.bind_group
        } else {
            BindGroupId { id: (next_id + 1) as u64 }
        }
    }

    /// The backend calls a lookup with `current` records.
    pub open spec fn lookup_commands(
        self,
        current: TextureViewId,
        layout: BindGroupLayoutId,
        next_id: u64,
    ) -> Seq<GpuCommand> {
        if self.is_hit(current) {
            Seq::empty()
        } else {
            cache_miss_commands(layout, current, next_id)
        }
    }

    /// The context's identifier counter after a lookup with `current`.
    pub open spec fn next_id_after(self, current: TextureViewId, next_id: u64) -> u64 {
        if self.is_hit(current) {
            next_id
        } else {
            (next_id + 2) as u64
        }
    }

    pub fn new() -> (cache: TextureBindGroupCache)
        ensures
            cache.slot is None,
    {
        TextureBindGroupCache { slot: None }
    }

    /// Return the cached binding unchanged when the stored identity equals
    /// `current` (no GPU call); otherwise build a new binding against the
    /// backend, replace the entry with it, and return it. The second result
    /// says whether a new binding was created.
    pub fn get_or_create(
        &mut self,
        current: TextureViewId,
        layout: BindGroupLayoutId,
        render_context: &mut RenderContext,
    ) -> (result: (BindGroupId, bool))
        requires
            old(render_context).next_id + 2 <= u64::MAX,
        ensures
            result.0 == old(self).lookup_bind_group(current, old(render_context).next_id),
            result.1 == !old(self).is_hit(current),
            *final(self) == old(self).after_lookup(current, old(render_context).next_id),
            final(render_context).commands@ == old(render_context).commands@ + old(
                self,
            ).lookup_commands(current, layout, old(render_context).next_id),
            final(render_context).next_id == old(self).next_id_after(
                current,
                old(render_context).next_id,
            ),
    {
        match self.slot {
            Some(entry) if entry.texture.id == current.id => {
                proof {
                    assert(entry.texture == current);
                    assert(render_context.commands@ =~= old(render_context).commands@ + old(
                        self,
                    ).lookup_commands(current, layout, old(render_context).next_id));
                }
                (entry.bind_group, false)
            },
            _ => {
                let sampler = render_context.create_sampler();
                let bind_group = render_context.create_bind_group(layout, current, sampler);
                self.slot = Some(CachedBinding { texture: current, bind_group });
                proof {
                    assert(render_context.commands@ =~= old(render_context).commands@ + old(
                        self,
                    ).lookup_commands(current, layout, old(render_context).next_id));
                }
                (bind_group, true)
            },
        }
    }
}

/// After one lookup with an identity, every further lookup with the same
/// identity is a hit: it returns the identical binding, changes nothing,
/// and records no backend call. By induction, a view whose primary texture
/// identity stays unchanged across any sequence of frames receives the
/// same binding every frame, with no recreation.
pub proof fn lemma_cache_stable(
    cache: TextureBindGroupCache,
    current: TextureViewId,
    layout: BindGroupLayoutId,
    next_id: u64,
    later_next_id: u64,
)
    ensures
        cache.after_lookup(current, next_id).is_hit(current),
        cache.after_lookup(current, next_id).lookup_bind_group(current, later_next_id)
            == cache.lookup_bind_group(current, next_id),
        cache.after_lookup(current, next_id).after_lookup(current, later_next_id)
            == cache.after_lookup(current, next_id),
        cache.after_lookup(current, next_id).lookup_commands(current, layout, later_next_id)
            == Seq::<GpuCommand>::empty(),
{
}

/// A lookup whose identity differs from the stored one (or that finds the
/// slot empty) creates exactly one new binding — one sampler creation and
/// one binding-set creation are recorded, in that order — and the old
/// entry is discarded in favor of the new pair.
pub proof fn lemma_cache_change_creates_one(
    cache: TextureBindGroupCache,
    current: TextureViewId,
    layout: BindGroupLayoutId,
    next_id: u64,
)
    requires
        !cache.is_hit(current),
    ensures
        cache.lookup_commands(current, layout, next_id).len() == 2,
        cache.lookup_commands(current, layout, next_id)[1] matches
            GpuCommand::CreateBindGroup { bind_group, .. }
            && bind_group == cache.lookup_bind_group(current, next_id),
        cache.after_lookup(current, next_id).slot == Some(
            CachedBinding {
                texture: current,
                bind_group: cache.lookup_bind_group(current, next_id),
            },
        ),
{
}

/// The load operation the destination attachment uses: a camera with a
/// write mode dictates it; a view without a camera defaults to a clear.
pub open spec fn node_load_op(camera: Option<ExtractedCamera>) -> LoadOp {
    match camera {
        Some(camera) => match camera.output_mode {
            CameraOutputMode::Write { color_attachment_load_op } => color_attachment_load_op,
            CameraOutputMode::Skip => LoadOp::Clear,
        },
        None => LoadOp::Clear,
    }
}

/// Whether the node no-ops for this view: no per-view state, or a camera
/// whose output mode signals skip.
pub open spec fn node_skips(view: Option<UpscalingView>) -> bool {
    match view {
        None => true,
        Some(v) => v.camera matches Some(camera) && camera.output_mode is Skip,
    }
}

/// The pass the node records once its pipeline is compiled: one color
/// attachment on the view's output texture with the resolved load
/// operation and store-back, the pipeline and binding set bound, and a
/// full-screen triangle drawn. Nothing while the pipeline is unready.
pub open spec fn node_pass_commands(
    pipeline_cache: PipelineCache,
    view: UpscalingView,
    bind_group: BindGroupId,
) -> Seq<GpuCommand> {
    if pipeline_cache.pipeline_ready(view.upscaling_pipeline.id) {
        seq![
            GpuCommand::BeginRenderPass {
                attachment: view.target.out_texture,
                load: node_load_op(view.camera),
                store: true,
            },
            GpuCommand::SetRenderPipeline { pipeline: view.upscaling_pipeline.id },
            GpuCommand::SetBindGroup { index: 0, bind_group },
            GpuCommand::Draw {
                first_vertex: 0,
                vertex_count: 3,
                first_instance: 0,
                instance_count: 1,
            },
        ]
    } else {
        Seq::empty()
    }
}

/// The upscaling node: one instance owns exactly one binding-cache slot.
pub struct UpscalingNode {
    pub cached_texture_bind_group: TextureBindGroupCache,
}

impl UpscalingNode {
    pub fn new() -> (node: UpscalingNode)
        ensures
            node.cached_texture_bind_group.slot is None,
    {
        UpscalingNode { cached_texture_bind_group: TextureBindGroupCache::new() }
    }

    /// Run the node for one view. Succeeds always; records commands and
    /// touches the cache exactly as the specification functions describe:
    /// nothing on a skip, the cache lookup's backend calls and then —
    /// only once the upscaling pipeline is compiled — one full render pass.
    pub fn run(
        &mut self,
        view: Option<UpscalingView>,
        blit_pipeline: &BlitPipeline,
        pipeline_cache: &PipelineCache,
        render_context: &mut RenderContext,
    ) -> (result: Result<(), NodeRunError>)
        requires
            old(render_context).next_id + 2 <= u64::MAX,
        ensures
            result is Ok,
            node_skips(view) ==> *final(self) == *old(self) && final(render_context).commands@
                == old(render_context).commands@ && final(render_context).next_id == old(
                render_context,
            ).next_id,
            !node_skips(view) ==> {
                let v = view->Some_0;
                let cache = old(self).cached_texture_bind_group;
                let start = old(render_context).next_id;
                let bind_group = cache.lookup_bind_group(v.target.main_texture, start);
                &&& final(self).cached_texture_bind_group == cache.after_lookup(
                    v.target.main_texture,
                    start,
                )
                &&& final(render_context).next_id == cache.next_id_after(
                    v.target.main_texture,
                    start,
                )
                &&& final(render_context).commands@ == old(render_context).commands@
                    + cache.lookup_commands(
                    v.target.main_texture,
                    blit_pipeline.texture_bind_group,
                    start,
                ) + node_pass_commands(*pipeline_cache, v, bind_group)
            },
    {
        let view_state = match view {
            Some(v) => v,
            None => {
                return Ok(());
            },
        };

        let color_attachment_load_op = match view_state.camera {
            Some(camera) => match camera.output_mode {
                CameraOutputMode::Write { color_attachment_load_op } => color_attachment_load_op,
                CameraOutputMode::Skip => {
                    return Ok(());
                },
            },
            None => LoadOp::Clear,
        };

        let upscaled_texture = view_state.target.main_texture;

        let (bind_group, _created) = self.cached_texture_bind_group.get_or_create(
            upscaled_texture,
            blit_pipeline.texture_bind_group,
            render_context,
        );

        match pipeline_cache.get_render_pipeline(view_state.upscaling_pipeline.id) {
            Some(_) => {},
            None => {
                proof {
                    lemma_commands_no_pass(
                        old(render_context).commands@,
                        old(self).cached_texture_bind_group.lookup_commands(
                            upscaled_texture,
                            blit_pipeline.texture_bind_group,
                            old(render_context).next_id,
                        ),
                    );
                }
                return Ok(());
            },
        }

        render_context.begin_render_pass(
            view_state.target.out_texture,
            color_attachment_load_op,
            true,
        );
        render_context.set_render_pipeline(view_state.upscaling_pipeline.id);
        render_context.set_bind_group(0, bind_group);
        render_context.draw(0, 3, 0, 1);

        proof {
            assert(render_context.commands@ =~= old(render_context).commands@ + old(
                self,
            ).cached_texture_bind_group.lookup_commands(
                upscaled_texture,
                blit_pipeline.texture_bind_group,
                old(render_context).next_id,
            ) + node_pass_commands(
                *pipeline_cache,
                view_state,
                old(self).cached_texture_bind_group.lookup_bind_group(
                    upscaled_texture,
                    old(render_context).next_id,
                ),
            ));
        }
        Ok(())
    }
}

/// Appending nothing changes nothing: the command list after the cache
/// lookup already equals the run's whole recording when no pass is added.
proof fn lemma_commands_no_pass(commands: Seq<GpuCommand>, appended: Seq<GpuCommand>)
    ensures
        commands + appended + Seq::<GpuCommand>::empty() == commands + appended,
{
    assert(commands + appended + Seq::<GpuCommand>::empty() =~= commands + appended);
}

} // verus!
