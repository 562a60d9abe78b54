//! Identifiers for GPU-side objects and a recording GPU context.
//!
//! The real renderer talks to an opaque GPU backend; here every backend
//! call is recorded as a [`GpuCommand`], so contracts can say precisely
//! which commands a frame step emits and in which order.

use vstd::prelude::*;

verus! {

/// Identity of one GPU texture view; equality of tokens, not structure,
/// drives cache invalidation.
#[derive(Clone, Copy, PartialEq, Eq, Structural, Debug)]
pub struct TextureViewId {
    pub id: u64,
}

/// A sampler object created by the backend.
#[derive(Clone, Copy, PartialEq, Eq, Structural, Debug)]
pub struct SamplerId {
    pub id: u64,
}

/// A binding set grouping resource bindings (texture, sampler) for a pipeline.
#[derive(Clone, Copy, PartialEq, Eq, Structural, Debug)]
pub struct BindGroupId {
    pub id: u64,
}

/// An externally owned layout that binding sets are built against.
#[derive(Clone, Copy, PartialEq, Eq, Structural, Debug)]
pub struct BindGroupLayoutId {
    pub id: u64,
}

/// A shader module reference.
#[derive(Clone, Copy, PartialEq, Eq, Structural, Debug)]
pub struct ShaderId {
    pub id: u64,
}

/// Handle into the pipeline cache; owned by the cache, borrowed by phase items.
#[derive(Clone, Copy, PartialEq, Eq, Structural, Debug)]
pub struct CachedRenderPipelineId {
    pub id: usize,
}

/// Identifier of a registered draw function.
#[derive(Clone, Copy, PartialEq, Eq, Structural, Debug)]
pub struct DrawFunctionId {
    pub id: usize,
}

/// The entity a drawable item or a view belongs to.
#[derive(Clone, Copy, PartialEq, Eq, Structural, Debug)]
pub struct Entity {
    pub id: u64,
}

/// What happens to a color attachment when a pass begins.
#[derive(Clone, Copy, PartialEq, Eq, Structural, Debug)]
pub enum LoadOp {
    /// Clear the attachment to the default clear color.
    Clear,
    /// Keep the attachment's previous contents.
    Load,
}

/// One recorded GPU backend call.
#[derive(Clone, Copy, PartialEq, Eq, Structural, Debug)]
pub enum GpuCommand {
    /// A sampler with default settings was created.
    CreateSampler { sampler: SamplerId },
    /// A binding set pairing a texture view and a sampler was built
    /// against a fixed layout.
    CreateBindGroup {
        bind_group: BindGroupId,
        layout: BindGroupLayoutId,
        texture: TextureViewId,
        sampler: SamplerId,
    },
    /// A render pass with a single color attachment began.
    BeginRenderPass { attachment: TextureViewId, load: LoadOp, store: bool },
    /// A compiled pipeline was bound.
    SetRenderPipeline { pipeline: CachedRenderPipelineId },
    /// A binding set was bound at a bind-group index.
    SetBindGroup { index: u32, bind_group: BindGroupId },
    /// A direct draw of a vertex range over an instance range.
    Draw { first_vertex: u32, vertex_count: u32, first_instance: u32, instance_count: u32 },
    /// A mesh draw issued on behalf of an entity's drawable item.
    DrawMesh { entity: Entity },
}

/// The per-frame GPU recording context: every backend call a step makes is
/// appended to `commands`, and `next_id` mints fresh object identifiers.
pub struct RenderContext {
    pub commands: Vec<GpuCommand>,
    pub next_id: u64,
}

impl RenderContext {
    pub fn new() -> (ctx: RenderContext)
        ensures
            ctx.commands@ == Seq::<GpuCommand>::empty(),
            ctx.next_id == 0,
    {
        RenderContext { commands: Vec::new(), next_id: 0 }
    }

    /// Create a sampler with default settings.
    pub fn create_sampler(&mut self) -> (sampler: SamplerId)
        requires
            old(self).next_id < u64::MAX,
        ensures
            sampler == (SamplerId { id: old(self).next_id }),
            final(self).next_id == old(self).next_id + 1,
            final(self).commands@ == old(self).commands@.push(
                GpuCommand::CreateSampler { sampler },
            ),
    {
        let sampler = SamplerId { id: self.next_id };
        self.next_id = self.next_id + 1;
        self.commands.push(GpuCommand::CreateSampler { sampler });
        sampler
    }

    /// Build a binding set pairing `texture` and `sampler` against `layout`.
    pub fn create_bind_group(
        &mut self,
        layout: BindGroupLayoutId,
        texture: TextureViewId,
        sampler: SamplerId,
    ) -> (bind_group: BindGroupId)
        requires
            old(self).next_id < u64::MAX,
        ensures
            bind_group == (BindGroupId { id: old(self).next_id }),
            final(self).next_id == old(self).next_id + 1,
            final(self).commands@ == old(self).commands@.push(
                GpuCommand::CreateBindGroup { bind_group, layout, texture, sampler },
            ),
    {
        let bind_group = BindGroupId { id: self.next_id };
        self.next_id = self.next_id + 1;
        self.commands.push(GpuCommand::CreateBindGroup { bind_group, layout, texture, sampler });
        bind_group
    }

    /// Begin a render pass with one color attachment.
    pub fn begin_render_pass(&mut self, attachment: TextureViewId, load: LoadOp, store: bool)
        ensures
            final(self).next_id == old(self).next_id,
            final(self).commands@ == old(self).commands@.push(
                GpuCommand::BeginRenderPass { attachment, load, store },
            ),
    {
        self.commands.push(GpuCommand::BeginRenderPass { attachment, load, store });
    }

    /// Bind a compiled pipeline in the current pass.
    pub fn set_render_pipeline(&mut self, pipeline: CachedRenderPipelineId)
        ensures
            final(self).next_id == old(self).next_id,
            final(self).commands@ == old(self).commands@.push(
                GpuCommand::SetRenderPipeline { pipeline },
            ),
    {
        self.commands.push(GpuCommand::SetRenderPipeline { pipeline });
    }

    /// Bind a binding set at a bind-group index in the current pass.
    pub fn set_bind_group(&mut self, index: u32, bind_group: BindGroupId)
        ensures
            final(self).next_id == old(self).next_id,
            final(self).commands@ == old(self).commands@.push(
                GpuCommand::SetBindGroup { index, bind_group },
            ),
    {
        self.commands.push(GpuCommand::SetBindGroup { index, bind_group });
    }

    /// Issue a direct draw over a vertex range and an instance range.
    pub fn draw(
        &mut self,
        first_vertex: u32,
        vertex_count: u32,
        first_instance: u32,
        instance_count: u32,
    )
        ensures
            final(self).next_id == old(self).next_id,
            final(self).commands@ == old(self).commands@.push(
                GpuCommand::Draw { first_vertex, vertex_count, first_instance, instance_count },
            ),
    {
        self.commands.push(
            GpuCommand::Draw { first_vertex, vertex_count, first_instance, instance_count },
        );
    }

    /// Issue a mesh draw for an entity's drawable item.
    pub fn draw_mesh(&mut self, entity: Entity)
        ensures
            final(self).next_id == old(self).next_id,
            final(self).commands@ == old(self).commands@.push(GpuCommand::DrawMesh { entity }),
    {
        self.commands.push(GpuCommand::DrawMesh { entity });
    }
}

} // verus!
