//! The process-wide cache of compiled render pipelines.
//!
//! Queuing a descriptor hands back a stable handle at once; compilation
//! completes later (the real cache compiles asynchronously), and a lookup
//! yields the pipeline only once its compilation has finished. A node that
//! finds its pipeline unready simply skips its work for the frame.

use vstd::prelude::*;
use crate::gpu::CachedRenderPipelineId;
use crate::render_resource::RenderPipelineDescriptor;

verus! {

/// One queued pipeline and whether its compilation has finished.
pub struct PipelineEntry {
    pub descriptor: RenderPipelineDescriptor,
    pub compiled: bool,
}

/// The pipeline cache collaborator: handles index into `entries`.
pub struct PipelineCache {
    pub entries: Vec<PipelineEntry>,
}

impl PipelineCache {
    /// Whether a handle refers to a pipeline whose compilation has finished.
    pub open spec fn pipeline_ready(self, id: CachedRenderPipelineId) -> bool {
        id.id < self.entries@.len() && self.entries@[id.id as int].compiled
    }

    pub fn new() -> (cache: PipelineCache)
        ensures
            cache.entries@ == Seq::<PipelineEntry>::empty(),
    {
        PipelineCache { entries: Vec::new() }
    }

    /// Submit a descriptor for (possibly asynchronous) compilation; the
    /// returned handle is stable and refers to the queued entry.
    pub fn queue_render_pipeline(&mut self, descriptor: RenderPipelineDescriptor) -> (id:
        CachedRenderPipelineId)
        ensures
            id.id == old(self).entries@.len(),
            final(self).entries@ == old(self).entries@.push(
                PipelineEntry { descriptor, compiled: false },
            ),
    {
        let id = CachedRenderPipelineId { id: self.entries.len() };
        self.entries.push(PipelineEntry { descriptor, compiled: false });
        id
    }

    /// Mark one queued pipeline as compiled: the moment the asynchronous
    /// compiler would finish it.
    pub fn finish_compilation(&mut self, id: CachedRenderPipelineId)
        requires
            id.id < old(self).entries@.len(),
        ensures
            final(self).entries@.len() == old(self).entries@.len(),
            final(self).entries@[id.id as int].descriptor == old(self).entries@[
                id.id as int
            ].descriptor,
            final(self).entries@[id.id as int].compiled,
            forall|t: int|
                0 <= t < old(self).entries@.len() && t != id.id ==> final(self).entries@[t] == old(
                    self,
                ).entries@[t],
    {
        self.entries[id.id].compiled = true;
    }

    /// Look a handle up: the compiled pipeline's descriptor once compilation
    /// has finished, nothing before that.
    pub fn get_render_pipeline(&self, id: CachedRenderPipelineId) -> (result: Option<
        &RenderPipelineDescriptor,
    >)
        ensures
            result is Some <==> self.pipeline_ready(id),
            result matches Some(descriptor) ==> *descriptor == self.entries@[
                id.id as int
            ].descriptor,
    {
        if id.id < self.entries.len() {
            if self.entries[id.id].compiled {
                Some(&self.entries[id.id].descriptor)
            } else {
                None
            }
        } else {
            None
        }
    }
}

} // verus!
