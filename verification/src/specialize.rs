//! Pipeline specialization for the 2D line phase, and its memoization.
//!
//! The base descriptor source derives a concrete pipeline descriptor from
//! a feature key and a mesh's vertex layout; the specialization cache
//! memoizes (base identity, key) to the compiled handle, invalidating
//! wholesale when the base descriptor's identity changes. A handle, once
//! stored, is returned for every later query with the identical key.

use vstd::prelude::*;
use crate::gpu::{BindGroupLayoutId, CachedRenderPipelineId, ShaderId};
use crate::key::{spec_key_msaa_samples, spec_key_topology, Mesh2dPipelineKey};
use crate::pipeline_cache::PipelineCache;
use crate::render_resource::{
    layout_satisfies, resolved_layout, MeshVertexBufferLayout, PipelineDescriptorModel,
    RenderPipelineDescriptor, SpecializedMeshPipelineError, VertexAttributeRequest,
};

verus! {

/// Attribute identity of a mesh's vertex positions.
pub const ATTRIBUTE_POSITION: u64 = 0;

/// Attribute identity of a mesh's vertex colors.
pub const ATTRIBUTE_COLOR: u64 = 5;

/// The attributes the line shader reads, at their fixed shader locations:
/// position at location zero, color at location one.
pub open spec fn gizmo_vertex_requests() -> Seq<VertexAttributeRequest> {
    seq![
        VertexAttributeRequest { attribute_id: ATTRIBUTE_POSITION, shader_location: 0 },
        VertexAttributeRequest { attribute_id: ATTRIBUTE_COLOR, shader_location: 1 },
    ]
}

/// Whether a mesh layout carries both attributes the line shader requires.
pub open spec fn gizmo_layout_ok(layout: MeshVertexBufferLayout) -> bool {
    layout_satisfies(layout.attributes@, gizmo_vertex_requests())
}

/// The base descriptor source for the 2D line phase: everything a derived
/// descriptor copies independently of the key and the mesh layout.
#[derive(Clone, Copy, PartialEq, Eq, Structural, Debug)]
pub struct GizmoPipeline2d {
    /// Identity of the base description; when it changes, every cached
    /// specialization derived from it is stale and must be dropped.
    pub id: u64,
    /// The view bind-group layout shared with the 2D mesh pipeline.
    pub view_layout: BindGroupLayoutId,
    /// The line shader, used for both vertex and fragment stages.
    pub shader: ShaderId,
}

/// The descriptor specialization derives: topology and sample count come
/// from the key alone, the vertex buffer from the mesh layout alone, and
/// alpha blending is fixed on. Identical (key, layout) pairs thus always
/// derive identical descriptors.
pub open spec fn spec_gizmo_descriptor(
    pipeline: GizmoPipeline2d,
    key: Mesh2dPipelineKey,
    layout: MeshVertexBufferLayout,
) -> PipelineDescriptorModel {
    PipelineDescriptorModel {
        shader: pipeline.shader,
        vertex_attributes: resolved_layout(layout.attributes@, gizmo_vertex_requests()),
        layout: pipeline.view_layout,
        topology: spec_key_topology(key.bits),
        sample_count: spec_key_msaa_samples(key.bits),
        alpha_blending: true,
    }
}

impl GizmoPipeline2d {
    pub fn new(id: u64, view_layout: BindGroupLayoutId, shader: ShaderId) -> (pipeline:
        GizmoPipeline2d)
        ensures
            pipeline == (GizmoPipeline2d { id, view_layout, shader }),
    {
        GizmoPipeline2d { id, view_layout, shader }
    }

    /// Derive the concrete descriptor for a key against a mesh's actual
    /// vertex layout. Succeeds exactly when the layout holds the position
    /// and color attributes; a layout lacking one is a layout mismatch and
    /// yields no descriptor.
    pub fn specialize(&self, key: Mesh2dPipelineKey, layout: &MeshVertexBufferLayout) -> (result:
        Result<RenderPipelineDescriptor, SpecializedMeshPipelineError>)
        ensures
            gizmo_layout_ok(*layout) ==> (result matches Ok(descriptor) && descriptor.model()
                == spec_gizmo_descriptor(*self, key, *layout)),
            !gizmo_layout_ok(*layout) ==> result == Err::<
                RenderPipelineDescriptor,
                SpecializedMeshPipelineError,
            >(SpecializedMeshPipelineError::LayoutMismatch),
    {
        let mut requests: Vec<VertexAttributeRequest> = Vec::new();
        requests.push(VertexAttributeRequest { attribute_id: ATTRIBUTE_POSITION, shader_location: 0 });
        requests.push(VertexAttributeRequest { attribute_id: ATTRIBUTE_COLOR, shader_location: 1 });
        proof {
            assert(requests@ =~= gizmo_vertex_requests());
        }
        let vertex_buffer_layout = match layout.get_layout(&requests) {
            Ok(resolved) => resolved,
            Err(error) => {
                return Err(error);
            },
        };
        Ok(
            RenderPipelineDescriptor {
                shader: self.shader,
                vertex_buffer: vertex_buffer_layout,
                layout: self.view_layout,
                topology: key.primitive_topology(),
                sample_count: key.msaa_samples(),
                alpha_blending: true,
            },
        )
    }
}

/// One memoized specialization: a key's bits and the handle compiled for it.
#[derive(Clone, Copy, PartialEq, Eq, Structural, Debug)]
pub struct SpecializationEntry {
    pub key_bits: u32,
    pub pipeline: CachedRenderPipelineId,
}

/// The handle stored for a key, scanning entries in insertion order.
pub open spec fn lookup_entry(entries: Seq<SpecializationEntry>, key_bits: u32) -> Option<
    CachedRenderPipelineId,
>
    decreases entries.len(),
{
    if entries.len() == 0 {
        None
    } else if entries[0].key_bits == key_bits {
        Some(entries[0].pipeline)
    } else {
        lookup_entry(entries.drop_first(), key_bits)
    }
}

/// A key that resolves to no entry occurs in none.
proof fn lemma_lookup_none(entries: Seq<SpecializationEntry>, key_bits: u32)
    requires
        lookup_entry(entries, key_bits) is None,
    ensures
        forall|i: int| 0 <= i < entries.len() ==> (#[trigger] entries[i]).key_bits != key_bits,
    decreases entries.len(),
{
    if entries.len() > 0 {
        lemma_lookup_none(entries.drop_first(), key_bits);
        assert forall|i: int|
            0 <= i < entries.len() implies (#[trigger] entries[i]).key_bits != key_bits by {
            if i > 0 {
                assert(entries[i] == entries.drop_first()[i - 1]);
            }
        }
    }
}

/// Appending an entry for a key not yet present makes lookups of that key
/// find exactly it.
proof fn lemma_lookup_push(
    entries: Seq<SpecializationEntry>,
    key_bits: u32,
    pipeline: CachedRenderPipelineId,
)
    requires
        lookup_entry(entries, key_bits) is None,
    ensures
        lookup_entry(entries.push(SpecializationEntry { key_bits, pipeline }), key_bits) == Some(
            pipeline,
        ),
    decreases entries.len(),
{
    if entries.len() == 0 {
        reveal_with_fuel(lookup_entry, 2);
        assert(entries.push(SpecializationEntry { key_bits, pipeline }) =~= seq![
            SpecializationEntry { key_bits, pipeline },
        ]);
    } else {
        lemma_lookup_push(entries.drop_first(), key_bits, pipeline);
        assert(entries.push(SpecializationEntry { key_bits, pipeline }).drop_first()
            =~= entries.drop_first().push(SpecializationEntry { key_bits, pipeline }));
    }
}

/// A found handle stands at some entry of its key.
proof fn lemma_lookup_index(entries: Seq<SpecializationEntry>, key_bits: u32)
    requires
        lookup_entry(entries, key_bits) is Some,
    ensures
        exists|i: int|
            0 <= i < entries.len() && #[trigger] entries[i] == (SpecializationEntry {
                key_bits,
                pipeline: lookup_entry(entries, key_bits)->Some_0,
            }),
    decreases entries.len(),
{
    if entries[0].key_bits == key_bits {
        assert(entries[0] == SpecializationEntry {
            key_bits,
            pipeline: lookup_entry(entries, key_bits)->Some_0,
        });
    } else {
        lemma_lookup_index(entries.drop_first(), key_bits);
        let i = choose|i: int|
            0 <= i < entries.drop_first().len() && #[trigger] entries.drop_first()[i]
                == (SpecializationEntry {
                key_bits,
                pipeline: lookup_entry(entries.drop_first(), key_bits)->Some_0,
            });
        assert(entries[i + 1] == entries.drop_first()[i]);
    }
}

/// What one specialization query does, stated over the cache's
/// mathematical state: the entries after the wholesale base check, the
/// handle returned, how far the pipeline cache has grown, and whether a
/// new descriptor was queued.
pub struct SpecializeStep {
    pub base_id: u64,
    pub entries: Seq<SpecializationEntry>,
    pub cache_len: nat,
    pub queued: bool,
    pub result: Result<CachedRenderPipelineId, SpecializedMeshPipelineError>,
}

/// The specialization step: drop every entry when the base identity
/// changed; return the stored handle on a hit; otherwise derive a
/// descriptor (failing on a layout mismatch), queue it, and store the new
/// handle under the key.
pub open spec fn spec_specialize(
    base_id: u64,
    entries: Seq<SpecializationEntry>,
    cache_len: nat,
    pipeline_id: u64,
    key_bits: u32,
    layout_ok: bool,
) -> SpecializeStep {
    let checked = if base_id == pipeline_id {
        entries
    } else {
        Seq::<SpecializationEntry>::empty()
    };
    match lookup_entry(checked, key_bits) {
        Some(handle) => SpecializeStep {
            base_id: pipeline_id,
            entries: checked,
            cache_len,
            queued: false,
            result: Ok(handle),
        },
        None => if layout_ok {
            let handle = CachedRenderPipelineId { id: cache_len as usize };
            SpecializeStep {
                base_id: pipeline_id,
                entries: checked.push(SpecializationEntry { key_bits, pipeline: handle }),
                cache_len: cache_len + 1,
                queued: true,
                result: Ok(handle),
            }
        } else {
            SpecializeStep {
                base_id: pipeline_id,
                entries: checked,
                cache_len,
                queued: false,
                result: Err(SpecializedMeshPipelineError::LayoutMismatch),
            }
        },
    }
}

/// The memoization table of compiled specializations for one base
/// descriptor source.
pub struct SpecializedMeshPipelines {
    /// Identity of the base description the entries were derived from.
    pub base_id: u64,
    pub entries: Vec<SpecializationEntry>,
}

impl SpecializedMeshPipelines {
    /// Well-formedness against the pipeline cache the table queues into:
    /// one entry per key, one key per handle, every handle already issued
    /// by the cache.
    pub open spec fn wf(self, cache: PipelineCache) -> bool {
        &&& forall|i: int, j: int|
            0 <= i < j < self.entries@.len() ==> (#[trigger] self.entries@[i]).key_bits != (
            #[trigger] self.entries@[j]).key_bits
        &&& forall|i: int, j: int|
            0 <= i < j < self.entries@.len() ==> (#[trigger] self.entries@[i]).pipeline != (
            #[trigger] self.entries@[j]).pipeline
        &&& forall|i: int|
            0 <= i < self.entries@.len() ==> (#[trigger] self.entries@[i]).pipeline.id
                < cache.entries@.len()
    }

    pub fn new(base_id: u64) -> (table: SpecializedMeshPipelines)
        ensures
            table.base_id == base_id,
            table.entries@ == Seq::<SpecializationEntry>::empty(),
    {
        SpecializedMeshPipelines { base_id, entries: Vec::new() }
    }

    /// The handle stored for a key, if one is.
    fn lookup(&self, key_bits: u32) -> (result: Option<CachedRenderPipelineId>)
        ensures
            result == lookup_entry(self.entries@, key_bits),
    {
        let ghost entries = self.entries@;
        proof {
            assert(entries.skip(0) =~= entries);
        }
        let mut i: usize = 0;
        while i < self.entries.len()
            invariant
                i <= entries.len(),
                entries == self.entries@,
                lookup_entry(entries, key_bits) == lookup_entry(entries.skip(i as int), key_bits),
            decreases entries.len() - i,
        {
            if self.entries[i].key_bits == key_bits {
                proof {
                    assert(entries.skip(i as int)[0] == entries[i as int]);
                }
                return Some(self.entries[i].pipeline);
            }
            proof {
                assert(entries.skip(i as int).drop_first() =~= entries.skip(i as int + 1));
            }
            i = i + 1;
        }
        None
    }

    /// Look (base identity, key) up, deriving, queuing and storing on a
    /// miss. A hit returns the stored handle and changes nothing — the
    /// descriptor source is not consulted. A changed base identity first
    /// drops every stored entry. A layout mismatch surfaces to the caller
    /// and stores nothing.
    pub fn specialize(
        &mut self,
        pipeline_cache: &mut PipelineCache,
        pipeline: &GizmoPipeline2d,
        key: Mesh2dPipelineKey,
        layout: &MeshVertexBufferLayout,
    ) -> (result: Result<CachedRenderPipelineId, SpecializedMeshPipelineError>)
        requires
            old(self).wf(*old(pipeline_cache)),
        ensures
            final(self).wf(*final(pipeline_cache)),
            ({
                let step = spec_specialize(
                    old(self).base_id,
                    old(self).entries@,
                    old(pipeline_cache).entries@.len(),
                    pipeline.id,
                    key.bits,
                    gizmo_layout_ok(*layout),
                );
                &&& final(self).base_id == step.base_id
                &&& final(self).entries@ == step.entries
                &&& final(pipeline_cache).entries@.len() == step.cache_len
                &&& result == step.result
                &&& forall|t: int|
                    0 <= t < old(pipeline_cache).entries@.len()
                        ==> final(pipeline_cache).entries@[t]
                        == old(pipeline_cache).entries@[t]
                &&& !step.queued
                    ==> final(pipeline_cache).entries@ == old(pipeline_cache).entries@
                &&& step.queued ==> final(pipeline_cache).entries@.last().descriptor.model()
                    == spec_gizmo_descriptor(*pipeline, key, *layout)
                    && !final(pipeline_cache).entries@.last().compiled
            }),
    {
        if self.base_id != pipeline.id {
            self.entries.clear();
            self.base_id = pipeline.id;
        }
        match self.lookup(key.bits) {
            Some(handle) => Ok(handle),
            None => {
                let descriptor = match pipeline.specialize(key, layout) {
                    Ok(descriptor) => descriptor,
                    Err(error) => {
                        return Err(error);
                    },
                };
                let handle = pipeline_cache.queue_render_pipeline(descriptor);
                proof {
                    lemma_lookup_push(self.entries@, key.bits, handle);
                    lemma_lookup_none(self.entries@, key.bits);
                }
                self.entries.push(SpecializationEntry { key_bits: key.bits, pipeline: handle });
                Ok(handle)
            },
        }
    }
}

/// Once a query has stored a handle for a key, every later query with the
/// same key and an unchanged base identity returns that same handle,
/// changes no state, and queues nothing — whatever layout accompanies it:
/// the descriptor source is not consulted again.
pub proof fn lemma_specialize_memoized(
    base_id: u64,
    entries: Seq<SpecializationEntry>,
    cache_len: nat,
    pipeline_id: u64,
    key_bits: u32,
    layout_ok: bool,
    later_layout_ok: bool,
)
    requires
        spec_specialize(base_id, entries, cache_len, pipeline_id, key_bits, layout_ok).result
            is Ok,
    ensures
        ({
            let first = spec_specialize(
                base_id,
                entries,
                cache_len,
                pipeline_id,
                key_bits,
                layout_ok,
            );
            let second = spec_specialize(
                first.base_id,
                first.entries,
                first.cache_len,
                pipeline_id,
                key_bits,
                later_layout_ok,
            );
            &&& second.result == first.result
            &&& !second.queued
            &&& second.entries == first.entries
            &&& second.cache_len == first.cache_len
            &&& second.base_id == first.base_id
        }),
{
    let checked = if base_id == pipeline_id {
        entries
    } else {
        Seq::<SpecializationEntry>::empty()
    };
    if lookup_entry(checked, key_bits) is None {
        let first = spec_specialize(base_id, entries, cache_len, pipeline_id, key_bits, layout_ok);
        lemma_lookup_push(checked, key_bits, CachedRenderPipelineId { id: cache_len as usize });
    }
}

/// Two keys stored in a well-formed table never share a handle: a lookup
/// of each yields distinct pipelines.
pub proof fn lemma_distinct_keys_distinct_handles(
    table: SpecializedMeshPipelines,
    cache: PipelineCache,
    key_bits_1: u32,
    key_bits_2: u32,
)
    requires
        table.wf(cache),
        key_bits_1 != key_bits_2,
        lookup_entry(table.entries@, key_bits_1) is Some,
        lookup_entry(table.entries@, key_bits_2) is Some,
    ensures
        lookup_entry(table.entries@, key_bits_1) != lookup_entry(table.entries@, key_bits_2),
{
    lemma_lookup_index(table.entries@, key_bits_1);
    lemma_lookup_index(table.entries@, key_bits_2);
    let i = choose|i: int|
        0 <= i < table.entries@.len() && #[trigger] table.entries@[i] == (SpecializationEntry {
            key_bits: key_bits_1,
            pipeline: lookup_entry(table.entries@, key_bits_1)->Some_0,
        });
    let j = choose|j: int|
        0 <= j < table.entries@.len() && #[trigger] table.entries@[j] == (SpecializationEntry {
            key_bits: key_bits_2,
            pipeline: lookup_entry(table.entries@, key_bits_2)->Some_0,
        });
    assert(i != j);
    if i < j {
        assert(table.entries@[i].pipeline != table.entries@[j].pipeline);
    } else {
        assert(table.entries@[j].pipeline != table.entries@[i].pipeline);
    }
}

} // verus!
