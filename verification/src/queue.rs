//! The queue step and the per-view phase extraction.
//!
//! Extraction installs a fresh, empty line phase on every view whose
//! camera is active. The queue step then walks every view's phase and
//! every drawable candidate: a candidate whose mesh upload has not
//! finished is skipped for the frame (retried implicitly next frame); for
//! the rest, a specialization key is derived from the multisample setting
//! and the mesh's topology, the specializer supplies the pipeline handle,
//! and a phase item is appended whose sort key is the maximum value — so
//! draw order within this phase is insertion order.

use vstd::prelude::*;
use crate::gpu::{DrawFunctionId, Entity};
use crate::key::{spec_msaa_exp, spec_topology_code, valid_msaa_samples, Mesh2dPipelineKey};
use crate::key::PrimitiveTopology;
use crate::phase::{spec_kind_id, DrawFunctionKind, DrawFunctions, GizmoLine2d, RenderPhase};
use crate::pipeline_cache::PipelineCache;
use crate::render_resource::{MeshVertexBufferLayout, SpecializedMeshPipelineError};
use crate::specialize::{
    gizmo_layout_ok, spec_specialize, GizmoPipeline2d, SpecializedMeshPipelines,
};

verus! {

/// The current multisampling setting of the render target.
#[derive(Clone, Copy, PartialEq, Eq, Structural, Debug)]
pub struct Msaa {
    pub samples: u32,
}

impl Msaa {
    /// The sample count per pixel.
    pub fn samples(&self) -> (samples: u32)
        ensures
            samples == self.samples,
    {
        self.samples
    }
}

/// A handle naming a 2D mesh asset.
#[derive(Clone, Copy, PartialEq, Eq, Structural, Debug)]
pub struct Mesh2dHandle {
    pub id: u64,
}

/// The rendering-ready GPU representation of a mesh: what the queue step
/// reads of it.
pub struct GpuMesh {
    pub layout: MeshVertexBufferLayout,
    pub primitive_topology: PrimitiveTopology,
}

/// One uploaded mesh, stored under its handle.
pub struct MeshAssetEntry {
    pub handle: u64,
    pub mesh: GpuMesh,
}

/// The mesh stored under a handle: the first entry carrying it, if any.
pub open spec fn lookup_mesh(entries: Seq<MeshAssetEntry>, handle: u64) -> Option<GpuMesh>
    decreases entries.len(),
{
    if entries.len() == 0 {
        None
    } else if entries[0].handle == handle {
        Some(entries[0].mesh)
    } else {
        lookup_mesh(entries.drop_first(), handle)
    }
}

/// The external mesh-asset cache: the meshes whose GPU upload has
/// finished. A handle not present here is a mesh still uploading.
pub struct RenderAssets {
    pub meshes: Vec<MeshAssetEntry>,
}

impl RenderAssets {
    pub fn new() -> (assets: RenderAssets)
        ensures
            assets.meshes@ == Seq::<MeshAssetEntry>::empty(),
    {
        RenderAssets { meshes: Vec::new() }
    }

    /// Record a finished upload. Lookups find the first entry of a handle,
    /// so a handle inserted twice keeps its first mesh.
    pub fn insert(&mut self, handle: u64, mesh: GpuMesh)
        ensures
            final(self).meshes@ == old(self).meshes@.push(MeshAssetEntry { handle, mesh }),
    {
        self.meshes.push(MeshAssetEntry { handle, mesh });
    }

    /// The uploaded mesh under a handle, or nothing while it uploads.
    pub fn get(&self, handle: u64) -> (result: Option<&GpuMesh>)
        ensures
            match result {
                Some(mesh) => lookup_mesh(self.meshes@, handle) == Some(*mesh),
                None => lookup_mesh(self.meshes@, handle) is None,
            },
    {
        let ghost entries = self.meshes@;
        proof {
            assert(entries.skip(0) =~= entries);
        }
        let mut i: usize = 0;
        while i < self.meshes.len()
            invariant
                i <= entries.len(),
                entries == self.meshes@,
                lookup_mesh(entries, handle) == lookup_mesh(entries.skip(i as int), handle),
            decreases entries.len() - i,
        {
            if self.meshes[i].handle == handle {
                proof {
                    assert(entries.skip(i as int)[0] == entries[i as int]);
                }
                return Some(&self.meshes[i].mesh);
            }
            proof {
                assert(entries.skip(i as int).drop_first() =~= entries.skip(i as int + 1));
            }
            i = i + 1;
        }
        None
    }
}

/// One drawable candidate: an entity carrying the phase's marker and its
/// mesh handle, as the queue step's query yields them.
#[derive(Clone, Copy, PartialEq, Eq, Structural, Debug)]
pub struct MeshCandidate {
    pub entity: Entity,
    pub mesh: Mesh2dHandle,
}

/// What queuing a run of candidates into one phase does: the specializer
/// and pipeline-cache state it leaves, the phase's items, and whether it
/// ran to completion (false only on a layout mismatch, which aborts the
/// phase).
pub struct QueueStep {
    pub base_id: u64,
    pub entries: Seq<crate::specialize::SpecializationEntry>,
    pub cache_len: nat,
    pub items: Seq<GizmoLine2d>,
    pub ok: bool,
}

/// Queue `candidates` into a phase holding `items`: skip a candidate
/// whose mesh is absent; otherwise derive the key from the base key and
/// the mesh's topology, specialize, and append an item with the maximum
/// sort key. A layout mismatch stops the run where it stands.
pub open spec fn spec_queue_candidates(
    base_id: u64,
    entries: Seq<crate::specialize::SpecializationEntry>,
    cache_len: nat,
    pipeline: GizmoPipeline2d,
    base_key: Mesh2dPipelineKey,
    draw_function: DrawFunctionId,
    meshes: Seq<MeshAssetEntry>,
    candidates: Seq<MeshCandidate>,
    items: Seq<GizmoLine2d>,
) -> QueueStep
    decreases candidates.len(),
{
    if candidates.len() == 0 {
        QueueStep { base_id, entries, cache_len, items, ok: true }
    } else {
        let candidate = candidates[0];
        match lookup_mesh(meshes, candidate.mesh.id) {
            None => spec_queue_candidates(
                base_id,
                entries,
                cache_len,
                pipeline,
                base_key,
                draw_function,
                meshes,
                candidates.drop_first(),
                items,
            ),
            Some(mesh) => {
                let key_bits = base_key.bits | (spec_topology_code(mesh.primitive_topology) << 3);
                let step = spec_specialize(
                    base_id,
                    entries,
                    cache_len,
                    pipeline.id,
                    key_bits,
                    gizmo_layout_ok(mesh.layout),
                );
                match step.result {
                    Err(_) => QueueStep {
                        base_id: step.base_id,
                        entries: step.entries,
                        cache_len: step.cache_len,
                        items,
                        ok: false,
                    },
                    Ok(handle) => spec_queue_candidates(
                        step.base_id,
                        step.entries,
                        step.cache_len,
                        pipeline,
                        base_key,
                        draw_function,
                        meshes,
                        candidates.drop_first(),
                        items.push(
                            GizmoLine2d {
                                sort_key: u64::MAX,
                                pipeline: handle,
                                entity: candidate.entity,
                                draw_function,
                            },
                        ),
                    ),
                }
            },
        }
    }
}

/// What the queue step does across all views, each queued in turn with
/// the same candidates against the shared specializer and cache. An abort
/// leaves the remaining views' phases untouched.
pub struct QueueViewsStep {
    pub base_id: u64,
    pub entries: Seq<crate::specialize::SpecializationEntry>,
    pub cache_len: nat,
    pub phases: Seq<Seq<GizmoLine2d>>,
    pub ok: bool,
}

pub open spec fn spec_queue_views(
    base_id: u64,
    entries: Seq<crate::specialize::SpecializationEntry>,
    cache_len: nat,
    pipeline: GizmoPipeline2d,
    base_key: Mesh2dPipelineKey,
    draw_function: DrawFunctionId,
    meshes: Seq<MeshAssetEntry>,
    candidates: Seq<MeshCandidate>,
    phases: Seq<Seq<GizmoLine2d>>,
) -> QueueViewsStep
    decreases phases.len(),
{
    if phases.len() == 0 {
        QueueViewsStep { base_id, entries, cache_len, phases, ok: true }
    } else {
        let step = spec_queue_candidates(
            base_id,
            entries,
            cache_len,
            pipeline,
            base_key,
            draw_function,
            meshes,
            candidates,
            phases[0],
        );
        if !step.ok {
            QueueViewsStep {
                base_id: step.base_id,
                entries: step.entries,
                cache_len: step.cache_len,
                phases: seq![step.items] + phases.drop_first(),
                ok: false,
            }
        } else {
            let rest = spec_queue_views(
                step.base_id,
                step.entries,
                step.cache_len,
                pipeline,
                base_key,
                draw_function,
                meshes,
                candidates,
                phases.drop_first(),
            );
            QueueViewsStep {
                base_id: rest.base_id,
                entries: rest.entries,
                cache_len: rest.cache_len,
                phases: seq![step.items] + rest.phases,
                ok: rest.ok,
            }
        }
    }
}

/// Queuing candidates never shrinks the pipeline cache.
proof fn lemma_queue_cache_grows(
    base_id: u64,
    entries: Seq<crate::specialize::SpecializationEntry>,
    cache_len: nat,
    pipeline: GizmoPipeline2d,
    base_key: Mesh2dPipelineKey,
    draw_function: DrawFunctionId,
    meshes: Seq<MeshAssetEntry>,
    candidates: Seq<MeshCandidate>,
    items: Seq<GizmoLine2d>,
)
    ensures
        spec_queue_candidates(
            base_id,
            entries,
            cache_len,
            pipeline,
            base_key,
            draw_function,
            meshes,
            candidates,
            items,
        ).cache_len >= cache_len,
    decreases candidates.len(),
{
    if candidates.len() == 0 {
    } else {
        let candidate = candidates[0];
        match lookup_mesh(meshes, candidate.mesh.id) {
            None => {
                lemma_queue_cache_grows(
                    base_id,
                    entries,
                    cache_len,
                    pipeline,
                    base_key,
                    draw_function,
                    meshes,
                    candidates.drop_first(),
                    items,
                );
            },
            Some(mesh) => {
                let key_bits = base_key.bits | (spec_topology_code(mesh.primitive_topology) << 3);
                let step = spec_specialize(
                    base_id,
                    entries,
                    cache_len,
                    pipeline.id,
                    key_bits,
                    gizmo_layout_ok(mesh.layout),
                );
                match step.result {
                    Err(_) => {},
                    Ok(handle) => {
                        lemma_queue_cache_grows(
                            step.base_id,
                            step.entries,
                            step.cache_len,
                            pipeline,
                            base_key,
                            draw_function,
                            meshes,
                            candidates.drop_first(),
                            items.push(
                                GizmoLine2d {
                                    sort_key: u64::MAX,
                                    pipeline: handle,
                                    entity: candidate.entity,
                                    draw_function,
                                },
                            ),
                        );
                    },
                }
            },
        }
    }
}

/// The items of each view's phase, in view order.
pub open spec fn phase_items(views: Seq<RenderPhase>) -> Seq<Seq<GizmoLine2d>> {
    Seq::new(views.len(), |i: int| views[i].items@)
}

/// Queue every candidate into one view's phase.
fn queue_phase_items(
    pipeline: &GizmoPipeline2d,
    pipeline_cache: &mut PipelineCache,
    specialized_pipelines: &mut SpecializedMeshPipelines,
    gpu_meshes: &RenderAssets,
    base_key: Mesh2dPipelineKey,
    draw_function: DrawFunctionId,
    mesh_handles: &Vec<MeshCandidate>,
    phase: &mut RenderPhase,
) -> (result: Result<(), SpecializedMeshPipelineError>)
    requires
        old(specialized_pipelines).wf(*old(pipeline_cache)),
    ensures
        final(specialized_pipelines).wf(*final(pipeline_cache)),
        ({
            let step = spec_queue_candidates(
                old(specialized_pipelines).base_id,
                old(specialized_pipelines).entries@,
                old(pipeline_cache).entries@.len(),
                *pipeline,
                base_key,
                draw_function,
                gpu_meshes.meshes@,
                mesh_handles@,
                old(phase).items@,
            );
            &&& final(specialized_pipelines).base_id == step.base_id
            &&& final(specialized_pipelines).entries@ == step.entries
            &&& final(pipeline_cache).entries@.len() == step.cache_len
            &&& final(phase).items@ == step.items
            &&& result == if step.ok {
                Ok::<(), SpecializedMeshPipelineError>(())
            } else {
                Err::<(), SpecializedMeshPipelineError>(
                    SpecializedMeshPipelineError::LayoutMismatch,
                )
            }
            &&& forall|t: int|
                0 <= t < old(pipeline_cache).entries@.len()
                    ==> final(pipeline_cache).entries@[t] == old(pipeline_cache).entries@[t]
        }),
{
    let ghost target = spec_queue_candidates(
        old(specialized_pipelines).base_id,
        old(specialized_pipelines).entries@,
        old(pipeline_cache).entries@.len(),
        *pipeline,
        base_key,
        draw_function,
        gpu_meshes.meshes@,
        mesh_handles@,
        old(phase).items@,
    );
    let ghost candidates = mesh_handles@;
    proof {
        assert(candidates.skip(0) =~= candidates);
    }
    let mut i: usize = 0;
    while i < mesh_handles.len()
        invariant
            i <= candidates.len(),
            candidates == mesh_handles@,
            specialized_pipelines.wf(*pipeline_cache),
            target == spec_queue_candidates(
                old(specialized_pipelines).base_id,
                old(specialized_pipelines).entries@,
                old(pipeline_cache).entries@.len(),
                *pipeline,
                base_key,
                draw_function,
                gpu_meshes.meshes@,
                mesh_handles@,
                old(phase).items@,
            ),
            target == spec_queue_candidates(
                specialized_pipelines.base_id,
                specialized_pipelines.entries@,
                pipeline_cache.entries@.len(),
                *pipeline,
                base_key,
                draw_function,
                gpu_meshes.meshes@,
                candidates.skip(i as int),
                phase.items@,
            ),
            old(pipeline_cache).entries@.len() <= pipeline_cache.entries@.len(),
            forall|t: int|
                0 <= t < old(pipeline_cache).entries@.len() ==> pipeline_cache.entries@[t] == old(
                    pipeline_cache,
                ).entries@[t],
        decreases candidates.len() - i,
    {
        let candidate = mesh_handles[i];
        proof {
            assert(candidates.skip(i as int)[0] == candidates[i as int]);
            assert(candidates.skip(i as int).drop_first() =~= candidates.skip(i as int + 1));
        }
        match gpu_meshes.get(candidate.mesh.id) {
            None => {},
            Some(mesh) => {
                let key = base_key.union(
                    Mesh2dPipelineKey::from_primitive_topology(mesh.primitive_topology),
                );
                match specialized_pipelines.specialize(
                    pipeline_cache,
                    pipeline,
                    key,
                    &mesh.layout,
                ) {
                    Ok(handle) => {
                        phase.add(
                            GizmoLine2d {
                                sort_key: u64::MAX,
                                pipeline: handle,
                                entity: candidate.entity,
                                draw_function,
                            },
                        );
                    },
                    Err(error) => {
                        return Err(error);
                    },
                }
            },
        }
        i = i + 1;
    }
    proof {
        assert(candidates.skip(candidates.len() as int) =~= Seq::<MeshCandidate>::empty());
    }
    Ok(())
}

/// The queue step: for every view's phase and every drawable candidate,
/// resolve the uploaded mesh (skipping candidates whose upload has not
/// finished, without error — retried next frame), derive the key from the
/// multisample setting and the mesh's topology, obtain the pipeline
/// handle from the specializer, and append a phase item whose sort key is
/// the maximum value. A layout mismatch aborts queuing and surfaces to
/// the caller.
pub fn queue_gizmos_2d(
    draw_functions: &DrawFunctions,
    pipeline: &GizmoPipeline2d,
    pipeline_cache: &mut PipelineCache,
    specialized_pipelines: &mut SpecializedMeshPipelines,
    gpu_meshes: &RenderAssets,
    msaa: &Msaa,
    mesh_handles: &Vec<MeshCandidate>,
    views: &mut Vec<RenderPhase>,
) -> (result: Result<(), SpecializedMeshPipelineError>)
    requires
        old(specialized_pipelines).wf(*old(pipeline_cache)),
        valid_msaa_samples(msaa.samples),
        spec_kind_id(draw_functions.functions@, DrawFunctionKind::GizmoLines) is Some,
    ensures
        final(specialized_pipelines).wf(*final(pipeline_cache)),
        final(views)@.len() == old(views)@.len(),
        ({
            let draw_function = spec_kind_id(
                draw_functions.functions@,
                DrawFunctionKind::GizmoLines,
            )->Some_0;
            let step = spec_queue_views(
                old(specialized_pipelines).base_id,
                old(specialized_pipelines).entries@,
                old(pipeline_cache).entries@.len(),
                *pipeline,
                Mesh2dPipelineKey { bits: spec_msaa_exp(msaa.samples) },
                draw_function,
                gpu_meshes.meshes@,
                mesh_handles@,
                phase_items(old(views)@),
            );
            &&& final(specialized_pipelines).base_id == step.base_id
            &&& final(specialized_pipelines).entries@ == step.entries
            &&& final(pipeline_cache).entries@.len() == step.cache_len
            &&& phase_items(final(views)@) == step.phases
            &&& result == if step.ok {
                Ok::<(), SpecializedMeshPipelineError>(())
            } else {
                Err::<(), SpecializedMeshPipelineError>(
                    SpecializedMeshPipelineError::LayoutMismatch,
                )
            }
            &&& forall|t: int|
                0 <= t < old(pipeline_cache).entries@.len()
                    ==> final(pipeline_cache).entries@[t] == old(pipeline_cache).entries@[t]
        }),
{
    let draw_function = match draw_functions.id(DrawFunctionKind::GizmoLines) {
        Some(id) => id,
        None => {
            proof {
                assert(false);
            }
            DrawFunctionId { id: 0 }
        },
    };
    let base_key = Mesh2dPipelineKey::from_msaa_samples(msaa.samples());

    let ghost target = spec_queue_views(
        old(specialized_pipelines).base_id,
        old(specialized_pipelines).entries@,
        old(pipeline_cache).entries@.len(),
        *pipeline,
        base_key,
        draw_function,
        gpu_meshes.meshes@,
        mesh_handles@,
        phase_items(old(views)@),
    );
    proof {
        assert(phase_items(views@).skip(0) =~= phase_items(views@));
        assert(phase_items(views@).take(0) =~= Seq::<Seq<GizmoLine2d>>::empty());
        assert(Seq::<Seq<GizmoLine2d>>::empty() + target.phases =~= target.phases);
    }
    let view_count: usize = views.len();
    let mut k: usize = 0;
    while k < view_count
        invariant
            k <= view_count,
            views@.len() == view_count,
            view_count == old(views)@.len(),
            specialized_pipelines.wf(*pipeline_cache),
            base_key == (Mesh2dPipelineKey { bits: spec_msaa_exp(msaa.samples) }),
            Some(draw_function) == spec_kind_id(
                draw_functions.functions@,
                DrawFunctionKind::GizmoLines,
            ),
            forall|t: int| k <= t < view_count ==> views@[t].items@ == old(views)@[t].items@,
            target == spec_queue_views(
                old(specialized_pipelines).base_id,
                old(specialized_pipelines).entries@,
                old(pipeline_cache).entries@.len(),
                *pipeline,
                base_key,
                draw_function,
                gpu_meshes.meshes@,
                mesh_handles@,
                phase_items(old(views)@),
            ),
            ({
                let rest = spec_queue_views(
                    specialized_pipelines.base_id,
                    specialized_pipelines.entries@,
                    pipeline_cache.entries@.len(),
                    *pipeline,
                    base_key,
                    draw_function,
                    gpu_meshes.meshes@,
                    mesh_handles@,
                    phase_items(views@).skip(k as int),
                );
                &&& target.base_id == rest.base_id
                &&& target.entries == rest.entries
                &&& target.cache_len == rest.cache_len
                &&& target.ok == rest.ok
                &&& target.phases == phase_items(views@).take(k as int) + rest.phases
            }),
            old(pipeline_cache).entries@.len() <= pipeline_cache.entries@.len(),
            forall|t: int|
                0 <= t < old(pipeline_cache).entries@.len() ==> pipeline_cache.entries@[t] == old(
                    pipeline_cache,
                ).entries@[t],
        decreases view_count - k,
    {
        let ghost views_before = views@;
        let ghost table_before = *specialized_pipelines;
        let ghost cache_before = *pipeline_cache;
        proof {
            lemma_queue_cache_grows(
                table_before.base_id,
                table_before.entries@,
                cache_before.entries@.len(),
                *pipeline,
                base_key,
                draw_function,
                gpu_meshes.meshes@,
                mesh_handles@,
                views_before[k as int].items@,
            );
            assert(phase_items(views_before).skip(k as int)[0] == views_before[k as int].items@);
            assert(phase_items(views_before).skip(k as int).drop_first() =~= phase_items(
                views_before,
            ).skip(k as int + 1));
        }
        let outcome = queue_phase_items(
            pipeline,
            pipeline_cache,
            specialized_pipelines,
            gpu_meshes,
            base_key,
            draw_function,
            mesh_handles,
            &mut views[k],
        );
        proof {
            assert(phase_items(views@).skip(k as int + 1) =~= phase_items(views_before).skip(
                k as int + 1,
            ));
            assert(phase_items(views@).take(k as int) =~= phase_items(views_before).take(
                k as int,
            ));
        }
        match outcome {
            Ok(()) => {},
            Err(error) => {
                proof {
                    let rest = spec_queue_views(
                        table_before.base_id,
                        table_before.entries@,
                        cache_before.entries@.len(),
                        *pipeline,
                        base_key,
                        draw_function,
                        gpu_meshes.meshes@,
                        mesh_handles@,
                        phase_items(views_before).skip(k as int),
                    );
                    let step = spec_queue_candidates(
                        table_before.base_id,
                        table_before.entries@,
                        cache_before.entries@.len(),
                        *pipeline,
                        base_key,
                        draw_function,
                        gpu_meshes.meshes@,
                        mesh_handles@,
                        views_before[k as int].items@,
                    );
                    assert(target.base_id == rest.base_id && target.entries == rest.entries
                        && target.cache_len == rest.cache_len && target.ok == rest.ok
                        && target.phases == phase_items(views_before).take(k as int)
                        + rest.phases);
                    assert(!step.ok);
                    assert(rest.base_id == step.base_id && rest.entries == step.entries
                        && rest.cache_len == step.cache_len && !rest.ok);
                    assert(rest.phases == seq![step.items] + phase_items(views_before).skip(
                        k as int,
                    ).drop_first());
                    assert(views@[k as int].items@ == step.items);
                    assert(target.phases =~= phase_items(views@));
                }
                return Err(error);
            },
        }
        proof {
            assert(phase_items(views@).take(k as int + 1) =~= phase_items(views@).take(k as int)
                + seq![views@[k as int].items@]);
            assert((phase_items(views@).take(k as int) + seq![views@[k as int].items@])
                + spec_queue_views(
                specialized_pipelines.base_id,
                specialized_pipelines.entries@,
                pipeline_cache.entries@.len(),
                *pipeline,
                base_key,
                draw_function,
                gpu_meshes.meshes@,
                mesh_handles@,
                phase_items(views@).skip(k as int + 1),
            ).phases =~= phase_items(views@).take(k as int) + (seq![views@[k as int].items@]
                + spec_queue_views(
                specialized_pipelines.base_id,
                specialized_pipelines.entries@,
                pipeline_cache.entries@.len(),
                *pipeline,
                base_key,
                draw_function,
                gpu_meshes.meshes@,
                mesh_handles@,
                phase_items(views@).skip(k as int + 1),
            ).phases));
        }
        k = k + 1;
    }
    proof {
        assert(phase_items(views@).skip(view_count as int) =~= Seq::<Seq<GizmoLine2d>>::empty());
        assert(phase_items(views@).take(view_count as int) =~= phase_items(views@));
        assert(phase_items(views@) + Seq::<Seq<GizmoLine2d>>::empty() =~= phase_items(views@));
    }
    Ok(())
}

/// A camera row from the extracted scene: whether the camera renders this
/// frame.
#[derive(Clone, Copy, PartialEq, Eq, Structural, Debug)]
pub struct Camera {
    pub is_active: bool,
}

/// One view's slot in the render world, holding that view's line phase.
pub struct ViewPhase {
    pub entity: Entity,
    pub phase: RenderPhase,
}

/// The mathematical content of a view's phase slot.
pub struct ViewPhaseModel {
    pub entity: Entity,
    pub items: Seq<GizmoLine2d>,
}

/// The mathematical content of the render world's phase slots.
pub open spec fn view_phase_models(views: Seq<ViewPhase>) -> Seq<ViewPhaseModel> {
    Seq::new(
        views.len(),
        |i: int| ViewPhaseModel { entity: views[i].entity, items: views[i].phase.items@ },
    )
}

/// Install a fresh, empty phase for an entity: replace the first slot
/// already held by that entity, or append a new slot.
pub open spec fn spec_install_phase(views: Seq<ViewPhaseModel>, entity: Entity) -> Seq<
    ViewPhaseModel,
>
    decreases views.len(),
{
    if views.len() == 0 {
        seq![ViewPhaseModel { entity, items: Seq::empty() }]
    } else if views[0].entity == entity {
        seq![ViewPhaseModel { entity, items: Seq::empty() }] + views.drop_first()
    } else {
        seq![views[0]] + spec_install_phase(views.drop_first(), entity)
    }
}

/// Install a fresh phase for every active camera, in camera order.
pub open spec fn spec_extract_phases(
    views: Seq<ViewPhaseModel>,
    cameras: Seq<(Entity, Camera)>,
) -> Seq<ViewPhaseModel>
    decreases cameras.len(),
{
    if cameras.len() == 0 {
        views
    } else {
        let next = if cameras[0].1.is_active {
            spec_install_phase(views, cameras[0].0)
        } else {
            views
        };
        spec_extract_phases(next, cameras.drop_first())
    }
}

/// Installing replaces exactly the first slot of the entity when one exists.
proof fn lemma_install_at(views: Seq<ViewPhaseModel>, entity: Entity, j: int)
    requires
        0 <= j < views.len(),
        views[j].entity == entity,
        forall|t: int| 0 <= t < j ==> (#[trigger] views[t]).entity != entity,
    ensures
        spec_install_phase(views, entity) == views.update(
            j,
            ViewPhaseModel { entity, items: Seq::empty() },
        ),
    decreases j,
{
    if j == 0 {
        assert(spec_install_phase(views, entity) =~= views.update(
            0,
            ViewPhaseModel { entity, items: Seq::empty() },
        ));
    } else {
        assert(views.drop_first()[j - 1].entity == entity);
        lemma_install_at(views.drop_first(), entity, j - 1);
        assert(spec_install_phase(views, entity) =~= views.update(
            j,
            ViewPhaseModel { entity, items: Seq::empty() },
        ));
    }
}

/// Installing appends a new slot when no slot holds the entity.
proof fn lemma_install_absent(views: Seq<ViewPhaseModel>, entity: Entity)
    requires
        forall|t: int| 0 <= t < views.len() ==> (#[trigger] views[t]).entity != entity,
    ensures
        spec_install_phase(views, entity) == views.push(
            ViewPhaseModel { entity, items: Seq::empty() },
        ),
    decreases views.len(),
{
    if views.len() == 0 {
        assert(spec_install_phase(views, entity) =~= views.push(
            ViewPhaseModel { entity, items: Seq::empty() },
        ));
    } else {
        lemma_install_absent(views.drop_first(), entity);
        assert(spec_install_phase(views, entity) =~= views.push(
            ViewPhaseModel { entity, items: Seq::empty() },
        ));
    }
}

/// Install a fresh, empty phase for one entity among the render world's
/// phase slots.
fn install_phase(views: &mut Vec<ViewPhase>, entity: Entity)
    ensures
        view_phase_models(final(views)@) == spec_install_phase(
            view_phase_models(old(views)@),
            entity,
        ),
{
    let ghost models = view_phase_models(views@);
    let mut j: usize = 0;
    while j < views.len()
        invariant
            j <= views@.len(),
            models == view_phase_models(views@),
            models == view_phase_models(old(views)@),
            forall|t: int| 0 <= t < j ==> (#[trigger] models[t]).entity != entity,
        decreases views@.len() - j,
    {
        if views[j].entity == entity {
            proof {
                lemma_install_at(models, entity, j as int);
            }
            views.set(j, ViewPhase { entity, phase: RenderPhase::new() });
            proof {
                assert(view_phase_models(views@) =~= models.update(
                    j as int,
                    ViewPhaseModel { entity, items: Seq::empty() },
                ));
            }
            return ;
        }
        j = j + 1;
    }
    proof {
        lemma_install_absent(models, entity);
    }
    views.push(ViewPhase { entity, phase: RenderPhase::new() });
    proof {
        assert(view_phase_models(views@) =~= models.push(
            ViewPhaseModel { entity, items: Seq::empty() },
        ));
    }
}

/// For every active 2D camera, install a fresh, empty line phase on that
/// camera's view; inactive cameras and other slots are left alone.
pub fn extract_gizmo_line_2d_camera_phase(
    views: &mut Vec<ViewPhase>,
    cameras_2d: &Vec<(Entity, Camera)>,
)
    ensures
        view_phase_models(final(views)@) == spec_extract_phases(
            view_phase_models(old(views)@),
            cameras_2d@,
        ),
{
    let ghost cameras = cameras_2d@;
    let ghost target = spec_extract_phases(view_phase_models(views@), cameras);
    proof {
        assert(cameras.skip(0) =~= cameras);
    }
    let mut i: usize = 0;
    while i < cameras_2d.len()
        invariant
            i <= cameras.len(),
            cameras == cameras_2d@,
            target == spec_extract_phases(view_phase_models(views@), cameras.skip(i as int)),
        decreases cameras.len() - i,
    {
        proof {
            assert(cameras.skip(i as int)[0] == cameras[i as int]);
            assert(cameras.skip(i as int).drop_first() =~= cameras.skip(i as int + 1));
        }
        let (entity, camera) = cameras_2d[i];
        if camera.is_active {
            install_phase(views, entity);
        }
        i = i + 1;
    }
    proof {
        assert(cameras.skip(cameras.len() as int) =~= Seq::<(Entity, Camera)>::empty());
    }
}

} // verus!
