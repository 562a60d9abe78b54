use render_sched::gpu::{
    BindGroupLayoutId, CachedRenderPipelineId, Entity, GpuCommand, LoadOp, RenderContext,
    ShaderId, TextureViewId,
};
use render_sched::key::{Mesh2dPipelineKey, PrimitiveTopology};
use render_sched::node::{
    BlitPipeline, CameraOutputMode, ExtractedCamera, TextureBindGroupCache, UpscalingNode,
    UpscalingView, ViewTarget, ViewUpscalingPipeline,
};
use render_sched::phase::{DrawFunctionKind, DrawFunctions, GizmoLine2d, RenderPhase};
use render_sched::pipeline_cache::PipelineCache;
use render_sched::queue::{
    extract_gizmo_line_2d_camera_phase, queue_gizmos_2d, Camera, GpuMesh, Mesh2dHandle,
    MeshCandidate, Msaa, RenderAssets, ViewPhase,
};
use render_sched::render_resource::{
    MeshVertexAttributeData, MeshVertexBufferLayout, SpecializedMeshPipelineError,
};
use render_sched::specialize::{
    GizmoPipeline2d, SpecializedMeshPipelines, ATTRIBUTE_COLOR, ATTRIBUTE_POSITION,
};

fn texture(id: u64) -> TextureViewId {
    TextureViewId { id }
}

fn blit() -> BlitPipeline {
    BlitPipeline { texture_bind_group: BindGroupLayoutId { id: 77 } }
}

fn full_layout() -> MeshVertexBufferLayout {
    MeshVertexBufferLayout {
        attributes: vec![
            MeshVertexAttributeData { attribute_id: ATTRIBUTE_POSITION, format: 3, offset: 0 },
            MeshVertexAttributeData { attribute_id: ATTRIBUTE_COLOR, format: 5, offset: 12 },
        ],
    }
}

fn position_only_layout() -> MeshVertexBufferLayout {
    MeshVertexBufferLayout {
        attributes: vec![MeshVertexAttributeData {
            attribute_id: ATTRIBUTE_POSITION,
            format: 3,
            offset: 0,
        }],
    }
}

fn gizmo_pipeline() -> GizmoPipeline2d {
    GizmoPipeline2d::new(9, BindGroupLayoutId { id: 50 }, ShaderId { id: 4 })
}

fn created_bindings(commands: &[GpuCommand]) -> Vec<bool> {
    commands
        .iter()
        .filter_map(|command| match command {
            GpuCommand::CreateBindGroup { .. } => Some(true),
            _ => None,
        })
        .collect()
}

#[test]
fn cache_identity_sequence_creates_only_on_change() {
    // Identity tokens [A, A, B, B, A]: creations at the first, third and
    // fifth lookups only.
    let mut cache = TextureBindGroupCache::new();
    let mut ctx = RenderContext::new();
    let layout = BindGroupLayoutId { id: 1 };
    let sequence = [1u64, 1, 2, 2, 1];
    let mut created = Vec::new();
    let mut bindings = Vec::new();
    for id in sequence {
        let (binding, fresh) = cache.get_or_create(texture(id), layout, &mut ctx);
        created.push(fresh);
        bindings.push(binding);
    }
    assert_eq!(created, vec![true, false, true, false, true]);
    // Unchanged identity returns the identical binding object.
    assert_eq!(bindings[0], bindings[1]);
    assert_eq!(bindings[2], bindings[3]);
    // A change creates exactly one new binding set each time.
    assert_eq!(created_bindings(&ctx.commands).len(), 3);
}

#[test]
fn cache_replaces_old_entry_on_change() {
    let mut cache = TextureBindGroupCache::new();
    let mut ctx = RenderContext::new();
    let layout = BindGroupLayoutId { id: 1 };
    let (first, _) = cache.get_or_create(texture(1), layout, &mut ctx);
    let (second, fresh) = cache.get_or_create(texture(2), layout, &mut ctx);
    assert!(fresh);
    assert_ne!(first, second);
    // The old entry is discarded: looking the old identity up again creates anew.
    let (third, fresh_again) = cache.get_or_create(texture(1), layout, &mut ctx);
    assert!(fresh_again);
    assert_ne!(third, first);
}

fn upscaling_view(camera: Option<ExtractedCamera>, pipeline: CachedRenderPipelineId)
    -> UpscalingView {
    UpscalingView {
        target: ViewTarget { main_texture: texture(10), out_texture: texture(11) },
        upscaling_pipeline: ViewUpscalingPipeline { id: pipeline },
        camera,
    }
}

fn compiled_pipeline(cache: &mut PipelineCache) -> CachedRenderPipelineId {
    let descriptor = gizmo_pipeline()
        .specialize(Mesh2dPipelineKey::from_msaa_samples(1), &full_layout())
        .unwrap();
    let id = cache.queue_render_pipeline(descriptor);
    cache.finish_compilation(id);
    id
}

#[test]
fn node_skip_camera_records_nothing() {
    // Scenario: camera output mode is skip.
    let mut node = UpscalingNode::new();
    let mut ctx = RenderContext::new();
    let mut cache = PipelineCache::new();
    let pipeline = compiled_pipeline(&mut cache);
    let view = upscaling_view(
        Some(ExtractedCamera { output_mode: CameraOutputMode::Skip }),
        pipeline,
    );
    let outcome = node.run(Some(view), &blit(), &cache, &mut ctx);
    assert!(outcome.is_ok());
    assert_eq!(ctx.commands.len(), 0);
}

#[test]
fn node_missing_view_records_nothing() {
    let mut node = UpscalingNode::new();
    let mut ctx = RenderContext::new();
    let cache = PipelineCache::new();
    let outcome = node.run(None, &blit(), &cache, &mut ctx);
    assert!(outcome.is_ok());
    assert_eq!(ctx.commands.len(), 0);
}

#[test]
fn node_without_camera_defaults_to_clear() {
    // Scenario: no camera component; one pass with one color attachment,
    // loading with a clear.
    let mut node = UpscalingNode::new();
    let mut ctx = RenderContext::new();
    let mut cache = PipelineCache::new();
    let pipeline = compiled_pipeline(&mut cache);
    let view = upscaling_view(None, pipeline);
    let outcome = node.run(Some(view), &blit(), &cache, &mut ctx);
    assert!(outcome.is_ok());
    let passes: Vec<&GpuCommand> = ctx
        .commands
        .iter()
        .filter(|command| matches!(command, GpuCommand::BeginRenderPass { .. }))
        .collect();
    assert_eq!(passes.len(), 1);
    assert!(matches!(
        passes[0],
        GpuCommand::BeginRenderPass { attachment: TextureViewId { id: 11 }, load: LoadOp::Clear, store: true }
    ));
    // The full recording: sampler + binding creation, then the pass.
    assert_eq!(ctx.commands.len(), 6);
    assert!(matches!(ctx.commands[5], GpuCommand::Draw {
        first_vertex: 0,
        vertex_count: 3,
        first_instance: 0,
        instance_count: 1,
    }));
}

#[test]
fn node_write_camera_uses_declared_load_op() {
    let mut node = UpscalingNode::new();
    let mut ctx = RenderContext::new();
    let mut cache = PipelineCache::new();
    let pipeline = compiled_pipeline(&mut cache);
    let view = upscaling_view(
        Some(ExtractedCamera {
            output_mode: CameraOutputMode::Write { color_attachment_load_op: LoadOp::Load },
        }),
        pipeline,
    );
    node.run(Some(view), &blit(), &cache, &mut ctx).unwrap();
    assert!(ctx.commands.iter().any(|command| matches!(
        command,
        GpuCommand::BeginRenderPass { load: LoadOp::Load, .. }
    )));
}

#[test]
fn node_unready_pipeline_records_no_pass() {
    let mut node = UpscalingNode::new();
    let mut ctx = RenderContext::new();
    let mut cache = PipelineCache::new();
    let descriptor = gizmo_pipeline()
        .specialize(Mesh2dPipelineKey::from_msaa_samples(1), &full_layout())
        .unwrap();
    let pipeline = cache.queue_render_pipeline(descriptor);
    // Compilation has not finished: the node creates its binding but
    // records no pass, and succeeds.
    let view = upscaling_view(None, pipeline);
    let outcome = node.run(Some(view), &blit(), &cache, &mut ctx);
    assert!(outcome.is_ok());
    assert_eq!(ctx.commands.len(), 2);
    assert!(matches!(ctx.commands[0], GpuCommand::CreateSampler { .. }));
    assert!(matches!(ctx.commands[1], GpuCommand::CreateBindGroup { .. }));
}

#[test]
fn node_reuses_binding_across_frames() {
    let mut node = UpscalingNode::new();
    let mut ctx = RenderContext::new();
    let mut cache = PipelineCache::new();
    let pipeline = compiled_pipeline(&mut cache);
    let view = upscaling_view(None, pipeline);
    node.run(Some(view), &blit(), &cache, &mut ctx).unwrap();
    let after_first: usize = ctx.commands.len();
    node.run(Some(view), &blit(), &cache, &mut ctx).unwrap();
    // The second frame reuses the cached binding: no creation commands,
    // only the four pass commands.
    assert_eq!(ctx.commands.len(), after_first + 4);
    assert_eq!(created_bindings(&ctx.commands).len(), 1);
}

#[test]
fn key_packs_samples_and_topology() {
    let key = Mesh2dPipelineKey::from_msaa_samples(4)
        .union(Mesh2dPipelineKey::from_primitive_topology(PrimitiveTopology::LineList));
    assert_eq!(key.msaa_samples(), 4);
    assert_eq!(key.primitive_topology(), PrimitiveTopology::LineList);
    let other = Mesh2dPipelineKey::from_msaa_samples(4)
        .union(Mesh2dPipelineKey::from_primitive_topology(PrimitiveTopology::TriangleList));
    assert_ne!(key, other);
}

#[test]
fn specialize_rejects_missing_attribute() {
    // A layout without the color attribute is a layout mismatch.
    let pipeline = gizmo_pipeline();
    let key = Mesh2dPipelineKey::from_msaa_samples(1);
    let outcome = pipeline.specialize(key, &position_only_layout());
    assert_eq!(outcome.unwrap_err(), SpecializedMeshPipelineError::LayoutMismatch);
}

#[test]
fn specialize_derives_descriptor_fields() {
    let pipeline = gizmo_pipeline();
    let key = Mesh2dPipelineKey::from_msaa_samples(4)
        .union(Mesh2dPipelineKey::from_primitive_topology(PrimitiveTopology::LineStrip));
    let descriptor = pipeline.specialize(key, &full_layout()).unwrap();
    assert_eq!(descriptor.sample_count, 4);
    assert_eq!(descriptor.topology, PrimitiveTopology::LineStrip);
    assert!(descriptor.alpha_blending);
    assert_eq!(descriptor.vertex_buffer.attributes.len(), 2);
    assert_eq!(descriptor.vertex_buffer.attributes[0].shader_location, 0);
    assert_eq!(descriptor.vertex_buffer.attributes[0].attribute_id, ATTRIBUTE_POSITION);
    assert_eq!(descriptor.vertex_buffer.attributes[1].shader_location, 1);
    assert_eq!(descriptor.vertex_buffer.attributes[1].attribute_id, ATTRIBUTE_COLOR);
}

#[test]
fn specialization_cache_returns_same_handle_without_requeue() {
    // Queried twice with an unchanged base descriptor, the second query
    // returns the first handle and queues nothing new.
    let pipeline = gizmo_pipeline();
    let mut cache = PipelineCache::new();
    let mut table = SpecializedMeshPipelines::new(pipeline.id);
    let key = Mesh2dPipelineKey::from_msaa_samples(1);
    let layout = full_layout();
    let first = table.specialize(&mut cache, &pipeline, key, &layout).unwrap();
    let queued_after_first: usize = cache.entries.len();
    let second = table.specialize(&mut cache, &pipeline, key, &layout).unwrap();
    assert_eq!(first, second);
    assert_eq!(cache.entries.len(), queued_after_first);
}

#[test]
fn specialization_cache_invalidated_by_base_change() {
    let pipeline = gizmo_pipeline();
    let mut cache = PipelineCache::new();
    let mut table = SpecializedMeshPipelines::new(pipeline.id);
    let key = Mesh2dPipelineKey::from_msaa_samples(1);
    let layout = full_layout();
    let first = table.specialize(&mut cache, &pipeline, key, &layout).unwrap();
    let changed = GizmoPipeline2d::new(pipeline.id + 1, pipeline.view_layout, pipeline.shader);
    let second = table.specialize(&mut cache, &changed, key, &layout).unwrap();
    // The stale entry was dropped wholesale; a fresh handle was derived.
    assert_ne!(first, second);
}

#[test]
fn specialization_cache_failure_stores_nothing() {
    let pipeline = gizmo_pipeline();
    let mut cache = PipelineCache::new();
    let mut table = SpecializedMeshPipelines::new(pipeline.id);
    let key = Mesh2dPipelineKey::from_msaa_samples(1);
    let outcome = table.specialize(&mut cache, &pipeline, key, &position_only_layout());
    assert_eq!(outcome.unwrap_err(), SpecializedMeshPipelineError::LayoutMismatch);
    assert_eq!(cache.entries.len(), 0);
    assert_eq!(table.entries.len(), 0);
}

#[test]
fn sort_is_stable_for_equal_keys() {
    // Items with equal sort keys keep their insertion order.
    let item = |key: u64, entity: u64| GizmoLine2d {
        sort_key: key,
        pipeline: CachedRenderPipelineId { id: 0 },
        entity: Entity { id: entity },
        draw_function: render_sched::gpu::DrawFunctionId { id: 0 },
    };
    let mut items = vec![item(2, 1), item(1, 2), item(2, 3), item(1, 4)];
    GizmoLine2d::sort(&mut items);
    let order: Vec<(u64, u64)> =
        items.iter().map(|i| (i.sort_key, i.entity.id)).collect();
    assert_eq!(order, vec![(1, 2), (1, 4), (2, 1), (2, 3)]);

    let mut equal = vec![item(7, 1), item(7, 2), item(7, 3)];
    GizmoLine2d::sort(&mut equal);
    let kept: Vec<u64> = equal.iter().map(|i| i.entity.id).collect();
    assert_eq!(kept, vec![1, 2, 3]);
}

#[test]
fn phase_item_accessors_report_fields() {
    let item = GizmoLine2d {
        sort_key: 3,
        pipeline: CachedRenderPipelineId { id: 8 },
        entity: Entity { id: 21 },
        draw_function: render_sched::gpu::DrawFunctionId { id: 2 },
    };
    assert_eq!(item.sort_key(), 3);
    assert_eq!(item.cached_pipeline(), CachedRenderPipelineId { id: 8 });
    assert_eq!(item.entity(), Entity { id: 21 });
    assert_eq!(item.draw_function(), render_sched::gpu::DrawFunctionId { id: 2 });
}

fn lines_registry() -> DrawFunctions {
    let mut registry = DrawFunctions::new();
    registry.add_function(DrawFunctionKind::GizmoLines);
    registry
}

fn mesh_of(topology: PrimitiveTopology) -> GpuMesh {
    GpuMesh { layout: full_layout(), primitive_topology: topology }
}

#[test]
fn queue_distinct_topologies_get_distinct_pipelines() {
    // Scenario: two candidates with line-list and triangle-list meshes and
    // the same sample count receive two distinct pipeline handles.
    let registry = lines_registry();
    let pipeline = gizmo_pipeline();
    let mut cache = PipelineCache::new();
    let mut table = SpecializedMeshPipelines::new(pipeline.id);
    let mut assets = RenderAssets::new();
    assets.insert(1, mesh_of(PrimitiveTopology::LineList));
    assets.insert(2, mesh_of(PrimitiveTopology::TriangleList));
    let candidates = vec![
        MeshCandidate { entity: Entity { id: 100 }, mesh: Mesh2dHandle { id: 1 } },
        MeshCandidate { entity: Entity { id: 101 }, mesh: Mesh2dHandle { id: 2 } },
    ];
    let mut views = vec![RenderPhase::new()];
    queue_gizmos_2d(
        &registry,
        &pipeline,
        &mut cache,
        &mut table,
        &assets,
        &Msaa { samples: 4 },
        &candidates,
        &mut views,
    )
    .unwrap();
    assert_eq!(views[0].items.len(), 2);
    assert_ne!(views[0].items[0].pipeline, views[0].items[1].pipeline);
    assert_eq!(views[0].items[0].sort_key, u64::MAX);
    assert_eq!(views[0].items[1].sort_key, u64::MAX);
}

#[test]
fn queue_skips_unready_mesh_across_frames() {
    // Scenario: the same candidate queued in two consecutive frames while
    // its mesh is still uploading yields no items and no errors.
    let registry = lines_registry();
    let pipeline = gizmo_pipeline();
    let mut cache = PipelineCache::new();
    let mut table = SpecializedMeshPipelines::new(pipeline.id);
    let assets = RenderAssets::new();
    let candidates =
        vec![MeshCandidate { entity: Entity { id: 100 }, mesh: Mesh2dHandle { id: 1 } }];
    let mut views = vec![RenderPhase::new()];
    for _frame in 0..2 {
        let outcome = queue_gizmos_2d(
            &registry,
            &pipeline,
            &mut cache,
            &mut table,
            &assets,
            &Msaa { samples: 1 },
            &candidates,
            &mut views,
        );
        assert!(outcome.is_ok());
        assert_eq!(views[0].items.len(), 0);
    }
}

#[test]
fn queue_shares_pipeline_for_equal_keys() {
    let registry = lines_registry();
    let pipeline = gizmo_pipeline();
    let mut cache = PipelineCache::new();
    let mut table = SpecializedMeshPipelines::new(pipeline.id);
    let mut assets = RenderAssets::new();
    assets.insert(1, mesh_of(PrimitiveTopology::LineList));
    assets.insert(2, mesh_of(PrimitiveTopology::LineList));
    let candidates = vec![
        MeshCandidate { entity: Entity { id: 1 }, mesh: Mesh2dHandle { id: 1 } },
        MeshCandidate { entity: Entity { id: 2 }, mesh: Mesh2dHandle { id: 2 } },
    ];
    let mut views = vec![RenderPhase::new()];
    queue_gizmos_2d(
        &registry,
        &pipeline,
        &mut cache,
        &mut table,
        &assets,
        &Msaa { samples: 1 },
        &candidates,
        &mut views,
    )
    .unwrap();
    assert_eq!(views[0].items.len(), 2);
    assert_eq!(views[0].items[0].pipeline, views[0].items[1].pipeline);
    assert_eq!(cache.entries.len(), 1);
}

#[test]
fn queue_layout_mismatch_aborts_phase() {
    let registry = lines_registry();
    let pipeline = gizmo_pipeline();
    let mut cache = PipelineCache::new();
    let mut table = SpecializedMeshPipelines::new(pipeline.id);
    let mut assets = RenderAssets::new();
    assets.insert(
        1,
        GpuMesh { layout: position_only_layout(), primitive_topology: PrimitiveTopology::LineList },
    );
    let candidates =
        vec![MeshCandidate { entity: Entity { id: 1 }, mesh: Mesh2dHandle { id: 1 } }];
    let mut views = vec![RenderPhase::new()];
    let outcome = queue_gizmos_2d(
        &registry,
        &pipeline,
        &mut cache,
        &mut table,
        &assets,
        &Msaa { samples: 1 },
        &candidates,
        &mut views,
    );
    assert_eq!(outcome.unwrap_err(), SpecializedMeshPipelineError::LayoutMismatch);
    assert_eq!(views[0].items.len(), 0);
}

#[test]
fn dispatch_emits_in_sorted_order() {
    let registry = lines_registry();
    let mut phase = RenderPhase::new();
    let item = |key: u64, entity: u64, pipeline: usize| GizmoLine2d {
        sort_key: key,
        pipeline: CachedRenderPipelineId { id: pipeline },
        entity: Entity { id: entity },
        draw_function: render_sched::gpu::DrawFunctionId { id: 0 },
    };
    phase.add(item(5, 1, 10));
    phase.add(item(2, 2, 20));
    phase.add(item(5, 3, 30));
    phase.sort();
    let mut ctx = RenderContext::new();
    phase.render(
        &registry,
        render_sched::gpu::BindGroupId { id: 1 },
        render_sched::gpu::BindGroupId { id: 2 },
        &mut ctx,
    );
    // Four commands per item, pipelines bound in key order with the tie in
    // insertion order: 20, 10, 30.
    assert_eq!(ctx.commands.len(), 12);
    let bound: Vec<usize> = ctx
        .commands
        .iter()
        .filter_map(|command| match command {
            GpuCommand::SetRenderPipeline { pipeline } => Some(pipeline.id),
            _ => None,
        })
        .collect();
    assert_eq!(bound, vec![20, 10, 30]);
    assert!(matches!(ctx.commands[3], GpuCommand::DrawMesh { entity: Entity { id: 2 } }));
}

#[test]
fn extract_installs_phase_for_active_cameras() {
    let mut views: Vec<ViewPhase> = Vec::new();
    let cameras = vec![
        (Entity { id: 1 }, Camera { is_active: true }),
        (Entity { id: 2 }, Camera { is_active: false }),
    ];
    extract_gizmo_line_2d_camera_phase(&mut views, &cameras);
    assert_eq!(views.len(), 1);
    assert_eq!(views[0].entity, Entity { id: 1 });
    assert_eq!(views[0].phase.items.len(), 0);
}

#[test]
fn extract_resets_existing_phase() {
    let mut views: Vec<ViewPhase> = Vec::new();
    let cameras = vec![(Entity { id: 1 }, Camera { is_active: true })];
    extract_gizmo_line_2d_camera_phase(&mut views, &cameras);
    views[0].phase.add(GizmoLine2d {
        sort_key: 1,
        pipeline: CachedRenderPipelineId { id: 0 },
        entity: Entity { id: 9 },
        draw_function: render_sched::gpu::DrawFunctionId { id: 0 },
    });
    extract_gizmo_line_2d_camera_phase(&mut views, &cameras);
    assert_eq!(views.len(), 1);
    assert_eq!(views[0].phase.items.len(), 0);
}

#[test]
fn mesh_assets_lookup() {
    let mut assets = RenderAssets::new();
    assert!(assets.get(5).is_none());
    assets.insert(5, mesh_of(PrimitiveTopology::TriangleStrip));
    let mesh = assets.get(5).unwrap();
    assert_eq!(mesh.primitive_topology, PrimitiveTopology::TriangleStrip);
    assert!(assets.get(6).is_none());
}

#[test]
fn registry_assigns_first_identifier() {
    let mut registry = DrawFunctions::new();
    assert!(registry.id(DrawFunctionKind::GizmoLines).is_none());
    let id = registry.add_function(DrawFunctionKind::GizmoLines);
    assert_eq!(registry.id(DrawFunctionKind::GizmoLines), Some(id));
}

#[test]
fn full_frame_queue_sort_dispatch() {
    // One frame end to end: extraction, queue, sort, dispatch.
    let registry = lines_registry();
    let pipeline = gizmo_pipeline();
    let mut cache = PipelineCache::new();
    let mut table = SpecializedMeshPipelines::new(pipeline.id);
    let mut assets = RenderAssets::new();
    assets.insert(1, mesh_of(PrimitiveTopology::LineList));
    let mut view_slots: Vec<ViewPhase> = Vec::new();
    let cameras = vec![(Entity { id: 7 }, Camera { is_active: true })];
    extract_gizmo_line_2d_camera_phase(&mut view_slots, &cameras);

    let candidates =
        vec![MeshCandidate { entity: Entity { id: 40 }, mesh: Mesh2dHandle { id: 1 } }];
    let mut phases: Vec<RenderPhase> = view_slots.into_iter().map(|slot| slot.phase).collect();
    queue_gizmos_2d(
        &registry,
        &pipeline,
        &mut cache,
        &mut table,
        &assets,
        &Msaa { samples: 1 },
        &candidates,
        &mut phases,
    )
    .unwrap();
    assert_eq!(phases[0].items.len(), 1);

    phases[0].sort();
    let mut ctx = RenderContext::new();
    phases[0].render(
        &registry,
        render_sched::gpu::BindGroupId { id: 1 },
        render_sched::gpu::BindGroupId { id: 2 },
        &mut ctx,
    );
    assert_eq!(ctx.commands.len(), 4);
    assert!(matches!(ctx.commands[3], GpuCommand::DrawMesh { entity: Entity { id: 40 } }));
}
