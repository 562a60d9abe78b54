//! Vertex-layout and pipeline-descriptor data that specialization works on.
//!
//! A mesh carries an actual vertex buffer layout; specialization resolves
//! the attributes a shader needs (by attribute identity, at fixed shader
//! locations) against it, and fails with a layout mismatch when one is
//! missing.

use vstd::prelude::*;
use crate::gpu::{BindGroupLayoutId, ShaderId};
use crate::key::PrimitiveTopology;

verus! {

/// One attribute present in a mesh's actual vertex buffer layout.
#[derive(Clone, Copy, PartialEq, Eq, Structural, Debug)]
pub struct MeshVertexAttributeData {
    /// Identity of the attribute (position, color, ...).
    pub attribute_id: u64,
    /// Encoded vertex format of the attribute.
    pub format: u32,
    /// Byte offset of the attribute within one vertex.
    pub offset: u64,
}

/// The actual vertex buffer layout of a mesh about to be drawn.
#[derive(Clone, Debug)]
pub struct MeshVertexBufferLayout {
    pub attributes: Vec<MeshVertexAttributeData>,
}

/// A request to place a named mesh attribute at a shader location.
#[derive(Clone, Copy, PartialEq, Eq, Structural, Debug)]
pub struct VertexAttributeRequest {
    pub attribute_id: u64,
    pub shader_location: u32,
}

/// An attribute resolved against a mesh layout, as the pipeline consumes it.
#[derive(Clone, Copy, PartialEq, Eq, Structural, Debug)]
pub struct VertexAttributeDescriptor {
    pub shader_location: u32,
    pub attribute_id: u64,
    pub format: u32,
    pub offset: u64,
}

/// The vertex buffer layout a specialized pipeline is compiled against.
#[derive(Clone, Debug)]
pub struct VertexBufferLayout {
    pub attributes: Vec<VertexAttributeDescriptor>,
}

/// Failure of pipeline specialization.
#[derive(Clone, Copy, PartialEq, Eq, Structural, Debug)]
pub enum SpecializedMeshPipelineError {
    /// The mesh's vertex layout lacks an attribute the shader requires.
    LayoutMismatch,
}

/// A concrete, compilable pipeline description derived by specialization.
#[derive(Clone, Debug)]
pub struct RenderPipelineDescriptor {
    pub shader: ShaderId,
    pub vertex_buffer: VertexBufferLayout,
    /// The externally owned view bind-group layout the pipeline uses.
    pub layout: BindGroupLayoutId,
    pub topology: PrimitiveTopology,
    pub sample_count: u32,
    /// Alpha blending is fixed on for this phase, independent of the key.
    pub alpha_blending: bool,
}

/// The mathematical content of a pipeline descriptor: what contracts
/// compare when two descriptors must be functionally identical.
pub struct PipelineDescriptorModel {
    pub shader: ShaderId,
    pub vertex_attributes: Seq<VertexAttributeDescriptor>,
    pub layout: BindGroupLayoutId,
    pub topology: PrimitiveTopology,
    pub sample_count: u32,
    pub alpha_blending: bool,
}

impl RenderPipelineDescriptor {
    /// The descriptor's mathematical content.
    pub open spec fn model(self) -> PipelineDescriptorModel {
        PipelineDescriptorModel {
            shader: self.shader,
            vertex_attributes: self.vertex_buffer.attributes@,
            layout: self.layout,
            topology: self.topology,
            sample_count: self.sample_count,
            alpha_blending: self.alpha_blending,
        }
    }
}

/// The first attribute in `attrs` with identity `id`, if any.
pub open spec fn find_attribute(attrs: Seq<MeshVertexAttributeData>, id: u64) -> Option<
    MeshVertexAttributeData,
>
    decreases attrs.len(),
{
    if attrs.len() == 0 {
        None
    } else if attrs[0].attribute_id == id {
        Some(attrs[0])
    } else {
        find_attribute(attrs.drop_first(), id)
    }
}

pub open spec fn has_attribute(attrs: Seq<MeshVertexAttributeData>, id: u64) -> bool {
    find_attribute(attrs, id) is Some
}

/// The descriptor a request resolves to against a layout that holds it.
pub open spec fn resolve_attribute(
    attrs: Seq<MeshVertexAttributeData>,
    request: VertexAttributeRequest,
) -> VertexAttributeDescriptor {
    let found = find_attribute(attrs, request.attribute_id)->Some_0;
    VertexAttributeDescriptor {
        shader_location: request.shader_location,
        attribute_id: found.attribute_id,
        format: found.format,
        offset: found.offset,
    }
}

/// Whether a mesh layout holds every requested attribute.
pub open spec fn layout_satisfies(
    attrs: Seq<MeshVertexAttributeData>,
    requested: Seq<VertexAttributeRequest>,
) -> bool {
    forall|j: int|
        0 <= j < requested.len() ==> has_attribute(attrs, (#[trigger] requested[j]).attribute_id)
}

/// The layout specialization hands to the pipeline when every request resolves.
pub open spec fn resolved_layout(
    attrs: Seq<MeshVertexAttributeData>,
    requested: Seq<VertexAttributeRequest>,
) -> Seq<VertexAttributeDescriptor> {
    Seq::new(requested.len(), |j: int| resolve_attribute(attrs, requested[j]))
}

impl MeshVertexBufferLayout {
    /// The first attribute with the given identity, scanning in layout order.
    fn find_attribute_data(&self, id: u64) -> (found: Option<MeshVertexAttributeData>)
        ensures
            found == find_attribute(self.attributes@, id),
    {
        let ghost attrs = self.attributes@;
        proof {
            assert(attrs.skip(0) =~= attrs);
        }
        let mut i: usize = 0;
        while i < self.attributes.len()
            invariant
                i <= self.attributes@.len(),
                attrs == self.attributes@,
                find_attribute(attrs, id) == find_attribute(attrs.skip(i as int), id),
            decreases self.attributes@.len() - i,
        {
            if self.attributes[i].attribute_id == id {
                proof {
                    assert(attrs.skip(i as int)[0] == attrs[i as int]);
                }
                return Some(self.attributes[i]);
            }
            proof {
                assert(attrs.skip(i as int).drop_first() =~= attrs.skip(i as int + 1));
            }
            i = i + 1;
        }
        proof {
            assert(attrs.skip(i as int).len() == 0);
        }
        None
    }

    /// Resolve the requested attributes against this mesh layout. Succeeds
    /// with one descriptor per request, in request order, exactly when the
    /// layout holds every requested attribute; otherwise reports a layout
    /// mismatch.
    pub fn get_layout(&self, requested: &Vec<VertexAttributeRequest>) -> (result: Result<
        VertexBufferLayout,
        SpecializedMeshPipelineError,
    >)
        ensures
            layout_satisfies(self.attributes@, requested@) ==> (result matches Ok(out)
                && out.attributes@ == resolved_layout(self.attributes@, requested@)),
            !layout_satisfies(self.attributes@, requested@) ==> result == Err::<
                VertexBufferLayout,
                SpecializedMeshPipelineError,
            >(SpecializedMeshPipelineError::LayoutMismatch),
    {
        let mut out: Vec<VertexAttributeDescriptor> = Vec::new();
        let mut j: usize = 0;
        while j < requested.len()
            invariant
                j <= requested@.len(),
                out@.len() == j,
                forall|t: int|
                    0 <= t < j ==> out@[t] == resolve_attribute(self.attributes@, requested@[t]),
                forall|t: int|
                    0 <= t < j ==> has_attribute(
                        self.attributes@,
                        (#[trigger] requested@[t]).attribute_id,
                    ),
            decreases requested@.len() - j,
        {
            let request = requested[j];
            match self.find_attribute_data(request.attribute_id) {
                Some(found) => {
                    out.push(
                        VertexAttributeDescriptor {
                            shader_location: request.shader_location,
                            attribute_id: found.attribute_id,
                            format: found.format,
                            offset: found.offset,
                        },
                    );
                },
                None => {
                    return Err(SpecializedMeshPipelineError::LayoutMismatch);
                },
            }
            j = j + 1;
        }
        proof {
            assert(out@ =~= resolved_layout(self.attributes@, requested@));
        }
        Ok(VertexBufferLayout { attributes: out })
    }
}

} // verus!
