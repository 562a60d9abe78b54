//! The bit-packed specialization key for the 2D line phase.
//!
//! The key packs the multisample sample count (as its exponent, low three
//! bits) and the mesh's primitive topology (next three bits) into one
//! value. Candidates with equal keys share a compiled pipeline; candidates
//! with different keys never do. Alpha blending is fixed for this phase
//! and is deliberately not part of the key.

use vstd::prelude::*;

verus! {

/// How a mesh's vertices are assembled into primitives.
#[derive(Clone, Copy, PartialEq, Eq, Structural, Debug)]
pub enum PrimitiveTopology {
    PointList,
    LineList,
    LineStrip,
    TriangleList,
    TriangleStrip,
}

/// The three-bit code a topology occupies inside a key.
pub open spec fn spec_topology_code(topology: PrimitiveTopology) -> u32 {
    match topology {
        PrimitiveTopology::PointList => 0,
        PrimitiveTopology::LineList => 1,
        PrimitiveTopology::LineStrip => 2,
        PrimitiveTopology::TriangleList => 3,
        PrimitiveTopology::TriangleStrip => 4,
    }
}

/// The topology a three-bit code decodes to; unused codes fall back to
/// the default topology, a triangle list.
pub open spec fn spec_decode_topology(code: u32) -> PrimitiveTopology {
    if code == 0 {
        PrimitiveTopology::PointList
    } else if code == 1 {
        PrimitiveTopology::LineList
    } else if code == 2 {
        PrimitiveTopology::LineStrip
    } else if code == 4 {
        PrimitiveTopology::TriangleStrip
    } else {
        PrimitiveTopology::TriangleList
    }
}

/// Sample counts the renderer accepts: powers of two up to 128.
pub open spec fn valid_msaa_samples(samples: u32) -> bool {
    samples == 1 || samples == 2 || samples == 4 || samples == 8 || samples == 16 || samples == 32
        || samples == 64 || samples == 128
}

/// The exponent of a valid sample count.
pub open spec fn spec_msaa_exp(samples: u32) -> u32 {
    if samples == 1 {
        0
    } else if samples == 2 {
        1
    } else if samples == 4 {
        2
    } else if samples == 8 {
        3
    } else if samples == 16 {
        4
    } else if samples == 32 {
        5
    } else if samples == 64 {
        6
    } else {
        7
    }
}

/// The sample count stored in a key's low three bits.
pub open spec fn spec_key_msaa_samples(bits: u32) -> u32 {
    1u32 << (bits & 7)
}

/// The topology stored in a key's bits three to five.
pub open spec fn spec_key_topology(bits: u32) -> PrimitiveTopology {
    spec_decode_topology((bits >> 3) & 7)
}

/// The bit-packed feature-flag key that pipeline specialization is memoized on.
#[derive(Clone, Copy, PartialEq, Eq, Structural, Debug)]
pub struct Mesh2dPipelineKey {
    pub bits: u32,
}

impl Mesh2dPipelineKey {
    /// The key fragment encoding the current multisample sample count.
    pub fn from_msaa_samples(samples: u32) -> (key: Mesh2dPipelineKey)
        requires
            valid_msaa_samples(samples),
        ensures
            key.bits == spec_msaa_exp(samples),
    {
        let exp: u32 = if samples == 1 {
            0
        } else if samples == 2 {
            1
        } else if samples == 4 {
            2
        } else if samples == 8 {
            3
        } else if samples == 16 {
            4
        } else if samples == 32 {
            5
        } else if samples == 64 {
            6
        } else {
            7
        };
        Mesh2dPipelineKey { bits: exp }
    }

    /// The key fragment encoding a mesh's primitive topology.
    pub fn from_primitive_topology(topology: PrimitiveTopology) -> (key: Mesh2dPipelineKey)
        ensures
            key.bits == spec_topology_code(topology) << 3,
    {
        let code: u32 = match topology {
            PrimitiveTopology::PointList => 0,
            PrimitiveTopology::LineList => 1,
            PrimitiveTopology::LineStrip => 2,
            PrimitiveTopology::TriangleList => 3,
            PrimitiveTopology::TriangleStrip => 4,
        };
        Mesh2dPipelineKey { bits: code << 3 }
    }

    /// Combine two key fragments into one key.
    pub fn union(self, other: Mesh2dPipelineKey) -> (key: Mesh2dPipelineKey)
        ensures
            key.bits == self.bits | other.bits,
    {
        Mesh2dPipelineKey { bits: self.bits | other.bits }
    }

    /// The sample count this key encodes.
    pub fn msaa_samples(self) -> (samples: u32)
        ensures
            samples == spec_key_msaa_samples(self.bits),
    {
        let bits: u32 = self.bits;
        proof {
            assert(bits & 7 < 32) by (bit_vector);
        }
        1u32 << (bits & 7)
    }

    /// The primitive topology this key encodes.
    pub fn primitive_topology(self) -> (topology: PrimitiveTopology)
        ensures
            topology == spec_key_topology(self.bits),
    {
        let code: u32 = (self.bits >> 3) & 7;
        if code == 0 {
            PrimitiveTopology::PointList
        } else if code == 1 {
            PrimitiveTopology::LineList
        } else if code == 2 {
            PrimitiveTopology::LineStrip
        } else if code == 4 {
            PrimitiveTopology::TriangleStrip
        } else {
            PrimitiveTopology::TriangleList
        }
    }
}

/// A key built from a sample count and a topology decodes back to exactly
/// that sample count and that topology: the packing loses nothing that
/// specialization reads.
pub proof fn lemma_key_roundtrip(samples: u32, topology: PrimitiveTopology)
    requires
        valid_msaa_samples(samples),
    ensures
        spec_key_msaa_samples(spec_msaa_exp(samples) | (spec_topology_code(topology) << 3))
            == samples,
        spec_key_topology(spec_msaa_exp(samples) | (spec_topology_code(topology) << 3))
            == topology,
{
    let e = spec_msaa_exp(samples);
    let c = spec_topology_code(topology);
    assert(e <= 7 && c <= 4);
    assert(((e | (c << 3)) & 7) == e && (((e | (c << 3)) >> 3) & 7) == c) by (bit_vector)
        requires
            e <= 7 && c <= 4,
    ;
    assert((e == 0 ==> 1u32 << e == 1) && (e == 1 ==> 1u32 << e == 2) && (e == 2 ==> 1u32 << e
        == 4) && (e == 3 ==> 1u32 << e == 8) && (e == 4 ==> 1u32 << e == 16) && (e == 5 ==> 1u32
        << e == 32) && (e == 6 ==> 1u32 << e == 64) && (e == 7 ==> 1u32 << e == 128))
        by (bit_vector);
}

/// Two keys built from valid sample counts and topologies are equal only
/// when both the sample count and the topology agree: distinct settings
/// can never collide on one cache entry.
pub proof fn lemma_key_injective(
    samples1: u32,
    topology1: PrimitiveTopology,
    samples2: u32,
    topology2: PrimitiveTopology,
)
    requires
        valid_msaa_samples(samples1),
        valid_msaa_samples(samples2),
        spec_msaa_exp(samples1) | (spec_topology_code(topology1) << 3) == spec_msaa_exp(samples2)
            | (spec_topology_code(topology2) << 3),
    ensures
        samples1 == samples2,
        topology1 == topology2,
{
    lemma_key_roundtrip(samples1, topology1);
    lemma_key_roundtrip(samples2, topology2);
}

} // verus!
