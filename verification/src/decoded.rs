//! What a Draco decoder reports about a decoded mesh: the layout of the
//! decoded buffer and the type of each attribute.
use vstd::prelude::*;

verus! {

/// Component type of a decoded Draco attribute.
#[derive(Clone, Copy, Debug, PartialEq, Eq, Structural)]
pub enum AttributeDataType {
    Int8,
    UInt8,
    Int16,
    UInt16,
    Int32,
    UInt32,
    Float32,
}

/// One attribute of a decoded mesh and where its data lies in the decoded buffer.
#[derive(Clone, Copy, Debug, PartialEq, Eq, Structural)]
pub struct MeshAttribute {
    /// Number of components per vertex.
    pub dim: u32,
    /// Type of each component.
    pub data_type: AttributeDataType,
    /// Byte offset of the attribute's data in the decoded buffer.
    pub offset: u32,
    /// Byte length of the attribute's data.
    pub length: u32,
}

/// Layout of a decoded Draco mesh.
pub struct DracoDecodeConfig {
    /// Number of vertices.
    pub vertex_count: u32,
    /// Number of indices (three per triangle).
    pub index_count: u32,
    /// Size in bytes of the decoded buffer: the indices, then every attribute.
    pub buffer_size: usize,
    /// The attributes, in the order of their Draco attribute ids.
    pub attributes: Vec<MeshAttribute>,
}

impl DracoDecodeConfig {
    /// The size in bytes of the decoded buffer.
    pub fn estimate_buffer_size(&self) -> (r: usize)
        ensures
            r == self.buffer_size,
    {
        self.buffer_size
    }
}

/// A decoded Draco mesh: the decoded buffer and its layout.
pub struct MeshDecodeResult {
    /// Indices followed by attribute data, as `config` describes.
    pub data: Vec<u8>,
    /// Layout of `data`.
    pub config: DracoDecodeConfig,
}

} // verus!
