//! glTF component types chosen for decoded Draco data.
use vstd::prelude::*;

use crate::decoded::{AttributeDataType, DracoDecodeConfig, MeshAttribute};

verus! {

/// Component type of a glTF accessor.
#[derive(Clone, Copy, Debug, PartialEq, Eq, Structural)]
pub enum DataType {
    I8,
    U8,
    I16,
    U16,
    U32,
    F32,
}

/// The largest value a 16-bit unsigned index can hold.
pub open spec fn max_u16_index() -> u32 {
    65535
}

/// Indices are stored as 16-bit values while their count fits in 16 bits,
/// and as 32-bit values beyond that.
pub open spec fn index_data_type(index_count: u32) -> DataType {
    if index_count > max_u16_index() {
        DataType::U32
    } else {
        DataType::U16
    }
}

/// The glTF component type that stands for a Draco attribute type. glTF has no
/// signed 32-bit component type, so signed 32-bit data is declared unsigned.
pub open spec fn attribute_data_type(t: AttributeDataType) -> DataType {
    match t {
        AttributeDataType::Int8 => DataType::I8,
        AttributeDataType::UInt8 => DataType::U8,
        AttributeDataType::Int16 => DataType::I16,
        AttributeDataType::UInt16 => DataType::U16,
        AttributeDataType::Int32 => DataType::U32,
        AttributeDataType::UInt32 => DataType::U32,
        AttributeDataType::Float32 => DataType::F32,
    }
}

/// Converts decoded Draco metadata into glTF accessor component types.
pub trait GltfDataType {
    /// The glTF component type of the data that `self` describes.
    fn component_data_type(&self) -> DataType;
}

impl GltfDataType for DracoDecodeConfig {
    /// The component type of the decoded indices.
    fn component_data_type(&self) -> (r: DataType)
        ensures
            r == index_data_type(self.index_count),
    {
        if self.index_count > 65535 {
            DataType::U32
        } else {
            DataType::U16
        }
    }
}

impl GltfDataType for MeshAttribute {
    /// The component type of the attribute's data.
    fn component_data_type(&self) -> (r: DataType)
        ensures
            r == attribute_data_type(self.data_type),
    {
        match self.data_type {
            AttributeDataType::Int8 => DataType::I8,
            AttributeDataType::UInt8 => DataType::U8,
            AttributeDataType::Int16 => DataType::I16,
            AttributeDataType::UInt16 => DataType::U16,
            AttributeDataType::Int32 => DataType::U32,
            AttributeDataType::UInt32 => DataType::U32,
            AttributeDataType::Float32 => DataType::F32,
        }
    }
}

} // verus!
