//! Verified core of a glTF loader extension that decodes primitives stored
//! with the `KHR_draco_mesh_compression` extension.
use vstd::prelude::*;

pub mod data_type;
pub mod decoded;
pub mod document;
pub mod extension;
pub mod handler;
pub mod laws;
pub mod semantic;

verus! {

/// The plugin that registers the Draco decoding extension with a glTF loader.
pub struct GltfDracoDecoderPlugin;

} // verus!
