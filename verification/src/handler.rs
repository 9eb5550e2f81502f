//! The decisions of the loader extension: the settings it keeps from the
//! document's root, which attributes of a decoded primitive it converts, and
//! how decoded indices are stored.
use vstd::prelude::*;

use crate::semantic::{Semantic, SemanticView};

verus! {

/// The worlds in which a loaded mesh is kept.
#[derive(Clone, Copy, Debug, PartialEq, Eq, Structural)]
pub struct AssetUsages {
    /// Kept in the main world.
    pub main_world: bool,
    /// Kept in the render world.
    pub render_world: bool,
}

impl Default for AssetUsages {
    /// Meshes are kept in both worlds.
    fn default() -> (r: Self)
        ensures
            r.main_world && r.render_world,
    {
        AssetUsages { main_world: true, render_world: true }
    }
}

/// How a loader converts glTF coordinates.
#[derive(Clone, Copy, Debug, PartialEq, Eq, Structural)]
pub struct ConvertCoordinates {
    /// Rotate the top-level transform of each scene.
    pub rotate_scene_entity: bool,
    /// Rotate mesh assets and bind poses.
    pub rotate_meshes: bool,
}

/// The loader settings that the extension reads.
#[derive(Clone, Copy, Debug, PartialEq, Eq, Structural)]
pub struct LoaderSettings {
    /// Where loaded meshes are kept.
    pub load_meshes: AssetUsages,
    /// The coordinate conversion of this load, if one is set.
    pub convert_coordinates: Option<ConvertCoordinates>,
}

/// State of the loader extension during one load.
#[derive(Clone, Copy, Debug, PartialEq, Eq, Structural)]
pub struct GltfDracoDecoderExtensionHandler {
    /// Where decoded meshes are kept.
    pub load_meshes: AssetUsages,
    /// Whether decoded meshes are converted to the engine's coordinates.
    pub rotate_meshes: bool,
}

impl Default for GltfDracoDecoderExtensionHandler {
    /// Meshes are kept in both worlds and are not rotated.
    fn default() -> (r: Self)
        ensures
            r.load_meshes.main_world && r.load_meshes.render_world,
            !r.rotate_meshes,
    {
        GltfDracoDecoderExtensionHandler { load_meshes: AssetUsages::default(), rotate_meshes: false }
    }
}

/// Whether the settings ask for mesh assets to be rotated.
pub open spec fn rotates_meshes(settings: LoaderSettings) -> bool {
    match settings.convert_coordinates {
        Some(cc) => cc.rotate_meshes,
        None => false,
    }
}

impl GltfDracoDecoderExtensionHandler {
    /// Takes over the settings of a load when the document's root is read.
    pub fn on_root(&mut self, settings: &LoaderSettings)
        ensures
            final(self).load_meshes == settings.load_meshes,
            final(self).rotate_meshes == rotates_meshes(*settings),
            settings.convert_coordinates matches Some(cc) ==> final(self).rotate_meshes
                == cc.rotate_meshes,
            settings.convert_coordinates is None ==> !final(self).rotate_meshes,
    {
        self.load_meshes = settings.load_meshes;
        self.rotate_meshes = match settings.convert_coordinates {
            Some(cc) => cc.rotate_meshes,
            None => false,
        };
    }
}

/// What becomes of one vertex attribute of a decoded primitive.
#[derive(Clone, Copy, Debug, PartialEq, Eq, Structural)]
pub enum AttributeAction {
    /// Converted into the mesh.
    Convert,
    /// Converted into the mesh, though the mesh is used by both skinned and
    /// unskinned nodes, which is reported as an error.
    ConvertOnMixedNodes,
    /// Left out: skinning data of a mesh that no skinned node uses, which is
    /// reported as a warning.
    Skip,
}

/// The attributes that carry skinning data: the first set of joints and weights.
pub open spec fn is_skinning_semantic(s: SemanticView) -> bool {
    s == SemanticView::Joints(0) || s == SemanticView::Weights(0)
}

/// What becomes of an attribute with semantic `s` of a mesh that skinned
/// nodes use (`on_skinned`) and unskinned nodes use (`on_non_skinned`).
pub open spec fn spec_attribute_action(s: SemanticView, on_skinned: bool, on_non_skinned: bool) -> AttributeAction {
    if is_skinning_semantic(s) && !on_skinned {
        AttributeAction::Skip
    } else if is_skinning_semantic(s) && on_non_skinned {
        AttributeAction::ConvertOnMixedNodes
    } else {
        AttributeAction::Convert
    }
}

/// Decides what becomes of an attribute of a decoded primitive.
pub fn attribute_action(semantic: &Semantic, on_skinned: bool, on_non_skinned: bool) -> (r: AttributeAction)
    ensures
        r == spec_attribute_action(semantic@, on_skinned, on_non_skinned),
{
    let skinning = match semantic {
        Semantic::Joints(set) => *set == 0,
        Semantic::Weights(set) => *set == 0,
        _ => false,
    };
    if skinning {
        if !on_skinned {
            AttributeAction::Skip
        } else if on_non_skinned {
            AttributeAction::ConvertOnMixedNodes
        } else {
            AttributeAction::Convert
        }
    } else {
        AttributeAction::Convert
    }
}

/// Indices as a primitive stores them.
pub enum ReadIndices {
    U8(Vec<u8>),
    U16(Vec<u16>),
    U32(Vec<u32>),
}

/// Indices as a mesh keeps them.
pub enum Indices {
    U16(Vec<u16>),
    U32(Vec<u32>),
}

/// Converts read indices into mesh indices: 8-bit indices are widened to
/// 16 bits, wider ones are kept as they are.
pub fn convert_indices(read: ReadIndices) -> (r: Indices)
    ensures
        match read {
            ReadIndices::U8(v) => r matches Indices::U16(w) && w@.len() == v@.len() && forall|i: int|
                0 <= i < v@.len() ==> #[trigger] w@[i] == v@[i] as u16,
            ReadIndices::U16(v) => r matches Indices::U16(w) && w@ == v@,
            ReadIndices::U32(v) => r matches Indices::U32(w) && w@ == v@,
        },
{
    match read {
        ReadIndices::U8(v) => {
            let mut w: Vec<u16> = Vec::new();
            for i in 0..v.len()
                invariant
                    w@.len() == i,
                    forall|k: int| 0 <= k < i ==> #[trigger] w@[k] == v@[k] as u16,
            {
                w.push(v[i] as u16);
            }
            Indices::U16(w)
        },
        ReadIndices::U16(v) => Indices::U16(v),
        ReadIndices::U32(v) => Indices::U32(v),
    }
}

} // verus!
