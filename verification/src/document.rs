//! The glTF document that describes a decoded Draco buffer: one buffer, one
//! buffer view and accessor for the indices, one buffer view and accessor for
//! each decoded attribute, and a mesh with a single primitive that ties them
//! together.
use vstd::prelude::*;

use crate::data_type::DataType;
use crate::semantic::{Semantic, SemanticView};

verus! {

/// Shape of an accessor's elements.
#[derive(Clone, Copy, Debug, PartialEq, Eq, Structural)]
pub enum Dimensions {
    Scalar,
    Vec2,
    Vec3,
    Vec4,
    Mat2,
    Mat3,
    Mat4,
}

/// The kind of GPU buffer a buffer view is meant to be bound as.
#[derive(Clone, Copy, Debug, PartialEq, Eq, Structural)]
pub enum Target {
    ArrayBuffer,
    ElementArrayBuffer,
}

/// The topology of a primitive.
#[derive(Clone, Copy, Debug, PartialEq, Eq, Structural)]
pub enum Mode {
    Points,
    Lines,
    LineLoop,
    LineStrip,
    Triangles,
    TriangleStrip,
    TriangleFan,
}

/// A vertex attribute that the compressed primitive declares.
pub struct SourceAttribute {
    /// The attribute's semantic.
    pub semantic: Semantic,
    /// The shape of the attribute's elements, as its accessor declares it.
    pub dimensions: Dimensions,
    /// The JSON text of the accessor's `min` bounds, where it declares them.
    pub min: Option<String>,
    /// The JSON text of the accessor's `max` bounds, where it declares them.
    pub max: Option<String>,
}

/// The compressed primitive, as far as the decoded document reads it: the
/// vertex attributes it declares, in the order the document lists them.
pub struct SourcePrimitive {
    pub attributes: Vec<SourceAttribute>,
}

/// A buffer view of the compressed document.
#[derive(Clone, Copy, Debug, PartialEq, Eq, Structural)]
pub struct SourceView {
    /// Index of the buffer the view reads.
    pub buffer: usize,
    /// Byte offset of the view in that buffer.
    pub offset: usize,
    /// Byte length of the view.
    pub length: usize,
}

/// A buffer of the decoded document.
#[derive(Clone, Copy, Debug, PartialEq, Eq, Structural)]
pub struct BufferDesc {
    pub byte_length: u64,
}

/// A buffer view of the decoded document.
#[derive(Clone, Copy, Debug, PartialEq, Eq, Structural)]
pub struct BufferViewDesc {
    pub buffer: usize,
    pub byte_length: u64,
    pub byte_offset: u64,
    /// Distance in bytes between elements, where they are interleaved.
    pub byte_stride: Option<usize>,
    pub target: Target,
}

/// An accessor of the decoded document.
#[derive(Clone, Debug, PartialEq, Eq)]
pub struct AccessorDesc {
    pub buffer_view: usize,
    /// Byte offset of the first element within the view, where declared.
    pub byte_offset: Option<u64>,
    pub count: u64,
    pub component_type: DataType,
    /// Whether integer components are read as normalised values.
    pub normalized: bool,
    pub dimensions: Dimensions,
    /// The `min` bounds: `None` where the accessor has no `min` member,
    /// `Some(None)` where the member is the JSON `null`, and `Some(Some(t))`
    /// where it is the JSON value written `t`.
    pub min: Option<Option<String>>,
    /// The `max` bounds, in the same form as `min`.
    pub max: Option<Option<String>>,
}

/// The primitive of the decoded document.
pub struct PrimitiveDesc {
    /// Each semantic with the index of its accessor; no semantic occurs twice.
    pub attributes: Vec<(Semantic, usize)>,
    /// Index of the accessor that holds the indices.
    pub indices: usize,
    /// The topology.
    pub mode: Mode,
    /// Index of the material, where one is assigned.
    pub material: Option<usize>,
    /// The morph targets, each a list of semantics with accessor indices,
    /// where the primitive has any.
    pub targets: Option<Vec<Vec<(Semantic, usize)>>>,
}

/// A mesh of the decoded document.
pub struct MeshDesc {
    pub primitives: Vec<PrimitiveDesc>,
}

/// The document that describes a decoded Draco buffer.
pub struct DecodedDocument {
    pub buffers: Vec<BufferDesc>,
    pub views: Vec<BufferViewDesc>,
    pub accessors: Vec<AccessorDesc>,
    pub meshes: Vec<MeshDesc>,
}

/// The semantics of an attribute list, as values.
pub open spec fn source_semantics(p: &SourcePrimitive) -> Seq<SemanticView> {
    p.attributes@.map_values(|a: SourceAttribute| a.semantic@)
}

/// `j` is the first position at which `s` occurs in `seq`.
pub open spec fn is_first_position(seq: Seq<SemanticView>, s: SemanticView, j: int) -> bool {
    &&& 0 <= j < seq.len()
    &&& seq[j] == s
    &&& forall|k: int| 0 <= k < j ==> seq[k] != s
}

/// The first position of `s` in `seq`, where `s` occurs there.
pub open spec fn first_position(seq: Seq<SemanticView>, s: SemanticView) -> int {
    choose|j: int| is_first_position(seq, s, j)
}

/// The first position of a value is the only one.
pub proof fn lemma_first_position_unique(seq: Seq<SemanticView>, s: SemanticView, j: int)
    requires
        is_first_position(seq, s, j),
    ensures
        first_position(seq, s) == j,
{
    let k = first_position(seq, s);
    assert(is_first_position(seq, s, k));
    if k < j {
        assert(seq[k] != s);
    }
    if j < k {
        assert(seq[j] != s);
    }
}

/// The first attribute of the compressed primitive with semantic `s`: the one
/// that a lookup of `s` in the primitive finds.
pub open spec fn first_attribute(source: &SourcePrimitive, s: SemanticView) -> SourceAttribute {
    source.attributes@[first_position(source_semantics(source), s)]
}

/// The entries of a primitive's attribute list, as values.
pub open spec fn entry_values(es: Seq<(Semantic, usize)>) -> Seq<(SemanticView, usize)> {
    es.map_values(|e: (Semantic, usize)| (e.0@, e.1))
}

/// No semantic occurs twice among the entries.
pub open spec fn distinct_keys(es: Seq<(SemanticView, usize)>) -> bool {
    forall|a: int, b: int| 0 <= a < b < es.len() ==> es[a].0 != es[b].0
}

/// The map that the entries describe; a later entry overrides an earlier one.
pub open spec fn entries_map(es: Seq<(SemanticView, usize)>) -> Map<SemanticView, usize>
    decreases es.len(),
{
    if es.len() == 0 {
        Map::empty()
    } else {
        entries_map(es.drop_last()).insert(es.last().0, es.last().1)
    }
}

/// The semantic-to-accessor map of the decoded primitive after its first `n`
/// attributes: attribute `i` of the decoded data has accessor `i + 1`, and a
/// later attribute with the same semantic replaces an earlier one.
pub open spec fn spec_attribute_map(link: Map<usize, SemanticView>, n: nat) -> Map<SemanticView, usize>
    decreases n,
{
    if n == 0 {
        Map::empty()
    } else {
        spec_attribute_map(link, (n - 1) as nat).insert(link[(n - 1) as usize], n as usize)
    }
}

/// Replacing the value of a key that occurs once replaces it in the map.
pub proof fn lemma_entries_map_update(es: Seq<(SemanticView, usize)>, p: int, v: usize)
    requires
        distinct_keys(es),
        0 <= p < es.len(),
    ensures
        entries_map(es.update(p, (es[p].0, v))) == entries_map(es).insert(es[p].0, v),
    decreases es.len(),
{
    let s = es[p].0;
    let es2 = es.update(p, (s, v));
    if p == es.len() - 1 {
        assert(es2.drop_last() =~= es.drop_last());
        assert(entries_map(es2) =~= entries_map(es).insert(s, v));
    } else {
        let d = es.drop_last();
        assert(distinct_keys(d));
        lemma_entries_map_update(d, p, v);
        assert(es2.drop_last() =~= d.update(p, (s, v)));
        assert(es2.last() == es.last());
        assert(es.last().0 != s);
        assert(entries_map(es2) =~= entries_map(es).insert(s, v));
    }
}

} // verus!
