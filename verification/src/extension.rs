//! The `KHR_draco_mesh_compression` extension of one glTF primitive.
use vstd::prelude::*;

use std::collections::BTreeMap;

use crate::data_type::{attribute_data_type, index_data_type, GltfDataType};
use crate::decoded::{DracoDecodeConfig, MeshAttribute, MeshDecodeResult};
use crate::document::{
    distinct_keys, entries_map, entry_values, first_attribute, is_first_position,
    lemma_entries_map_update, lemma_first_position_unique,
    source_semantics, spec_attribute_map, AccessorDesc, BufferDesc, BufferViewDesc,
    DecodedDocument, Dimensions, MeshDesc, Mode, PrimitiveDesc, SourcePrimitive, SourceView, Target,
};
use crate::semantic::{spec_checked, Checked, Semantic, SemanticCheck, SemanticView};

verus! {

broadcast use vstd::std_specs::btree::group_btree_axioms, vstd::laws_cmp::group_laws_cmp;

/// The extension object of a primitive: the buffer view that holds the
/// Draco bitstream, and the Draco attribute id of each vertex attribute.
pub struct DracoExtensionValue {
    /// Index of the buffer view that holds the compressed data.
    pub buffer_view: usize,
    /// The `attributes` object: each attribute name with its Draco attribute
    /// id, in the order in which the decoded object was walked.
    pub attributes: Vec<(String, usize)>,
}

/// The attribute names and ids of an extension object, as values.
pub open spec fn attribute_entries(value: &DracoExtensionValue) -> Seq<(Seq<char>, usize)> {
    value.attributes@.map_values(|e: (String, usize)| (e.0@, e.1))
}

/// Every attribute name of the entries is one that glTF recognises.
pub open spec fn all_names_valid(entries: Seq<(Seq<char>, usize)>) -> bool {
    forall|i: int| 0 <= i < entries.len() ==> #[trigger] spec_checked(entries[i].0) is Valid
}

/// The recognised semantic of a valid attribute name.
pub open spec fn valid_semantic(name: Seq<char>) -> SemanticView {
    spec_checked(name)->Valid_0
}

/// Maps each Draco attribute id to the semantic named with it; where an id is
/// listed twice, the entry walked last wins.
pub open spec fn spec_link_map(entries: Seq<(Seq<char>, usize)>) -> Map<usize, SemanticView>
    decreases entries.len(),
{
    if entries.len() == 0 {
        Map::empty()
    } else {
        spec_link_map(entries.drop_last()).insert(
            entries.last().1,
            valid_semantic(entries.last().0),
        )
    }
}

/// Maps Draco attribute ids back to glTF semantics and stores the source buffer view.
pub struct DracoSemanticLink {
    /// The semantic of each Draco attribute id.
    pub map: BTreeMap<usize, Semantic>,
    /// Index of the buffer view that holds the compressed data.
    pub buffer_view: usize,
}

impl DracoSemanticLink {
    /// The semantic of each Draco attribute id, as values.
    pub open spec fn semantics(&self) -> Map<usize, SemanticView> {
        self.map@.map_values(|s: Semantic| s@)
    }

    /// Builds the semantic link from a parsed extension value.
    pub fn from_extension_value(value: &DracoExtensionValue) -> (r: Self)
        requires
            all_names_valid(attribute_entries(value)),
        ensures
            r.buffer_view == value.buffer_view,
            r.semantics() == spec_link_map(attribute_entries(value)),
    {
        let ghost entries = attribute_entries(value);
        let mut id: BTreeMap<usize, Semantic> = BTreeMap::new();
        let n = value.attributes.len();
        for k in 0..n
            invariant
                n == value.attributes.len(),
                entries == attribute_entries(value),
                all_names_valid(entries),
                id@.map_values(|s: Semantic| s@) == spec_link_map(entries.take(k as int)),
        {
            let name = &value.attributes[k].0;
            let index = value.attributes[k].1;
            assert(entries[k as int] == (name@, index));
            let semantic = match Semantic::checked(name.as_str()) {
                Checked::Valid(s) => s,
                Checked::Invalid => {
                    assert(spec_checked(entries[k as int].0) is Valid);
                    vstd::pervasive::unreached()
                },
            };
            let ghost before = id@;
            id.insert(index, semantic);
            proof {
                assert(entries.take(k + 1).drop_last() =~= entries.take(k as int));
                assert(entries.take(k + 1).last() == entries[k as int]);
                assert(id@.map_values(|s: Semantic| s@) =~= before.map_values(
                    |s: Semantic| s@,
                ).insert(index, valid_semantic(name@)));
            }
        }
        assert(entries.take(n as int) =~= entries);
        DracoSemanticLink { map: id, buffer_view: value.buffer_view }
    }
}

/// The view lies within an existing buffer.
pub open spec fn view_in_bounds(view: SourceView, buffer_data: Seq<Vec<u8>>) -> bool {
    &&& view.buffer < buffer_data.len()
    &&& view.offset + view.length <= buffer_data[view.buffer as int]@.len()
}

/// The bytes that a view selects.
pub open spec fn view_bytes(view: SourceView, buffer_data: Seq<Vec<u8>>) -> Seq<u8> {
    buffer_data[view.buffer as int]@.subrange(view.offset as int, view.offset + view.length)
}

/// The buffer view of the decoded indices: the start of the decoded buffer.
/// It spans the whole buffer.
pub open spec fn indices_view(config: &DracoDecodeConfig) -> BufferViewDesc {
    BufferViewDesc {
        buffer: 0,
        byte_length: config.buffer_size as u64,
        byte_offset: 0,
        byte_stride: None,
        target: Target::ArrayBuffer,
    }
}

/// The accessor of the decoded indices.
pub open spec fn indices_accessor(config: &DracoDecodeConfig) -> AccessorDesc {
    AccessorDesc {
        buffer_view: 0,
        byte_offset: None,
        count: config.index_count as u64,
        component_type: index_data_type(config.index_count),
        normalized: false,
        dimensions: Dimensions::Scalar,
        min: None,
        max: None,
    }
}

/// The buffer view of a decoded attribute: its range of the decoded buffer.
pub open spec fn attribute_view(a: MeshAttribute) -> BufferViewDesc {
    BufferViewDesc {
        buffer: 0,
        byte_length: a.length as u64,
        byte_offset: a.offset as u64,
        byte_stride: None,
        target: Target::ArrayBuffer,
    }
}

/// `acc` is the accessor of decoded attribute `i`, whose semantic is `s`: it
/// reads view `i + 1` from its start, counts every vertex, has the component
/// type of the decoded data, is not normalised, and takes its shape and bounds
/// from the first attribute of the compressed primitive with the same
/// semantic; bounds that attribute does not declare become JSON `null`.
pub open spec fn is_attribute_accessor(
    acc: AccessorDesc,
    i: int,
    config: &DracoDecodeConfig,
    source: &SourcePrimitive,
    s: SemanticView,
) -> bool {
    &&& source_semantics(source).contains(s)
    &&& acc.buffer_view == i + 1
    &&& acc.byte_offset is None
    &&& acc.count == config.vertex_count as u64
    &&& acc.component_type == attribute_data_type(config.attributes@[i].data_type)
    &&& !acc.normalized
    &&& acc.dimensions == first_attribute(source, s).dimensions
    &&& acc.min == Some(first_attribute(source, s).min)
    &&& acc.max == Some(first_attribute(source, s).max)
}

/// `doc` describes the decoded buffer whose layout is `config`, for the
/// attribute ids of `link` and the compressed primitive `source`.
pub open spec fn describes_decoded(
    doc: &DecodedDocument,
    link: Map<usize, SemanticView>,
    source: &SourcePrimitive,
    config: &DracoDecodeConfig,
) -> bool {
    let n = config.attributes@.len();
    &&& n <= usize::MAX
    &&& forall|i: usize| i < n ==> #[trigger] link.contains_key(i)
    &&& doc.buffers@ == seq![BufferDesc { byte_length: config.buffer_size as u64 }]
    &&& doc.views@.len() == n + 1
    &&& doc.views@[0] == indices_view(config)
    &&& forall|i: int| 0 <= i < n ==> #[trigger] doc.views@[i + 1] == attribute_view(config.attributes@[i])
    &&& doc.accessors@.len() == n + 1
    &&& doc.accessors@[0] == indices_accessor(config)
    &&& forall|i: int|
        0 <= i < n ==> is_attribute_accessor(#[trigger] doc.accessors@[i + 1], i, config, source, link[i as usize])
    &&& doc.meshes@.len() == 1
    &&& doc.meshes@[0].primitives@.len() == 1
    &&& doc.meshes@[0].primitives@[0].indices == 0
    &&& doc.meshes@[0].primitives@[0].mode == Mode::Triangles
    &&& doc.meshes@[0].primitives@[0].material is None
    &&& doc.meshes@[0].primitives@[0].targets is None
    &&& distinct_keys(entry_values(doc.meshes@[0].primitives@[0].attributes@))
    &&& entries_map(entry_values(doc.meshes@[0].primitives@[0].attributes@)) == spec_attribute_map(link, n)
}

/// A copy of an optional JSON text.
fn copy_text(text: &Option<String>) -> (r: Option<String>)
    ensures
        r == *text,
{
    match text {
        Some(t) => Some(t.clone()),
        None => None,
    }
}

/// Sets the accessor of `semantic`, replacing the one it had.
fn set_attribute(entries: &mut Vec<(Semantic, usize)>, semantic: Semantic, accessor: usize)
    requires
        distinct_keys(entry_values(old(entries)@)),
    ensures
        distinct_keys(entry_values(final(entries)@)),
        entries_map(entry_values(final(entries)@)) == entries_map(entry_values(old(entries)@)).insert(
            semantic@,
            accessor,
        ),
{
    let ghost before = entry_values(entries@);
    let mut p: usize = 0;
    while p < entries.len()
        invariant
            p <= entries.len(),
            entries@ == old(entries)@,
            before == entry_values(entries@),
            distinct_keys(before),
            forall|k: int| 0 <= k < p ==> before[k].0 != semantic@,
        decreases entries.len() - p,
    {
        if entries[p].0.same_as(&semantic) {
            proof {
                lemma_entries_map_update(before, p as int, accessor);
            }
            let ghost s = semantic@;
            entries.set(p, (semantic, accessor));
            assert(entry_values(entries@) =~= before.update(p as int, (s, accessor)));
            return;
        }
        p = p + 1;
    }
    let ghost s = semantic@;
    entries.push((semantic, accessor));
    assert(entry_values(entries@) =~= before.push((s, accessor)));
    assert(entry_values(entries@).drop_last() =~= before);
}

/// The first position of `s` among the attributes of `source`.
fn source_position(source: &SourcePrimitive, s: &Semantic) -> (r: Option<usize>)
    ensures
        match r {
            Some(j) => is_first_position(source_semantics(source), s@, j as int),
            None => !source_semantics(source).contains(s@),
        },
{
    let ghost sems = source_semantics(source);
    let mut j: usize = 0;
    while j < source.attributes.len()
        invariant
            j <= source.attributes.len(),
            sems == source_semantics(source),
            forall|k: int| 0 <= k < j ==> sems[k] != s@,
        decreases source.attributes.len() - j,
    {
        if source.attributes[j].semantic.same_as(s) {
            return Some(j);
        }
        j = j + 1;
    }
    None
}

/// Internal Draco extension processor for a single glTF primitive.
pub struct DracoExtension {
    pub link: DracoSemanticLink,
}

impl DracoExtension {
    /// Reads the extension of a primitive from its decoded extension object;
    /// `None` stands for a primitive without the extension, or with an
    /// extension object that does not have the expected shape.
    pub fn parse(extension: Option<&DracoExtensionValue>) -> (r: Option<DracoExtension>)
        requires
            extension matches Some(value) ==> all_names_valid(attribute_entries(value)),
        ensures
            r is Some <==> extension is Some,
            extension matches Some(value) ==> (r matches Some(e) && e.link.buffer_view
                == value.buffer_view && e.link.semantics() == spec_link_map(attribute_entries(value))),
    {
        match extension {
            Some(value) => {
                let link = DracoSemanticLink::from_extension_value(value);
                Some(DracoExtension { link })
            },
            None => None,
        }
    }

    /// The compressed bytes of this primitive: those of the buffer view that
    /// the extension names, or `None` where the document has no such view.
    pub fn encoded_data<'a>(&self, views: &Vec<SourceView>, buffer_data: &'a [Vec<u8>]) -> (r:
        Option<&'a [u8]>)
        requires
            self.link.buffer_view < views@.len() ==> view_in_bounds(
                views@[self.link.buffer_view as int],
                buffer_data@,
            ),
        ensures
            r is None <==> self.link.buffer_view >= views@.len(),
            r matches Some(data) ==> data@ == view_bytes(views@[self.link.buffer_view as int], buffer_data@),
            r matches Some(data) ==> ({
                let view = views@[self.link.buffer_view as int];
                &&& data@.len() == view.length
                &&& forall|k: int|
                    0 <= k < view.length ==> #[trigger] data@[k] == buffer_data@[view.buffer as int]@[view.offset
                        + k]
            }),
    {
        if self.link.buffer_view >= views.len() {
            return None;
        }
        let view = views[self.link.buffer_view];
        let buffer = buffer_data[view.buffer].as_slice();
        assert(buffer@ == buffer_data@[view.buffer as int]@);
        let available = buffer.len();
        assert(view.offset + view.length <= available);
        Some(vstd::slice::slice_subrange(buffer, view.offset, view.offset + view.length))
    }

    /// The layout and buffers of a decoded mesh: its decoded data becomes the
    /// one buffer of the decoded document.
    pub fn decoded_buffers(result: Option<MeshDecodeResult>) -> (r: Option<(DracoDecodeConfig, Vec<Vec<u8>>)>)
        ensures
            r is Some <==> result is Some,
            result matches Some(res) ==> (r matches Some(out) && out.0 == res.config && out.1@.len()
                == 1 && out.1@[0] == res.data),
    {
        match result {
            Some(res) => {
                let mut buffers: Vec<Vec<u8>> = Vec::new();
                buffers.push(res.data);
                Some((res.config, buffers))
            },
            None => None,
        }
    }

    /// Builds the document that describes the decoded Draco buffer.
    ///
    /// Every decoded attribute must have a semantic in the link, and the
    /// compressed primitive must declare an attribute with that semantic.
    pub fn build_document(&self, primitive: &SourcePrimitive, decode_config: &DracoDecodeConfig) -> (r:
        Option<DecodedDocument>)
        requires
            forall|i: usize|
                i < decode_config.attributes@.len() ==> #[trigger] self.link.semantics().contains_key(i),
            forall|i: usize|
                i < decode_config.attributes@.len() ==> source_semantics(primitive).contains(
                    #[trigger] self.link.semantics()[i],
                ),
        ensures
            r matches Some(doc) && describes_decoded(&doc, self.link.semantics(), primitive, decode_config),
    {
        let ghost link = self.link.semantics();
        let buffer_length = decode_config.estimate_buffer_size() as u64;
        let mut buffers: Vec<BufferDesc> = Vec::new();
        buffers.push(BufferDesc { byte_length: buffer_length });
        let mut views: Vec<BufferViewDesc> = Vec::new();
        views.push(
            BufferViewDesc {
                buffer: 0,
                byte_length: buffer_length,
                byte_offset: 0,
                byte_stride: None,
                target: Target::ArrayBuffer,
            },
        );
        let mut accessors: Vec<AccessorDesc> = Vec::new();
        accessors.push(
            AccessorDesc {
                buffer_view: 0,
                byte_offset: None,
                count: decode_config.index_count as u64,
                component_type: decode_config.component_data_type(),
                normalized: false,
                dimensions: Dimensions::Scalar,
                min: None,
                max: None,
            },
        );
        let mut entries: Vec<(Semantic, usize)> = Vec::new();
        assert(entry_values(entries@) =~= Seq::<(SemanticView, usize)>::empty());
        let n = decode_config.attributes.len();
        for i in 0..n
            invariant
                n == decode_config.attributes@.len(),
                link == self.link.semantics(),
                forall|k: usize| k < n ==> #[trigger] link.contains_key(k),
                forall|k: usize| k < n ==> source_semantics(primitive).contains(#[trigger] link[k]),
                buffer_length == decode_config.buffer_size as u64,
                views@.len() == i + 1,
                views@[0] == indices_view(decode_config),
                forall|k: int| 0 <= k < i ==> #[trigger] views@[k + 1] == attribute_view(decode_config.attributes@[k]),
                accessors@.len() == i + 1,
                accessors@[0] == indices_accessor(decode_config),
                forall|k: int|
                    0 <= k < i ==> is_attribute_accessor(
                        #[trigger] accessors@[k + 1],
                        k,
                        decode_config,
                        primitive,
                        link[k as usize],
                    ),
                distinct_keys(entry_values(entries@)),
                entries_map(entry_values(entries@)) == spec_attribute_map(link, i as nat),
        {
            let mesh_attribute = decode_config.attributes[i];
            assert(link.contains_key(i));
            let semantic = match self.link.map.get(&i) {
                Some(s) => s,
                None => vstd::pervasive::unreached(),
            };
            assert(semantic@ == link[i]);
            let j = match source_position(primitive, semantic) {
                Some(j) => j,
                None => {
                    assert(source_semantics(primitive).contains(link[i]));
                    vstd::pervasive::unreached()
                },
            };
            views.push(
                BufferViewDesc {
                    buffer: 0,
                    byte_length: mesh_attribute.length as u64,
                    byte_offset: mesh_attribute.offset as u64,
                    byte_stride: None,
                    target: Target::ArrayBuffer,
                },
            );
            proof {
                lemma_first_position_unique(source_semantics(primitive), link[i], j as int);
            }
            let old_attr = &primitive.attributes[j];
            accessors.push(
                AccessorDesc {
                    buffer_view: i + 1,
                    byte_offset: None,
                    count: decode_config.vertex_count as u64,
                    component_type: mesh_attribute.component_data_type(),
                    normalized: false,
                    dimensions: old_attr.dimensions,
                    min: Some(copy_text(&old_attr.min)),
                    max: Some(copy_text(&old_attr.max)),
                },
            );
            set_attribute(&mut entries, semantic.duplicate(), i + 1);
            assert(views@[i + 1] == attribute_view(decode_config.attributes@[i as int]));
        }
        let primitive_json = PrimitiveDesc {
            attributes: entries,
            indices: 0,
            mode: Mode::Triangles,
            material: None,
            targets: None,
        };
        let mut primitives: Vec<PrimitiveDesc> = Vec::new();
        primitives.push(primitive_json);
        let mut meshes: Vec<MeshDesc> = Vec::new();
        meshes.push(MeshDesc { primitives });
        let doc = DecodedDocument { buffers, views, accessors, meshes };
        assert(doc.buffers@ =~= seq![BufferDesc { byte_length: decode_config.buffer_size as u64 }]);
        Some(doc)
    }

    /// The single primitive of a decoded document.
    pub fn primitive(doc: &DecodedDocument) -> (r: &PrimitiveDesc)
        requires
            doc.meshes@.len() > 0,
            doc.meshes@[0].primitives@.len() > 0,
        ensures
            r == doc.meshes@[0].primitives@[0],
    {
        &doc.meshes[0].primitives[0]
    }
}

} // verus!
