use bevy_gltf_draco::data_type::{DataType, GltfDataType};
use bevy_gltf_draco::decoded::{AttributeDataType, DracoDecodeConfig, MeshAttribute};
use bevy_gltf_draco::document::{
    AccessorDesc, BufferDesc, BufferViewDesc, Dimensions, Mode, SourceAttribute, SourcePrimitive,
    Target,
};
use bevy_gltf_draco::extension::{DracoExtension, DracoExtensionValue};
use bevy_gltf_draco::semantic::Semantic;

fn extension(entries: &[(&str, usize)]) -> DracoExtension {
    let v = DracoExtensionValue {
        buffer_view: 0,
        attributes: entries.iter().map(|(n, i)| (n.to_string(), *i)).collect(),
    };
    DracoExtension::parse(Some(&v)).unwrap()
}

fn attribute(data_type: AttributeDataType, offset: u32, length: u32) -> MeshAttribute {
    MeshAttribute { dim: 3, data_type, offset, length }
}

fn source() -> SourcePrimitive {
    SourcePrimitive {
        attributes: vec![
            SourceAttribute { semantic: Semantic::Normals, dimensions: Dimensions::Vec3, min: None, max: None },
            SourceAttribute {
                semantic: Semantic::Positions,
                dimensions: Dimensions::Vec3,
                min: Some("[-1.0,-1.0,-1.0]".to_string()),
                max: Some("[1.0,1.0,1.0]".to_string()),
            },
            SourceAttribute { semantic: Semantic::TexCoords(0), dimensions: Dimensions::Vec2, min: None, max: None },
        ],
    }
}

#[test]
fn document_lays_out_indices_then_attributes() {
    let ext = extension(&[("POSITION", 0), ("TEXCOORD_0", 1)]);
    let config = DracoDecodeConfig {
        vertex_count: 4,
        index_count: 6,
        buffer_size: 92,
        attributes: vec![
            attribute(AttributeDataType::Float32, 12, 48),
            attribute(AttributeDataType::UInt16, 60, 32),
        ],
    };
    let doc = ext.build_document(&source(), &config).unwrap();
    assert_eq!(doc.buffers, vec![BufferDesc { byte_length: 92 }]);
    assert_eq!(
        doc.views,
        vec![
            BufferViewDesc { buffer: 0, byte_length: 92, byte_offset: 0, byte_stride: None, target: Target::ArrayBuffer },
            BufferViewDesc { buffer: 0, byte_length: 48, byte_offset: 12, byte_stride: None, target: Target::ArrayBuffer },
            BufferViewDesc { buffer: 0, byte_length: 32, byte_offset: 60, byte_stride: None, target: Target::ArrayBuffer },
        ]
    );
    assert_eq!(
        doc.accessors,
        vec![
            AccessorDesc {
                buffer_view: 0,
                byte_offset: None,
                count: 6,
                component_type: DataType::U16,
                normalized: false,
                dimensions: Dimensions::Scalar,
                min: None,
                max: None,
            },
            AccessorDesc {
                buffer_view: 1,
                byte_offset: None,
                count: 4,
                component_type: DataType::F32,
                normalized: false,
                dimensions: Dimensions::Vec3,
                min: Some(Some("[-1.0,-1.0,-1.0]".to_string())),
                max: Some(Some("[1.0,1.0,1.0]".to_string())),
            },
            AccessorDesc {
                buffer_view: 2,
                byte_offset: None,
                count: 4,
                component_type: DataType::U16,
                normalized: false,
                dimensions: Dimensions::Vec2,
                min: Some(None),
                max: Some(None),
            },
        ]
    );
    let prim = DracoExtension::primitive(&doc);
    assert_eq!(prim.indices, 0);
    assert_eq!(prim.mode, Mode::Triangles);
    assert_eq!(prim.material, None);
    assert!(prim.targets.is_none());
    assert_eq!(prim.attributes, vec![(Semantic::Positions, 1), (Semantic::TexCoords(0), 2)]);
}

#[test]
fn repeated_semantic_keeps_the_last_accessor() {
    let ext = extension(&[("NORMAL", 0), ("NORMAL", 1)]);
    let config = DracoDecodeConfig {
        vertex_count: 1,
        index_count: 70000,
        buffer_size: 280024,
        attributes: vec![
            attribute(AttributeDataType::Int8, 280000, 12),
            attribute(AttributeDataType::Int32, 280012, 12),
        ],
    };
    let doc = ext.build_document(&source(), &config).unwrap();
    assert_eq!(doc.accessors[0].component_type, DataType::U32);
    assert_eq!(doc.accessors[1].component_type, DataType::I8);
    assert_eq!(doc.accessors[2].component_type, DataType::U32);
    assert_eq!(doc.accessors[2].dimensions, Dimensions::Vec3);
    assert_eq!(doc.accessors[2].min, Some(None));
    let prim = DracoExtension::primitive(&doc);
    assert_eq!(prim.attributes, vec![(Semantic::Normals, 2)]);
}

#[test]
fn document_without_attributes_has_only_indices() {
    let ext = extension(&[]);
    let config = DracoDecodeConfig { vertex_count: 0, index_count: 0, buffer_size: 0, attributes: vec![] };
    let doc = ext.build_document(&source(), &config).unwrap();
    assert_eq!(doc.views.len(), 1);
    assert_eq!(doc.accessors.len(), 1);
    assert_eq!(doc.meshes.len(), 1);
    assert!(DracoExtension::primitive(&doc).attributes.is_empty());
}

#[test]
fn index_type_widens_beyond_sixteen_bits() {
    let at = |n: u32| DracoDecodeConfig { vertex_count: 0, index_count: n, buffer_size: 0, attributes: vec![] };
    assert_eq!(at(0).component_data_type(), DataType::U16);
    assert_eq!(at(65535).component_data_type(), DataType::U16);
    assert_eq!(at(65536).component_data_type(), DataType::U32);
    assert_eq!(at(u32::MAX).component_data_type(), DataType::U32);
}

#[test]
fn attribute_types_map_to_gltf_component_types() {
    let cases = [
        (AttributeDataType::Int8, DataType::I8),
        (AttributeDataType::UInt8, DataType::U8),
        (AttributeDataType::Int16, DataType::I16),
        (AttributeDataType::UInt16, DataType::U16),
        (AttributeDataType::Int32, DataType::U32),
        (AttributeDataType::UInt32, DataType::U32),
        (AttributeDataType::Float32, DataType::F32),
    ];
    for (draco, gltf) in cases {
        assert_eq!(attribute(draco, 0, 0).component_data_type(), gltf);
    }
}

#[test]
fn estimate_buffer_size_is_the_decoded_size() {
    let config = DracoDecodeConfig { vertex_count: 0, index_count: 0, buffer_size: 1234, attributes: vec![] };
    assert_eq!(config.estimate_buffer_size(), 1234);
}

#[test]
fn every_reference_of_a_decoded_document_resolves() {
    let ext = extension(&[("TEXCOORD_0", 0), ("POSITION", 1), ("NORMAL", 2)]);
    let config = DracoDecodeConfig {
        vertex_count: 2,
        index_count: 3,
        buffer_size: 70,
        attributes: vec![
            attribute(AttributeDataType::Float32, 6, 16),
            attribute(AttributeDataType::Float32, 22, 24),
            attribute(AttributeDataType::Int8, 46, 24),
        ],
    };
    let src = source();
    let doc = ext.build_document(&src, &config).unwrap();
    for view in &doc.views {
        assert!(view.buffer < doc.buffers.len());
        assert!(view.byte_offset + view.byte_length <= doc.buffers[view.buffer].byte_length);
    }
    for acc in &doc.accessors {
        assert!(acc.buffer_view < doc.views.len());
    }
    let prim = DracoExtension::primitive(&doc);
    assert!(prim.indices < doc.accessors.len());
    for (semantic, index) in &prim.attributes {
        assert!(*index >= 1 && *index < doc.accessors.len());
        let id = *index - 1;
        assert_eq!(ext.link.map.get(&id), Some(semantic));
        assert_eq!(doc.views[*index].byte_offset, config.attributes[id].offset as u64);
    }
}

#[test]
fn unlinked_attributes_and_their_order_do_not_matter() {
    let ext = extension(&[("POSITION", 0)]);
    let config = DracoDecodeConfig {
        vertex_count: 4,
        index_count: 6,
        buffer_size: 60,
        attributes: vec![attribute(AttributeDataType::Float32, 12, 48)],
    };
    let other = SourcePrimitive {
        attributes: vec![
            SourceAttribute {
                semantic: Semantic::Positions,
                dimensions: Dimensions::Vec3,
                min: Some("[-1.0,-1.0,-1.0]".to_string()),
                max: Some("[1.0,1.0,1.0]".to_string()),
            },
            SourceAttribute { semantic: Semantic::Colors(0), dimensions: Dimensions::Vec4, min: None, max: None },
        ],
    };
    let a = ext.build_document(&source(), &config).unwrap();
    let b = ext.build_document(&other, &config).unwrap();
    assert_eq!(a.buffers, b.buffers);
    assert_eq!(a.views, b.views);
    assert_eq!(a.accessors, b.accessors);
    assert_eq!(DracoExtension::primitive(&a).attributes, DracoExtension::primitive(&b).attributes);
}
