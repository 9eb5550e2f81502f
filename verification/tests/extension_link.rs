use bevy_gltf_draco::decoded::{DracoDecodeConfig, MeshDecodeResult};
use bevy_gltf_draco::document::SourceView;
use bevy_gltf_draco::extension::{DracoExtension, DracoExtensionValue, DracoSemanticLink};
use bevy_gltf_draco::semantic::Semantic;

fn value(buffer_view: usize, entries: &[(&str, usize)]) -> DracoExtensionValue {
    DracoExtensionValue {
        buffer_view,
        attributes: entries.iter().map(|(n, i)| (n.to_string(), *i)).collect(),
    }
}

#[test]
fn link_maps_each_listed_id() {
    let v = value(3, &[("POSITION", 0), ("NORMAL", 1), ("TEXCOORD_0", 2), ("_BATCHID", 3)]);
    let link = DracoSemanticLink::from_extension_value(&v);
    assert_eq!(link.buffer_view, 3);
    assert_eq!(link.map.len(), 4);
    assert_eq!(link.map.get(&0), Some(&Semantic::Positions));
    assert_eq!(link.map.get(&1), Some(&Semantic::Normals));
    assert_eq!(link.map.get(&2), Some(&Semantic::TexCoords(0)));
    assert_eq!(link.map.get(&3), Some(&Semantic::Extras("BATCHID".to_string())));
    assert_eq!(link.map.get(&4), None);
}

#[test]
fn last_entry_for_an_id_wins() {
    let v = value(0, &[("POSITION", 5), ("NORMAL", 5)]);
    let link = DracoSemanticLink::from_extension_value(&v);
    assert_eq!(link.map.len(), 1);
    assert_eq!(link.map.get(&5), Some(&Semantic::Normals));
}

#[test]
fn empty_extension_links_nothing() {
    let link = DracoSemanticLink::from_extension_value(&value(7, &[]));
    assert!(link.map.is_empty());
    assert_eq!(link.buffer_view, 7);
}

#[test]
fn parse_without_extension_gives_none() {
    assert!(DracoExtension::parse(None).is_none());
    let v = value(1, &[("POSITION", 0)]);
    let e = DracoExtension::parse(Some(&v)).unwrap();
    assert_eq!(e.link.buffer_view, 1);
    assert_eq!(e.link.map.get(&0), Some(&Semantic::Positions));
}

#[test]
fn encoded_data_selects_the_named_view() {
    let e = DracoExtension::parse(Some(&value(1, &[]))).unwrap();
    let views = vec![
        SourceView { buffer: 0, offset: 0, length: 2 },
        SourceView { buffer: 1, offset: 2, length: 3 },
    ];
    let buffers = vec![vec![9u8, 9], vec![0u8, 1, 2, 3, 4, 5]];
    assert_eq!(e.encoded_data(&views, &buffers), Some(&[2u8, 3, 4][..]));
}

#[test]
fn encoded_data_of_a_missing_view_is_none() {
    let e = DracoExtension::parse(Some(&value(2, &[]))).unwrap();
    let views = vec![SourceView { buffer: 0, offset: 0, length: 1 }];
    let buffers = vec![vec![1u8]];
    assert_eq!(e.encoded_data(&views, &buffers), None);
}

#[test]
fn decoded_data_becomes_the_single_buffer() {
    let config = DracoDecodeConfig { vertex_count: 3, index_count: 3, buffer_size: 4, attributes: vec![] };
    let out = DracoExtension::decoded_buffers(Some(MeshDecodeResult { data: vec![1, 2, 3, 4], config }));
    let (config, buffers) = out.unwrap();
    assert_eq!(config.vertex_count, 3);
    assert_eq!(buffers, vec![vec![1u8, 2, 3, 4]]);
    assert!(DracoExtension::decoded_buffers(None).is_none());
}

#[test]
fn walk_order_does_not_matter_for_distinct_ids() {
    let a = value(0, &[("POSITION", 0), ("NORMAL", 1), ("COLOR_0", 2)]);
    let b = value(0, &[("COLOR_0", 2), ("POSITION", 0), ("NORMAL", 1)]);
    let la = DracoSemanticLink::from_extension_value(&a);
    let lb = DracoSemanticLink::from_extension_value(&b);
    assert_eq!(la.map, lb.map);
}
