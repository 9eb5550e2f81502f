use bevy_gltf_draco::handler::{
    attribute_action, convert_indices, AssetUsages, AttributeAction, ConvertCoordinates,
    GltfDracoDecoderExtensionHandler, Indices, LoaderSettings, ReadIndices,
};
use bevy_gltf_draco::semantic::Semantic;

#[test]
fn handler_starts_in_both_worlds_without_rotation() {
    let h = GltfDracoDecoderExtensionHandler::default();
    assert_eq!(h.load_meshes, AssetUsages { main_world: true, render_world: true });
    assert!(!h.rotate_meshes);
}

#[test]
fn on_root_takes_over_the_settings() {
    let mut h = GltfDracoDecoderExtensionHandler::default();
    let only_render = AssetUsages { main_world: false, render_world: true };
    h.on_root(&LoaderSettings {
        load_meshes: only_render,
        convert_coordinates: Some(ConvertCoordinates { rotate_scene_entity: false, rotate_meshes: true }),
    });
    assert_eq!(h.load_meshes, only_render);
    assert!(h.rotate_meshes);
    h.on_root(&LoaderSettings {
        load_meshes: AssetUsages::default(),
        convert_coordinates: Some(ConvertCoordinates { rotate_scene_entity: true, rotate_meshes: false }),
    });
    assert!(!h.rotate_meshes);
    h.on_root(&LoaderSettings { load_meshes: AssetUsages::default(), convert_coordinates: None });
    assert!(!h.rotate_meshes);
    assert_eq!(h.load_meshes, AssetUsages::default());
}

#[test]
fn skinning_attributes_of_unskinned_meshes_are_skipped() {
    assert_eq!(attribute_action(&Semantic::Joints(0), false, true), AttributeAction::Skip);
    assert_eq!(attribute_action(&Semantic::Weights(0), false, false), AttributeAction::Skip);
    assert_eq!(attribute_action(&Semantic::Joints(0), true, true), AttributeAction::ConvertOnMixedNodes);
    assert_eq!(attribute_action(&Semantic::Weights(0), true, false), AttributeAction::Convert);
}

#[test]
fn other_attributes_are_always_converted() {
    for (skinned, unskinned) in [(false, false), (false, true), (true, false), (true, true)] {
        assert_eq!(attribute_action(&Semantic::Joints(1), skinned, unskinned), AttributeAction::Convert);
        assert_eq!(attribute_action(&Semantic::Weights(2), skinned, unskinned), AttributeAction::Convert);
        assert_eq!(attribute_action(&Semantic::Positions, skinned, unskinned), AttributeAction::Convert);
        assert_eq!(
            attribute_action(&Semantic::Extras("JOINTS_0".to_string()), skinned, unskinned),
            AttributeAction::Convert
        );
    }
}

#[test]
fn byte_indices_are_widened() {
    match convert_indices(ReadIndices::U8(vec![0, 1, 255])) {
        Indices::U16(v) => assert_eq!(v, vec![0u16, 1, 255]),
        Indices::U32(_) => panic!("expected 16-bit indices"),
    }
}

#[test]
fn wider_indices_are_kept() {
    match convert_indices(ReadIndices::U16(vec![3, 65535])) {
        Indices::U16(v) => assert_eq!(v, vec![3u16, 65535]),
        Indices::U32(_) => panic!("expected 16-bit indices"),
    }
    match convert_indices(ReadIndices::U32(vec![70000, 0])) {
        Indices::U32(v) => assert_eq!(v, vec![70000u32, 0]),
        Indices::U16(_) => panic!("expected 32-bit indices"),
    }
}
