use bevy_gltf_draco::semantic::{Checked, Semantic, SemanticCheck};

fn checked(s: &str) -> Checked<Semantic> {
    Semantic::checked(s)
}

/// What the glTF crate itself makes of the same name.
fn gltf_checked(s: &str) -> Option<gltf::Semantic> {
    let json = serde_json::to_string(s).unwrap();
    match serde_json::from_str::<gltf::json::validation::Checked<gltf::Semantic>>(&json).unwrap() {
        gltf::json::validation::Checked::Valid(v) => Some(v),
        gltf::json::validation::Checked::Invalid => None,
    }
}

fn same_as_gltf(ours: &Checked<Semantic>, theirs: &Option<gltf::Semantic>) -> bool {
    match (ours, theirs) {
        (Checked::Invalid, None) => true,
        (Checked::Valid(Semantic::Positions), Some(gltf::Semantic::Positions)) => true,
        (Checked::Valid(Semantic::Normals), Some(gltf::Semantic::Normals)) => true,
        (Checked::Valid(Semantic::Tangents), Some(gltf::Semantic::Tangents)) => true,
        (Checked::Valid(Semantic::Colors(a)), Some(gltf::Semantic::Colors(b))) => a == b,
        (Checked::Valid(Semantic::TexCoords(a)), Some(gltf::Semantic::TexCoords(b))) => a == b,
        (Checked::Valid(Semantic::Joints(a)), Some(gltf::Semantic::Joints(b))) => a == b,
        (Checked::Valid(Semantic::Weights(a)), Some(gltf::Semantic::Weights(b))) => a == b,
        (Checked::Valid(Semantic::Extras(a)), Some(gltf::Semantic::Extras(b))) => a == b,
        _ => false,
    }
}

#[test]
fn fixed_names_are_recognised() {
    assert_eq!(checked("POSITION"), Checked::Valid(Semantic::Positions));
    assert_eq!(checked("NORMAL"), Checked::Valid(Semantic::Normals));
    assert_eq!(checked("TANGENT"), Checked::Valid(Semantic::Tangents));
}

#[test]
fn indexed_names_read_their_set() {
    assert_eq!(checked("COLOR_0"), Checked::Valid(Semantic::Colors(0)));
    assert_eq!(checked("TEXCOORD_1"), Checked::Valid(Semantic::TexCoords(1)));
    assert_eq!(checked("JOINTS_0"), Checked::Valid(Semantic::Joints(0)));
    assert_eq!(checked("WEIGHTS_12"), Checked::Valid(Semantic::Weights(12)));
}

#[test]
fn underscore_names_are_application_specific() {
    assert_eq!(checked("_BATCHID"), Checked::Valid(Semantic::Extras("BATCHID".to_string())));
    assert_eq!(checked("_"), Checked::Valid(Semantic::Extras(String::new())));
    assert_eq!(checked("_é漢"), Checked::Valid(Semantic::Extras("é漢".to_string())));
    assert_eq!(checked("_COLOR_x"), Checked::Valid(Semantic::Extras("COLOR_x".to_string())));
}

#[test]
fn set_index_follows_unsigned_number_syntax() {
    assert_eq!(checked("COLOR_+3"), Checked::Valid(Semantic::Colors(3)));
    assert_eq!(checked("COLOR_007"), Checked::Valid(Semantic::Colors(7)));
    assert_eq!(checked("TEXCOORD_4294967295"), Checked::Valid(Semantic::TexCoords(u32::MAX)));
    assert_eq!(checked("TEXCOORD_4294967296"), Checked::Invalid);
    assert_eq!(checked("TEXCOORD_99999999999999999999"), Checked::Invalid);
    assert_eq!(checked("COLOR_"), Checked::Invalid);
    assert_eq!(checked("COLOR_+"), Checked::Invalid);
    assert_eq!(checked("COLOR_++1"), Checked::Invalid);
    assert_eq!(checked("JOINTS_-1"), Checked::Invalid);
    assert_eq!(checked("WEIGHTS_1a"), Checked::Invalid);
    assert_eq!(checked("WEIGHTS_ 1"), Checked::Invalid);
    assert_eq!(checked("COLOR_١"), Checked::Invalid);
}

#[test]
fn other_names_are_invalid() {
    assert_eq!(checked(""), Checked::Invalid);
    assert_eq!(checked("normal"), Checked::Invalid);
    assert_eq!(checked("NORMALS"), Checked::Invalid);
    assert_eq!(checked("POSITION_0"), Checked::Invalid);
    assert_eq!(checked("COLOR0"), Checked::Invalid);
    assert_eq!(checked("BATCHID"), Checked::Invalid);
}

#[test]
fn agrees_with_the_gltf_reader() {
    let names = [
        "POSITION", "NORMAL", "TANGENT", "COLOR_0", "COLOR_+2", "COLOR_010", "TEXCOORD_1",
        "TEXCOORD_4294967295", "TEXCOORD_4294967296", "JOINTS_0", "WEIGHTS_3", "_", "_X",
        "_é", "", "normal", "COLOR_", "COLOR_-1", "JOINTS_1x", "WEIGHTS", "TANGENTS",
    ];
    for name in names {
        assert!(same_as_gltf(&checked(name), &gltf_checked(name)), "disagreement on {:?}", name);
    }
}

#[test]
fn canonical_names_of_every_family_read_back() {
    for n in [0u32, 1, 9, 10, 99, 100, 65535, 4294967295] {
        assert_eq!(checked(&format!("COLOR_{}", n)), Checked::Valid(Semantic::Colors(n)));
        assert_eq!(checked(&format!("TEXCOORD_{}", n)), Checked::Valid(Semantic::TexCoords(n)));
        assert_eq!(checked(&format!("JOINTS_{}", n)), Checked::Valid(Semantic::Joints(n)));
        assert_eq!(checked(&format!("WEIGHTS_{}", n)), Checked::Valid(Semantic::Weights(n)));
    }
}
