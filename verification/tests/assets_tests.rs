use bevytor::assets::{
    simple_object_sources, str_eq, AssetEntry, AssetRegistry, AssetSource, AssetSourceType,
    AssetTable, AssetValue, Camera, HandleId, Light, MeshMaterial, SimpleObject,
    MATERIAL_TYPE_UUID, MESH_TYPE_UUID,
};

fn mesh_handle(uid: u64) -> HandleId {
    HandleId { type_uuid: String::from(MESH_TYPE_UUID), uid }
}

#[test]
fn mesh_codec_round_trips() {
    for m in [MeshMaterial::Cube, MeshMaterial::Plane, MeshMaterial::Sphere] {
        assert_eq!(MeshMaterial::parse(m.label()), Some(m));
    }
    assert_eq!(MeshMaterial::parse("cube"), None);
    assert_eq!(MeshMaterial::parse(""), None);
}

#[test]
fn str_eq_compares_contents() {
    assert!(str_eq("abc", "abc"));
    assert!(!str_eq("abc", "abd"));
    assert!(!str_eq("abc", "ab"));
}

#[test]
fn create_builds_the_unit_cube_mesh() {
    let registry = AssetRegistry::with_defaults();
    let mut table = AssetTable::new();
    let source = AssetSource {
        source_type: AssetSourceType::AsString(String::from("Cube")),
        type_uuid: String::from(MESH_TYPE_UUID),
        uid: 99,
    };
    let handle = registry.create(&source, &mut table, 7).expect("cube source must create");
    assert_eq!(handle.uid, 7);
    assert_eq!(handle.type_uuid, MESH_TYPE_UUID);
    assert_eq!(table.get(&handle), Some(&AssetValue::MeshAsset(MeshMaterial::Cube)));
}

#[test]
fn create_rejects_file_sources_and_bad_content() {
    let registry = AssetRegistry::with_defaults();
    let mut table = AssetTable::new();
    let file_source = AssetSource {
        source_type: AssetSourceType::AsFile(String::from("mesh.gltf")),
        type_uuid: String::from(MESH_TYPE_UUID),
        uid: 1,
    };
    let r = registry.create(&file_source, &mut table, 2);
    assert_eq!(r.err().unwrap().code, "ASSET::CREATE::FILE_SOURCE_UNSUPPORTED");
    let bad = AssetSource {
        source_type: AssetSourceType::AsString(String::from("Pyramid")),
        type_uuid: String::from(MESH_TYPE_UUID),
        uid: 1,
    };
    let r = registry.create(&bad, &mut table, 2);
    assert_eq!(r.err().unwrap().code, "ASSET::CREATE::BAD_MESH_SOURCE");
}

#[test]
fn attach_rekeys_under_the_stable_uid() {
    // register the mesh codec, create from the inline "Cube" source,
    // simulate load completion, attach; the handle formed from the
    // source's (type identifier, uid) must resolve to the unit cube.
    let registry = AssetRegistry::with_defaults();
    let mut table = AssetTable::new();
    let source = AssetSource {
        source_type: AssetSourceType::AsString(String::from("Cube")),
        type_uuid: String::from(MESH_TYPE_UUID),
        uid: 99,
    };
    let original = registry.create(&source, &mut table, 7).unwrap();
    let mut entry = AssetEntry { source, original, attached: None };
    let ok = registry.attach_asset(&mut entry, &mut table);
    assert!(ok);
    let attached = entry.attached.as_ref().unwrap();
    assert_eq!(attached.uid, 99);
    assert_eq!(table.get(&mesh_handle(99)), Some(&AssetValue::MeshAsset(MeshMaterial::Cube)));
}

#[test]
fn attach_twice_resolves_to_the_same_value() {
    // a reload creates a second transient handle for the same source;
    // attaching again leaves lookups by (type identifier, uid) unchanged.
    let registry = AssetRegistry::with_defaults();
    let mut table = AssetTable::new();
    let source1 = AssetSource {
        source_type: AssetSourceType::AsString(String::from("Cube")),
        type_uuid: String::from(MESH_TYPE_UUID),
        uid: 99,
    };
    let original1 = registry.create(&source1, &mut table, 7).unwrap();
    let mut entry1 = AssetEntry { source: source1, original: original1, attached: None };
    assert!(registry.attach_asset(&mut entry1, &mut table));
    let first = table.get(&mesh_handle(99)).map(|v| v.duplicate());

    let source2 = AssetSource {
        source_type: AssetSourceType::AsString(String::from("Cube")),
        type_uuid: String::from(MESH_TYPE_UUID),
        uid: 99,
    };
    let original2 = registry.create(&source2, &mut table, 8).unwrap();
    let mut entry2 = AssetEntry { source: source2, original: original2, attached: None };
    assert!(registry.attach_asset(&mut entry2, &mut table));
    let second = table.get(&mesh_handle(99)).map(|v| v.duplicate());
    assert_eq!(first, second);
    assert_eq!(second, Some(AssetValue::MeshAsset(MeshMaterial::Cube)));
}

#[test]
fn attach_fails_without_a_loaded_original() {
    let registry = AssetRegistry::with_defaults();
    let mut table = AssetTable::new();
    let source = AssetSource {
        source_type: AssetSourceType::AsString(String::from("Cube")),
        type_uuid: String::from(MESH_TYPE_UUID),
        uid: 99,
    };
    let mut entry = AssetEntry { source, original: mesh_handle(7), attached: None };
    let ok = registry.attach_asset(&mut entry, &mut table);
    assert!(!ok);
    assert!(entry.attached.is_none());
}

#[test]
fn update_source_rewrites_material_text_only() {
    let registry = AssetRegistry::with_defaults();
    let mut table = AssetTable::new();
    let mat_handle = HandleId { type_uuid: String::from(MATERIAL_TYPE_UUID), uid: 4 };
    table.set(mat_handle, AssetValue::MaterialAsset(String::from("Rgba(red:0.5)")));
    let mut mat_source = AssetSource {
        source_type: AssetSourceType::AsString(String::from("Rgba(red:0.7)")),
        type_uuid: String::from(MATERIAL_TYPE_UUID),
        uid: 4,
    };
    registry.update_source(&mut mat_source, &table);
    match &mat_source.source_type {
        AssetSourceType::AsString(s) => assert_eq!(s, "Rgba(red:0.5)"),
        _ => panic!("material source must stay inline"),
    }

    // a mesh source is its own source of truth and stays as it is
    let mut m_source = AssetSource {
        source_type: AssetSourceType::AsString(String::from("Cube")),
        type_uuid: String::from(MESH_TYPE_UUID),
        uid: 9,
    };
    let cube = registry.create(&m_source, &mut table, 9).unwrap();
    let _ = cube;
    registry.update_source(&mut m_source, &table);
    match &m_source.source_type {
        AssetSourceType::AsString(s) => assert_eq!(s, "Cube"),
        _ => panic!("mesh source must stay inline"),
    }
}

#[test]
fn simple_object_records_its_sources() {
    let obj = SimpleObject::MeshMaterial(MeshMaterial::Sphere);
    let sources = simple_object_sources(&obj, 11, 12, "Rgba(red:0.7,green:0.7,blue:0.7,alpha:1.0)");
    assert_eq!(sources.len(), 2);
    match &sources[0].source_type {
        AssetSourceType::AsString(s) => assert_eq!(s, "Sphere"),
        _ => panic!("mesh source must be inline"),
    }
    assert_eq!(sources[0].type_uuid, MESH_TYPE_UUID);
    assert_eq!(sources[0].uid, 11);
    assert_eq!(sources[1].type_uuid, MATERIAL_TYPE_UUID);
    assert_eq!(sources[1].uid, 12);

    let light = SimpleObject::Light(Light::Point);
    let sources = simple_object_sources(&light, 21, 22, "");
    assert_eq!(sources.len(), 1);
    match &sources[0].source_type {
        AssetSourceType::AsString(s) => assert_eq!(s, "Cube"),
        _ => panic!("wireframe source must be inline"),
    }

    assert_eq!(SimpleObject::Camera(Camera::Perspective).label(), "Perspective");
    assert_eq!(SimpleObject::Light(Light::Directional).label(), "Directional");
    assert_eq!(light.label(), "Point");
}

#[test]
fn update_sources_refreshes_the_whole_listing() {
    let registry = AssetRegistry::with_defaults();
    let mut table = AssetTable::new();
    let mat_handle = HandleId { type_uuid: String::from(MATERIAL_TYPE_UUID), uid: 4 };
    table.set(mat_handle, AssetValue::MaterialAsset(String::from("Rgba(red:0.9)")));
    let mut sources = vec![
        AssetSource {
            source_type: AssetSourceType::AsString(String::from("Cube")),
            type_uuid: String::from(MESH_TYPE_UUID),
            uid: 9,
        },
        AssetSource {
            source_type: AssetSourceType::AsString(String::from("Rgba(red:0.1)")),
            type_uuid: String::from(MATERIAL_TYPE_UUID),
            uid: 4,
        },
        AssetSource {
            source_type: AssetSourceType::AsFile(String::from("cube.gltf")),
            type_uuid: String::from(MESH_TYPE_UUID),
            uid: 5,
        },
    ];
    registry.update_sources(&mut sources, &table);
    match &sources[0].source_type {
        AssetSourceType::AsString(s) => assert_eq!(s, "Cube"),
        _ => panic!("mesh source must stay inline"),
    }
    match &sources[1].source_type {
        AssetSourceType::AsString(s) => assert_eq!(s, "Rgba(red:0.9)"),
        _ => panic!("material source must stay inline"),
    }
    match &sources[2].source_type {
        AssetSourceType::AsFile(s) => assert_eq!(s, "cube.gltf"),
        _ => panic!("file source must stay file-backed"),
    }
}
