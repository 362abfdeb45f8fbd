use bevytor::assets::{AssetTable, AssetValue, HandleId, MATERIAL_TYPE_UUID};
use bevytor::inspect::{
    Edit, InspectRegistry, LeafValue, ReflectValue, RenderOp, WalkContext, PARENT_LINK_KEY,
};
use bevytor::ui::{inspect_components, short_name, ComponentEntry};

const SCALAR_KEY: u64 = 300;
const NAME_KEY: u64 = 301;
const HANDLE_KEY: u64 = 302;
const POSITION_KEY: u64 = 310;

fn registry() -> InspectRegistry {
    let mut reg = InspectRegistry::with_default_skips();
    reg.register(SCALAR_KEY);
    reg.register(NAME_KEY);
    reg.register(HANDLE_KEY);
    reg
}

fn sample_value() -> ReflectValue {
    ReflectValue::StructValue(
        POSITION_KEY,
        vec![
            (
                Some(String::from("translation")),
                ReflectValue::Leaf(SCALAR_KEY, LeafValue::Scalar32(0x3f800000)),
            ),
            (None, ReflectValue::Leaf(SCALAR_KEY, LeafValue::Unsigned(7))),
            (
                Some(String::from("tags")),
                ReflectValue::ListValue(
                    311,
                    vec![ReflectValue::Leaf(NAME_KEY, LeafValue::Text(String::from("cube")))],
                ),
            ),
        ],
    )
}

fn walk(
    reg: &InspectRegistry,
    value: ReflectValue,
    collapsible: Option<&str>,
    edits: Vec<Edit>,
    assets: &mut AssetTable,
) -> (ReflectValue, Vec<RenderOp>) {
    let mut ctx = WalkContext { collapsible: collapsible.map(String::from) };
    let mut log = Vec::new();
    let path = Vec::new();
    let out = reg.exec_reflect(value, &mut ctx, &edits, &path, assets, &mut log);
    (out, log)
}

#[test]
fn walk_without_edits_is_identity() {
    let reg = registry();
    let mut assets = AssetTable::new();
    let before = sample_value();
    let again = sample_value();
    let (after, _log) = walk(&reg, again, None, Vec::new(), &mut assets);
    assert_eq!(after, before);
}

#[test]
fn walk_with_same_value_edit_is_identity() {
    let reg = registry();
    let mut assets = AssetTable::new();
    let before = sample_value();
    let again = sample_value();
    // edit field 0 to the value it already holds
    let edits = vec![Edit { path: vec![0], value: LeafValue::Scalar32(0x3f800000) }];
    let (after, _log) = walk(&reg, again, None, edits, &mut assets);
    assert_eq!(after, before);
}

#[test]
fn walk_applies_a_leaf_edit_at_its_path() {
    let reg = registry();
    let mut assets = AssetTable::new();
    let edits = vec![Edit { path: vec![2, 0], value: LeafValue::Text(String::from("sphere")) }];
    let (after, _log) = walk(&reg, sample_value(), None, edits, &mut assets);
    match after {
        ReflectValue::StructValue(_, fields) => match &fields[2].1 {
            ReflectValue::ListValue(_, items) => match &items[0] {
                ReflectValue::Leaf(_, LeafValue::Text(s)) => assert_eq!(s, "sphere"),
                other => panic!("unexpected leaf {:?}", other),
            },
            other => panic!("unexpected field {:?}", other),
        },
        other => panic!("unexpected value {:?}", other),
    }
}

#[test]
fn mismatched_edit_shape_is_ignored() {
    let reg = registry();
    let mut assets = AssetTable::new();
    let before = sample_value();
    let edits = vec![Edit { path: vec![0], value: LeafValue::Boolean(true) }];
    let (after, _log) = walk(&reg, sample_value(), None, edits, &mut assets);
    assert_eq!(after, before);
}

#[test]
fn skipped_types_render_nothing() {
    let reg = registry();
    let mut assets = AssetTable::new();
    let value = ReflectValue::StructValue(
        PARENT_LINK_KEY,
        vec![(Some(String::from("parent")), ReflectValue::Leaf(SCALAR_KEY, LeafValue::Unsigned(3)))],
    );
    let expected = ReflectValue::StructValue(
        PARENT_LINK_KEY,
        vec![(Some(String::from("parent")), ReflectValue::Leaf(SCALAR_KEY, LeafValue::Unsigned(3)))],
    );
    let (after, log) = walk(&reg, value, Some("Parent"), Vec::new(), &mut assets);
    assert_eq!(after, expected);
    assert!(log.is_empty());
}

#[test]
fn one_collapsing_header_per_component_never_nested() {
    let reg = registry();
    let mut assets = AssetTable::new();
    let (_after, log) = walk(&reg, sample_value(), Some("Transform"), Vec::new(), &mut assets);
    let headers: Vec<&RenderOp> =
        log.iter().filter(|op| matches!(op, RenderOp::HeaderOp(_))).collect();
    assert_eq!(headers.len(), 1);
    assert_eq!(log[0], RenderOp::HeaderOp(String::from("Transform")));
}

#[test]
fn unnamed_fields_render_the_missing_marker() {
    let reg = registry();
    let mut assets = AssetTable::new();
    let (_after, log) = walk(&reg, sample_value(), None, Vec::new(), &mut assets);
    assert!(log.contains(&RenderOp::MissingLabelOp));
    assert!(log.contains(&RenderOp::NameLabelOp(String::from("translation"))));
}

#[test]
fn maps_and_enums_render_placeholders() {
    let reg = registry();
    let mut assets = AssetTable::new();
    let (after, log) = walk(&reg, ReflectValue::MapValue(55), None, Vec::new(), &mut assets);
    assert_eq!(after, ReflectValue::MapValue(55));
    assert_eq!(log, vec![RenderOp::PlaceholderOp(55)]);
    let (after, log) = walk(&reg, ReflectValue::EnumValue(56), None, Vec::new(), &mut assets);
    assert_eq!(after, ReflectValue::EnumValue(56));
    assert_eq!(log, vec![RenderOp::PlaceholderOp(56)]);
    // an editor-less leaf renders a placeholder instead of failing the walk
    let (after, log) = walk(
        &reg,
        ReflectValue::Leaf(999, LeafValue::Unsigned(1)),
        None,
        Vec::new(),
        &mut assets,
    );
    assert_eq!(after, ReflectValue::Leaf(999, LeafValue::Unsigned(1)));
    assert_eq!(log, vec![RenderOp::PlaceholderOp(999)]);
}

#[test]
fn handle_editor_pierces_into_the_asset_table() {
    let reg = registry();
    let mut assets = AssetTable::new();
    let handle = HandleId { type_uuid: String::from(MATERIAL_TYPE_UUID), uid: 5 };
    assets.set(handle, AssetValue::MaterialAsset(String::from("Rgba(red:0.1)")));
    let value = ReflectValue::Leaf(HANDLE_KEY, LeafValue::HandleRef(5));
    let edits = vec![Edit { path: vec![], value: LeafValue::Text(String::from("Rgba(red:0.9)")) }];
    let (after, _log) = walk(&reg, value, None, edits, &mut assets);
    assert_eq!(after, ReflectValue::Leaf(HANDLE_KEY, LeafValue::HandleRef(5)));
    let probe = HandleId { type_uuid: String::from(MATERIAL_TYPE_UUID), uid: 5 };
    assert_eq!(
        assets.get(&probe),
        Some(&AssetValue::MaterialAsset(String::from("Rgba(red:0.9)")))
    );
}

#[test]
fn handle_pierce_with_repeated_text_changes_nothing() {
    let reg = registry();
    let mut assets = AssetTable::new();
    let handle = HandleId { type_uuid: String::from(MATERIAL_TYPE_UUID), uid: 5 };
    assets.set(handle, AssetValue::MaterialAsset(String::from("Rgba(red:0.1)")));
    let value = ReflectValue::Leaf(HANDLE_KEY, LeafValue::HandleRef(5));
    let edits = vec![Edit { path: vec![], value: LeafValue::Text(String::from("Rgba(red:0.1)")) }];
    let (_after, _log) = walk(&reg, value, None, edits, &mut assets);
    let probe = HandleId { type_uuid: String::from(MATERIAL_TYPE_UUID), uid: 5 };
    assert_eq!(
        assets.get(&probe),
        Some(&AssetValue::MaterialAsset(String::from("Rgba(red:0.1)")))
    );
}

#[test]
fn short_name_takes_the_last_segment() {
    assert_eq!(
        short_name("bevy_transform::components::transform::Transform"),
        "Transform"
    );
    assert_eq!(short_name("Plain"), "Plain");
    assert_eq!(short_name("a::b"), "b");
}

#[test]
fn inspector_walks_each_component_under_one_header() {
    let reg = registry();
    let mut assets = AssetTable::new();
    let mut log = Vec::new();
    let comps = vec![
        ComponentEntry {
            full_name: String::from("bevy_transform::components::transform::Transform"),
            value: sample_value(),
        },
        ComponentEntry {
            full_name: String::from("bevy_core::name::Name"),
            value: ReflectValue::Leaf(NAME_KEY, LeafValue::Text(String::from("Cube"))),
        },
    ];
    let edits = vec![Edit { path: vec![1], value: LeafValue::Text(String::from("Sphere")) }];
    let out = inspect_components(&reg, comps, &edits, &mut assets, &mut log);
    // one collapsing group per component, labelled with the short name
    let headers: Vec<&RenderOp> =
        log.iter().filter(|op| matches!(op, RenderOp::HeaderOp(_))).collect();
    assert_eq!(headers.len(), 2);
    assert_eq!(*headers[0], RenderOp::HeaderOp(String::from("Transform")));
    assert_eq!(*headers[1], RenderOp::HeaderOp(String::from("Name")));
    // the edit at the second component's path landed, the first is untouched
    assert_eq!(out[0].value, sample_value());
    assert_eq!(out[1].value, ReflectValue::Leaf(NAME_KEY, LeafValue::Text(String::from("Sphere"))));
}
