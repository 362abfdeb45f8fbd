use bevytor::assets::{
    AssetRegistry, AssetSource, AssetSourceType, AssetTable, AssetValue, MeshMaterial,
    MESH_TYPE_UUID,
};
use bevytor::load::{
    apply_load_asset, load_project_step, script_load_complete, start_load, LoadProjectProgress,
    LoadProjectStep, LoadState, StepEffect,
};

fn mesh_source(raw: &str, uid: u64) -> AssetSource {
    AssetSource {
        source_type: AssetSourceType::AsString(String::from(raw)),
        type_uuid: String::from(MESH_TYPE_UUID),
        uid,
    }
}

#[test]
fn start_load_with_scripts_waits_for_build() {
    let mut progress = LoadProjectProgress(LoadProjectStep::Idle);
    let attach = start_load(&mut progress, true);
    assert!(attach);
    assert_eq!(progress.0, LoadProjectStep::Scripts(false));
}

#[test]
fn start_load_without_scripts_skips_the_stage() {
    let mut progress = LoadProjectProgress(LoadProjectStep::Idle);
    let attach = start_load(&mut progress, false);
    assert!(!attach);
    assert_eq!(progress.0, LoadProjectStep::Scripts(true));
}

#[test]
fn stages_advance_in_order_only() {
    // fixture of exactly three asset entries
    let sources = vec![
        mesh_source("Cube", 1),
        mesh_source("Plane", 2),
        mesh_source("Sphere", 3),
    ];
    let mut progress = LoadProjectProgress(LoadProjectStep::Scripts(false));

    // a poll while the script still builds stays put
    let eff = load_project_step(&mut progress, &sources, 77, LoadState::NotLoaded);
    assert_eq!(progress.0, LoadProjectStep::Scripts(false));
    assert_eq!(eff, StepEffect::NoEffect);

    // the compile completion event advances the script stage
    script_load_complete(&mut progress);
    assert_eq!(progress.0, LoadProjectStep::Scripts(true));

    // the next poll starts the asset stage with all three entries pending
    let eff = load_project_step(&mut progress, &sources, 77, LoadState::NotLoaded);
    assert_eq!(progress.0, LoadProjectStep::Assets(3));
    assert_eq!(eff, StepEffect::StartAssetLoads);

    // each landed asset decrements the counter
    let registry = AssetRegistry::with_defaults();
    let mut table = AssetTable::new();
    let mut management = Vec::new();
    for (i, src) in sources.into_iter().enumerate() {
        let r = apply_load_asset(
            &registry,
            &mut table,
            &mut management,
            &mut progress,
            src,
            100 + i as u64,
        );
        assert!(r.is_ok());
    }
    assert_eq!(progress.0, LoadProjectStep::Assets(0));
    assert_eq!(management.len(), 3);
    assert!(management.iter().all(|e| e.attached.is_none()));

    // with nothing outstanding the scene is requested
    let sources2: Vec<AssetSource> = Vec::new();
    let eff = load_project_step(&mut progress, &sources2, 77, LoadState::NotLoaded);
    assert_eq!(progress.0, LoadProjectStep::Scene(77, false));
    assert_eq!(eff, StepEffect::RequestScene);

    // polling while it loads stays put
    let eff = load_project_step(&mut progress, &sources2, 77, LoadState::Loading);
    assert_eq!(progress.0, LoadProjectStep::Scene(77, false));
    assert_eq!(eff, StepEffect::NoEffect);

    // a loaded scene is attached and the stage completes
    let eff = load_project_step(&mut progress, &sources2, 77, LoadState::Loaded);
    assert_eq!(progress.0, LoadProjectStep::Scene(77, true));
    assert_eq!(eff, StepEffect::AttachScene(77));

    let eff = load_project_step(&mut progress, &sources2, 77, LoadState::Loaded);
    assert_eq!(progress.0, LoadProjectStep::Done);
    assert_eq!(eff, StepEffect::NoEffect);

    // the machine rests at done
    let eff = load_project_step(&mut progress, &sources2, 77, LoadState::Loaded);
    assert_eq!(progress.0, LoadProjectStep::Done);
    assert_eq!(eff, StepEffect::NoEffect);
}

#[test]
fn failed_scene_load_still_advances() {
    let sources: Vec<AssetSource> = Vec::new();
    let mut progress = LoadProjectProgress(LoadProjectStep::Scene(5, false));
    let eff = load_project_step(&mut progress, &sources, 5, LoadState::Failed);
    assert_eq!(progress.0, LoadProjectStep::Scene(5, true));
    assert_eq!(eff, StepEffect::NoEffect);
    load_project_step(&mut progress, &sources, 5, LoadState::Failed);
    assert_eq!(progress.0, LoadProjectStep::Done);
}

#[test]
fn script_completion_in_other_stages_changes_nothing() {
    let mut progress = LoadProjectProgress(LoadProjectStep::Assets(2));
    script_load_complete(&mut progress);
    assert_eq!(progress.0, LoadProjectStep::Assets(2));
}

#[test]
fn bad_mesh_source_fails_and_changes_nothing() {
    let registry = AssetRegistry::with_defaults();
    let mut table = AssetTable::new();
    let mut management = Vec::new();
    let mut progress = LoadProjectProgress(LoadProjectStep::Assets(1));
    let r = apply_load_asset(
        &registry,
        &mut table,
        &mut management,
        &mut progress,
        mesh_source("Blob", 9),
        50,
    );
    assert!(r.is_err());
    assert_eq!(r.err().unwrap().code, "ASSET::CREATE::BAD_MESH_SOURCE");
    assert!(management.is_empty());
    assert_eq!(progress.0, LoadProjectStep::Assets(1));
}

#[test]
fn created_mesh_lands_in_the_table() {
    let registry = AssetRegistry::with_defaults();
    let mut table = AssetTable::new();
    let mut management = Vec::new();
    let mut progress = LoadProjectProgress(LoadProjectStep::Assets(1));
    let r = apply_load_asset(
        &registry,
        &mut table,
        &mut management,
        &mut progress,
        mesh_source("Cube", 9),
        50,
    );
    assert!(r.is_ok());
    assert_eq!(progress.0, LoadProjectStep::Assets(0));
    let handle = &management[0].original;
    assert_eq!(handle.uid, 50);
    assert_eq!(table.get(handle), Some(&AssetValue::MeshAsset(MeshMaterial::Cube)));
}
