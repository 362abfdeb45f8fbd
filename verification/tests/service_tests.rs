use bevytor::error::Error;
use bevytor::load::{LoadProjectProgress, LoadProjectStep};
use bevytor::logs::{popup_for_log, Level, Log, LogBuffer, LOG_SIZE};
use bevytor::project::{ExistingProjects, PathProbe, Project, ProjectDescription, ProjectState};
use bevytor::scripts::ScriptableRegistry;
use bevytor::store::{Entity, EntityStore, ORIGINAL_ID_KEY};
use bevytor::ui::{
    apply_change_camera, apply_reset, file_editor_outcome, press_pause, press_play, press_stop,
    project_list, project_row, tick_scripts, ControlState, ProjectListAction, ProjectListInput,
    ProjectRowAction,
};

#[test]
fn error_renders_code_and_details() {
    let plain = Error::new("BOOM");
    assert_eq!(plain.code, "BOOM");
    assert!(plain.details.is_none());
    assert_eq!(plain.display(), "BOOM -> /");
    assert_eq!(plain.title(), "Error");
    let rich = Error::new_with_details("BOOM", "cause");
    assert_eq!(rich.display(), "BOOM -> cause");
}

#[test]
fn log_buffer_caps_at_its_size() {
    let mut buffer = LogBuffer::new();
    for i in 0..(LOG_SIZE + 2) {
        buffer.write(format!("m{}", i), Level::Info);
    }
    assert_eq!(buffer.iter().len(), LOG_SIZE);
    assert_eq!(buffer.iter()[0].message, "m2");
    buffer.write_error(String::from("bad"));
    assert_eq!(buffer.iter().last().unwrap().level, Level::Error);
}

#[test]
fn log_line_renders_level_and_message() {
    let entry = Log { level: Level::Error, message: String::from("boom") };
    assert_eq!(entry.line(), "[ERROR] boom");
    assert_eq!(Level::Fatal.label(), "FATAL");
    assert_eq!(Level::Trace.label(), "TRACE");
}

#[test]
fn only_error_and_fatal_raise_popups() {
    let msg = String::from("oops");
    assert!(popup_for_log(&msg, Level::Error).is_some());
    assert!(popup_for_log(&msg, Level::Fatal).is_some());
    assert!(popup_for_log(&msg, Level::Warn).is_none());
    assert!(popup_for_log(&msg, Level::Info).is_none());
    let popup = popup_for_log(&msg, Level::Error).unwrap();
    assert_eq!(popup.code, "oops");
}

fn probe(exists: bool, is_dir: bool, readable: bool, empty: bool) -> PathProbe {
    PathProbe { exists, is_dir, readable, empty }
}

#[test]
fn verify_new_names_each_failure() {
    let r = Project::verify_new(&probe(true, false, false, false));
    assert_eq!(r.err().unwrap().code, "PROJECT::BUILD::PATH_NOT_DIR");
    let r = Project::verify_new(&probe(true, true, false, false));
    assert_eq!(r.err().unwrap().code, "PROJECT::BUILD::CANNOT_READ_DIR");
    let r = Project::verify_new(&probe(true, true, true, false));
    assert_eq!(r.err().unwrap().code, "PROJECT::BUILD::DIR_NOT_EMPTY");
    assert_eq!(Project::verify_new(&probe(true, true, true, true)).unwrap(), false);
    assert_eq!(Project::verify_new(&probe(false, false, false, false)).unwrap(), true);
}

#[test]
fn verify_existing_names_each_failure() {
    let r = Project::verify_existing(&probe(false, false, false, false));
    assert_eq!(r.err().unwrap().code, "PROJECT::BUILD::PATH_DOES_NOT_EXIST");
    let r = Project::verify_existing(&probe(true, false, false, false));
    assert_eq!(r.err().unwrap().code, "PROJECT::BUILD::PATH_NOT_DIR");
    let r = Project::verify_existing(&probe(true, true, false, false));
    assert_eq!(r.err().unwrap().code, "PROJECT::BUILD::CANNOT_READ_DIR");
    assert!(Project::verify_existing(&probe(true, true, true, false)).is_ok());
}

#[test]
fn load_and_generate_gates_name_each_stage() {
    let good = probe(true, true, true, true);
    let r = Project::load_gate(&probe(false, false, false, false), true, true);
    assert_eq!(r.err().unwrap().code, "PROJECT::LOAD::VERIFY_FAILED");
    let r = Project::load_gate(&good, false, true);
    assert_eq!(r.err().unwrap().code, "PROJECT::LOAD::CANNOT_READ_PROJECT_FILE");
    let r = Project::load_gate(&good, true, false);
    assert_eq!(r.err().unwrap().code, "PROJECT::LOAD::CANNOT_DESERIALIZE_PROJECT");
    assert!(Project::load_gate(&good, true, true).is_ok());

    let fresh = probe(false, false, false, false);
    let r = Project::generate_gate(&probe(true, true, true, false), true, true, true);
    assert_eq!(r.err().unwrap().code, "PROJECT::GENERATE::VERIFY_FAILED");
    let r = Project::generate_gate(&fresh, false, true, true);
    assert_eq!(r.err().unwrap().code, "PROJECT::BUILD::CANNOT_SERIALIZE_PROJECT");
    let r = Project::generate_gate(&fresh, true, false, true);
    assert_eq!(r.err().unwrap().code, "PROJECT::BUILD::CANNOT_COPY_TEMPLATE");
    let r = Project::generate_gate(&fresh, true, true, false);
    assert_eq!(r.err().unwrap().code, "PROJECT::BUILD::CANNOT_WRITE_TO_PROJECT_FILE");
    assert!(Project::generate_gate(&fresh, true, true, true).is_ok());
}

#[test]
fn existing_projects_gates_name_each_stage() {
    assert_eq!(ExistingProjects::load_gate(false, false, false).unwrap(), true);
    let r = ExistingProjects::load_gate(true, false, false);
    assert_eq!(r.err().unwrap().code, "PROJECT::LOAD_EXISTING::CANNOT_READ_FILE");
    let r = ExistingProjects::load_gate(true, true, false);
    assert_eq!(r.err().unwrap().code, "PROJECT::LOAD_EXISTING::CANNOT_PARSE");
    assert_eq!(ExistingProjects::load_gate(true, true, true).unwrap(), false);

    let r = ExistingProjects::save_gate(&probe(true, false, false, false), true, true, true);
    assert_eq!(r.err().unwrap().code, "PROJECT::SAVE_EXISTING::PATH_NOT_DIR");
    let r = ExistingProjects::save_gate(&probe(true, true, false, false), true, true, true);
    assert_eq!(r.err().unwrap().code, "PROJECT::SAVE_EXISTING::CANNOT_READ_DIR");
    let r = ExistingProjects::save_gate(&probe(false, false, false, false), false, true, true);
    assert_eq!(r.err().unwrap().code, "PROJECT::SAVE_EXISTING::CANNOT_CREATE_DIR");
    let r = ExistingProjects::save_gate(&probe(true, true, true, false), true, false, true);
    assert_eq!(r.err().unwrap().code, "PROJECT::SAVE_EXISTING::CANNOT_SERIALIZE");
    let r = ExistingProjects::save_gate(&probe(true, true, true, false), true, true, false);
    assert_eq!(r.err().unwrap().code, "PROJECT::SAVE_EXISTING::CANNOT_WRITE_TO_PROJECT_FILE");
    assert!(ExistingProjects::save_gate(&probe(true, true, true, false), true, true, true).is_ok());
}

#[test]
fn file_editor_reports_unreadable_directories() {
    assert!(file_editor_outcome(true).is_ok());
    let r = file_editor_outcome(false);
    assert_eq!(r.err().unwrap().code, "FILE_EXPLORER::SHOW::CANNOT_READ_DIR");
}

#[test]
fn project_state_defaults_match_the_template() {
    let state = ProjectState::default();
    assert_eq!(state.scene_file, "initial.scn.ron");
    assert_eq!(state.asset_file, "initial.asset.ron");
    assert_eq!(state.assets_folder, "assets");
    assert!(!state.script_enabled);
}

fn desc(name: &str, path: &str) -> ProjectDescription {
    ProjectDescription { name: String::from(name), path: String::from(path) }
}

#[test]
fn existing_projects_behave_as_a_set() {
    let mut projects = ExistingProjects::new();
    projects.add(desc("a", "/p/a"));
    projects.add(desc("b", "/p/b"));
    projects.add(desc("a", "/p/a"));
    assert_eq!(projects.0.len(), 2);
    projects.remove(&desc("a", "/p/a"));
    assert_eq!(projects.0.len(), 1);
    assert_eq!(projects.0[0].name, "b");
    projects.remove(&desc("missing", "/nowhere"));
    assert_eq!(projects.0.len(), 1);
}

#[test]
fn project_rows_cannot_remove_unremovable_rows() {
    assert_eq!(project_row(true, false, true), Some(ProjectRowAction::Select));
    assert_eq!(project_row(false, true, true), Some(ProjectRowAction::Remove));
    assert_eq!(project_row(false, false, true), None);
    assert_eq!(project_row(false, true, false), None);
}

#[test]
fn project_list_picks_the_first_action() {
    let mut projects = ExistingProjects::new();
    projects.add(desc("a", "/p/a"));
    projects.add(desc("b", "/p/b"));

    let input = ProjectListInput {
        create_clicked: true,
        open_clicked: true,
        rows: vec![(false, false), (false, false)],
    };
    assert!(matches!(project_list(&input, &projects).unwrap(), Some(ProjectListAction::Create)));

    let input = ProjectListInput {
        create_clicked: false,
        open_clicked: true,
        rows: vec![(false, false), (false, false)],
    };
    assert!(matches!(project_list(&input, &projects).unwrap(), Some(ProjectListAction::NewOpen)));

    let input = ProjectListInput {
        create_clicked: false,
        open_clicked: false,
        rows: vec![(false, true), (true, false)],
    };
    match project_list(&input, &projects).unwrap() {
        Some(ProjectListAction::ExistingRemove(d)) => assert_eq!(d.name, "a"),
        other => panic!("unexpected action {:?}", other),
    }

    let input = ProjectListInput {
        create_clicked: false,
        open_clicked: false,
        rows: vec![(false, false), (false, false)],
    };
    assert!(project_list(&input, &projects).unwrap().is_none());
}

#[test]
fn play_pause_stop_reset_cycle() {
    let mut state = ControlState::default();
    let mut store = EntityStore::new();
    let a = store.spawn(None);

    let run_start = press_play(&mut state, &mut store, 42);
    assert!(run_start);
    assert!(state.playing);
    assert_eq!(state.scene_handle, Some(42));
    assert!(store.has_component(a, ORIGINAL_ID_KEY));

    assert!(tick_scripts(&mut state));
    assert!(!state.initial);

    press_pause(&mut state);
    assert!(!state.playing);
    assert!(!tick_scripts(&mut state));

    // a second play does not run the start hook again
    let run_start = press_play(&mut state, &mut store, 43);
    assert!(!run_start);
    assert_eq!(state.scene_handle, Some(42));

    // a script spawns something while playing; stop and reset remove it
    let spawned = store.spawn(None);
    assert!(press_stop(&mut state));
    apply_reset(&mut state, &mut store);
    assert!(state.initial);
    assert!(store.is_valid(a));
    assert!(!store.is_valid(spawned));
}

#[test]
fn change_camera_activates_exactly_one() {
    let a = Entity { index: 0, generation: 0 };
    let b = Entity { index: 1, generation: 0 };
    let c = Entity { index: 2, generation: 0 };
    let mut cameras = vec![(a, true), (b, false), (c, false)];
    apply_change_camera(&mut cameras, b);
    assert_eq!(cameras, vec![(a, false), (b, true), (c, false)]);
}

#[test]
fn script_install_retires_the_previous_build() {
    let mut registry = ScriptableRegistry::new();
    let mut progress = LoadProjectProgress(LoadProjectStep::Scripts(false));
    registry.begin_load(String::from("/proj/scripts"));
    assert_eq!(registry.compiling.len(), 1);

    registry.install(String::from("/proj/scripts"), 1, String::from("scripts-100.dll"), &mut progress);
    assert_eq!(progress.0, LoadProjectStep::Scripts(true));
    assert!(registry.compiling.is_empty());
    assert_eq!(registry.impls.len(), 1);
    assert!(registry.old_impls.is_empty());

    // a reload replaces the active script and retains the old library
    registry.begin_load(String::from("/proj/scripts"));
    registry.install(String::from("/proj/scripts"), 2, String::from("scripts-200.dll"), &mut progress);
    assert_eq!(registry.impls.len(), 1);
    assert_eq!(registry.impls[0].state.library, 2);
    assert_eq!(registry.old_impls.len(), 1);
    assert_eq!(registry.old_impls[0].library, 1);

    registry.clear_retired();
    assert!(registry.old_impls.is_empty());
}
