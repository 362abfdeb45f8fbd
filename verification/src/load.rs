use vstd::prelude::*;
use crate::assets::{spec_created, AssetEntry, AssetRegistry, AssetSource, AssetTable};
use crate::error::Error;

verus! {

/// The staged project-load state machine: scripts compile and load first,
/// then every asset source is loaded (all issued at once, the stage ending
/// when the outstanding count reaches zero), then the scene is requested and
/// polled until it loads or fails, and the machine rests at `Done`.
#[derive(Debug, Clone, Copy, PartialEq, Eq, Structural)]
pub enum LoadProjectStep {
    Idle,
    Scripts(bool),
    Assets(usize),
    Scene(u64, bool),
    Done,
}

/// The machine's current step, as the editor resource holds it.
#[derive(Debug)]
pub struct LoadProjectProgress(pub LoadProjectStep);

/// What the engine reports for an in-flight asset or scene load.
#[derive(Debug, Clone, Copy, PartialEq, Eq, Structural)]
pub enum LoadState {
    NotLoaded,
    Loading,
    Loaded,
    Failed,
    Unloaded,
}

/// The outside work one poll of the machine asks for: issue the per-source
/// asset loads, request the scene from the asset server, or write the
/// loaded scene into the live store.
#[derive(Debug, Clone, Copy, PartialEq, Eq, Structural)]
pub enum StepEffect {
    NoEffect,
    StartAssetLoads,
    RequestScene,
    AttachScene(u64),
}

/// One poll of the machine: `n_sources` is how many entries the asset file
/// holds, `scene_handle` the handle the asset server hands out for the
/// scene, and `scene_state` its current load state. A failed scene load
/// still advances the stage, so the pipeline cannot get stuck on it.
pub open spec fn spec_load_step(
    p: LoadProjectStep,
    n_sources: usize,
    scene_handle: u64,
    scene_state: LoadState,
) -> (LoadProjectStep, StepEffect) {
    match p {
        LoadProjectStep::Idle => (LoadProjectStep::Idle, StepEffect::NoEffect),
        LoadProjectStep::Scripts(done) => if done {
            (LoadProjectStep::Assets(n_sources), StepEffect::StartAssetLoads)
        } else {
            (LoadProjectStep::Scripts(false), StepEffect::NoEffect)
        },
        LoadProjectStep::Assets(left) => if left == 0 {
            (LoadProjectStep::Scene(scene_handle, false), StepEffect::RequestScene)
        } else {
            (LoadProjectStep::Assets(left), StepEffect::NoEffect)
        },
        LoadProjectStep::Scene(h, done) => if done {
            (LoadProjectStep::Done, StepEffect::NoEffect)
        } else {
            match scene_state {
                LoadState::Failed => (LoadProjectStep::Scene(h, true), StepEffect::NoEffect),
                LoadState::Loaded => (LoadProjectStep::Scene(h, true), StepEffect::AttachScene(h)),
                _ => (LoadProjectStep::Scene(h, false), StepEffect::NoEffect),
            }
        },
        LoadProjectStep::Done => (LoadProjectStep::Done, StepEffect::NoEffect),
    }
}

/// Polls the machine once, as the per-tick system does.
pub fn load_project_step(
    progress: &mut LoadProjectProgress,
    sources: &Vec<AssetSource>,
    scene_handle: u64,
    scene_state: LoadState,
) -> (effect: StepEffect)
    ensures
        (final(progress).0, effect) == spec_load_step(
            old(progress).0,
            sources@.len() as usize,
            scene_handle,
            scene_state,
        ),
{
    let (next, effect): (LoadProjectStep, StepEffect) = match progress.0 {
        LoadProjectStep::Idle => (LoadProjectStep::Idle, StepEffect::NoEffect),
        LoadProjectStep::Scripts(done) => if done {
            (LoadProjectStep::Assets(sources.len()), StepEffect::StartAssetLoads)
        } else {
            (LoadProjectStep::Scripts(false), StepEffect::NoEffect)
        },
        LoadProjectStep::Assets(left) => if left == 0 {
            (LoadProjectStep::Scene(scene_handle, false), StepEffect::RequestScene)
        } else {
            (LoadProjectStep::Assets(left), StepEffect::NoEffect)
        },
        LoadProjectStep::Scene(h, done) => if done {
            (LoadProjectStep::Done, StepEffect::NoEffect)
        } else {
            match scene_state {
                LoadState::Failed => (LoadProjectStep::Scene(h, true), StepEffect::NoEffect),
                LoadState::Loaded => (LoadProjectStep::Scene(h, true), StepEffect::AttachScene(h)),
                _ => (LoadProjectStep::Scene(h, false), StepEffect::NoEffect),
            }
        },
        LoadProjectStep::Done => (LoadProjectStep::Done, StepEffect::NoEffect),
    };
    progress.0 = next;
    effect
}

/// Starts a project load: with scripts enabled the machine waits for the
/// script build (and the script attach is requested), otherwise the script
/// stage is already complete.
pub fn start_load(progress: &mut LoadProjectProgress, script_enabled: bool) -> (attach_script:
    bool)
    ensures
        final(progress).0 == LoadProjectStep::Scripts(!script_enabled),
        attach_script == script_enabled,
{
    if script_enabled {
        progress.0 = LoadProjectStep::Scripts(false);
        true
    } else {
        progress.0 = LoadProjectStep::Scripts(true);
        false
    }
}

/// The step after a script load completes: only a pending script stage
/// advances, anything else is left untouched.
pub open spec fn spec_script_complete(p: LoadProjectStep) -> LoadProjectStep {
    match p {
        LoadProjectStep::Scripts(false) => LoadProjectStep::Scripts(true),
        _ => p,
    }
}

/// Records a completed script load, as the task poll does.
pub fn script_load_complete(progress: &mut LoadProjectProgress)
    ensures
        final(progress).0 == spec_script_complete(old(progress).0),
{
    if let LoadProjectStep::Scripts(false) = progress.0 {
        progress.0 = LoadProjectStep::Scripts(true);
    }
}

/// The step after one asset load lands: an outstanding count decrements,
/// and a poll in any other stage is a sequencing error that changes nothing.
pub open spec fn spec_asset_applied(p: LoadProjectStep) -> LoadProjectStep {
    match p {
        LoadProjectStep::Assets(left) => if left > 0 {
            LoadProjectStep::Assets((left - 1) as usize)
        } else {
            p
        },
        _ => p,
    }
}

/// Applies one completed asset load: the source's value is created in the
/// asset table under its fresh transient handle, the entry joins the
/// tracked list with no attached handle yet, and the outstanding count
/// decrements. Success is owed exactly for an inline source whose content
/// its codec accepts.
pub fn apply_load_asset(
    registry: &AssetRegistry,
    table: &mut AssetTable,
    management: &mut Vec<AssetEntry>,
    progress: &mut LoadProjectProgress,
    source: AssetSource,
    fresh_uid: u64,
) -> (r: Result<(), Error>)
    requires
        registry@.contains_key(source.type_uuid@),
    ensures
        (r is Ok) <==> (spec_created(registry@[source.type_uuid@], source) is Some),
        r is Ok ==> final(table)@ == old(table)@.insert(
            (source.type_uuid@, fresh_uid),
            spec_created(registry@[source.type_uuid@], source)->0,
        ) && final(management)@.len() == old(management)@.len() + 1 && (
        final(management)@.last().source == source) && final(management)@.last().original.key()
            == (source.type_uuid@, fresh_uid) && (final(management)@.last().attached is None) && (
        forall|i: int|
            0 <= i < old(management)@.len() ==> final(management)@[i] == old(management)@[i])
            && final(progress).0 == spec_asset_applied(old(progress).0),
        r is Err ==> final(table)@ == old(table)@ && final(management)@ == old(management)@
            && final(progress).0 == old(progress).0,
{
    let ghost src = source;
    let type_uuid = source.type_uuid.clone();
    let handle = match registry.create(&source, table, fresh_uid) {
        Ok(h) => h,
        Err(e) => {
            return Err(e);
        },
    };
    proof {
        assert(handle.key() == (src.type_uuid@, fresh_uid));
    }
    management.push(AssetEntry { source, original: handle, attached: None });
    if let LoadProjectStep::Assets(left) = progress.0 {
        if left > 0 {
            progress.0 = LoadProjectStep::Assets(left - 1);
        }
    }
    Ok(())
}

/// The total order of the machine's stages.
pub open spec fn step_rank(s: LoadProjectStep) -> int {
    match s {
        LoadProjectStep::Idle => 0,
        LoadProjectStep::Scripts(done) => if done {
            2
        } else {
            1
        },
        LoadProjectStep::Assets(_) => 3,
        LoadProjectStep::Scene(_, done) => if done {
            5
        } else {
            4
        },
        LoadProjectStep::Done => 6,
    }
}

/// `b` is at or beyond `a` on the only forward path the machine has:
/// its stage rank never drops, and within the asset stage the outstanding
/// count never grows.
pub open spec fn step_advances(a: LoadProjectStep, b: LoadProjectStep) -> bool {
    &&& step_rank(a) <= step_rank(b)
    &&& match (a, b) {
        (LoadProjectStep::Assets(n), LoadProjectStep::Assets(m)) => m <= n,
        _ => true,
    }
}

/// Stage monotonicity: a poll never moves the machine backwards.
pub proof fn lemma_poll_monotonic(
    p: LoadProjectStep,
    n_sources: usize,
    scene_handle: u64,
    scene_state: LoadState,
)
    ensures
        step_advances(p, spec_load_step(p, n_sources, scene_handle, scene_state).0),
{
}

/// Stage monotonicity: a script completion never moves the machine
/// backwards.
pub proof fn lemma_script_complete_monotonic(p: LoadProjectStep)
    ensures
        step_advances(p, spec_script_complete(p)),
{
}

/// Stage monotonicity: a landed asset load never moves the machine
/// backwards, and strictly shrinks a positive outstanding count.
pub proof fn lemma_asset_applied_monotonic(p: LoadProjectStep)
    ensures
        step_advances(p, spec_asset_applied(p)),
        (match p {
            LoadProjectStep::Assets(n) => n > 0 ==> spec_asset_applied(p)
                == LoadProjectStep::Assets((n - 1) as usize),
            _ => true,
        }),
{
}

/// Stage monotonicity extends over any chain of steps.
pub proof fn lemma_advances_transitive(a: LoadProjectStep, b: LoadProjectStep, c: LoadProjectStep)
    requires
        step_advances(a, b),
        step_advances(b, c),
    ensures
        step_advances(a, c),
{
}

} // verus!
