use vstd::prelude::*;
use crate::error::{EResult, Error};
use crate::project::{ExistingProjects, ProjectDescription};
use crate::store::{Entity, EntityStore};

verus! {

/// What one frame of the file explorer produced.
#[derive(Debug)]
pub enum FileEditorAction {
    ChangePath(String),
    Select,
    NoChange,
}

/// The file explorer's error policy: an unreadable directory names itself,
/// anything else is no action this frame.
pub fn file_editor_outcome(dir_readable: bool) -> (r: EResult<FileEditorAction>)
    ensures
        dir_readable <==> (r matches Ok(a) && a is NoChange),
        !dir_readable ==> (r matches Err(e) && e.code@ == "FILE_EXPLORER::SHOW::CANNOT_READ_DIR"@),
{
    if dir_readable {
        Ok(FileEditorAction::NoChange)
    } else {
        Err(Error::new("FILE_EXPLORER::SHOW::CANNOT_READ_DIR"))
    }
}

/// What one row of the project list produced.
#[derive(Debug, Clone, Copy, PartialEq, Eq, Structural)]
pub enum ProjectRowAction {
    Select,
    Remove,
}

/// What the project-selection window produced.
#[derive(Debug)]
pub enum ProjectListAction {
    Create,
    NewOpen,
    ExistingOpen(ProjectDescription),
    ExistingRemove(ProjectDescription),
}

/// One project row's outcome: its main button selects; its remove button
/// removes, but only on rows that offer removal — a non-removable row can
/// never produce `Remove`.
pub fn project_row(clicked: bool, removable: bool, remove_clicked: bool) -> (r: Option<
    ProjectRowAction,
>)
    ensures
        clicked ==> r == Some(ProjectRowAction::Select),
        !clicked && removable && remove_clicked ==> r == Some(ProjectRowAction::Remove),
        !clicked && !(removable && remove_clicked) ==> r is None,
        !removable ==> r != Some(ProjectRowAction::Remove),
{
    if clicked {
        Some(ProjectRowAction::Select)
    } else if removable && remove_clicked {
        Some(ProjectRowAction::Remove)
    } else {
        None
    }
}

/// The per-row clicks of one frame of the project list: the create row, the
/// open row, and one `(clicked, remove_clicked)` pair per known project.
#[derive(Debug)]
pub struct ProjectListInput {
    pub create_clicked: bool,
    pub open_clicked: bool,
    pub rows: Vec<(bool, bool)>,
}

/// The first project row at or after `i` that produced an action.
pub open spec fn spec_row_action(rows: Seq<(bool, bool)>, i: int) -> Option<(int, ProjectRowAction)>
    decreases rows.len() - i,
{
    if i < 0 || i >= rows.len() {
        None
    } else if rows[i].0 {
        Some((i, ProjectRowAction::Select))
    } else if rows[i].1 {
        Some((i, ProjectRowAction::Remove))
    } else {
        spec_row_action(rows, i + 1)
    }
}

/// One frame of the project-selection window: the create row wins first,
/// then the open row, then the first project row with a click — a selection
/// opens that project, its remove button unrecords it.
pub fn project_list(input: &ProjectListInput, projects: &ExistingProjects) -> (r: EResult<
    Option<ProjectListAction>,
>)
    requires
        input.rows@.len() == projects.0@.len(),
    ensures
        r is Ok,
        input.create_clicked ==> (r matches Ok(a) && a matches Some(x) && x is Create),
        !input.create_clicked && input.open_clicked ==> (r matches Ok(a) && a matches Some(x) && x
            is NewOpen),
        !input.create_clicked && !input.open_clicked ==> (r matches Ok(a) && (match spec_row_action(
            input.rows@,
            0,
        ) {
            Some(ia) => a matches Some(x) && (match ia.1 {
                ProjectRowAction::Select => x matches ProjectListAction::ExistingOpen(d)
                    && d.name@ == projects.0@[ia.0].name@ && d.path@ == projects.0@[ia.0].path@,
                ProjectRowAction::Remove => x matches ProjectListAction::ExistingRemove(d)
                    && d.name@ == projects.0@[ia.0].name@ && d.path@ == projects.0@[ia.0].path@,
            }),
            None => a is None,
        })),
{
    if input.create_clicked {
        return Ok(Some(ProjectListAction::Create));
    }
    if input.open_clicked {
        return Ok(Some(ProjectListAction::NewOpen));
    }
    let n = input.rows.len();
    let mut i: usize = 0;
    while i < n
        invariant
            i <= n,
            n == input.rows@.len(),
            n == projects.0@.len(),
            !input.create_clicked,
            !input.open_clicked,
            spec_row_action(input.rows@, 0) == spec_row_action(input.rows@, i as int),
        decreases n - i,
    {
        let (clicked, remove_clicked) = input.rows[i];
        match project_row(clicked, true, remove_clicked) {
            Some(ProjectRowAction::Select) => {
                return Ok(Some(ProjectListAction::ExistingOpen(projects.0[i].duplicate())));
            },
            Some(ProjectRowAction::Remove) => {
                return Ok(Some(ProjectListAction::ExistingRemove(projects.0[i].duplicate())));
            },
            None => {},
        }
        i += 1;
    }
    Ok(None)
}

/// Play/pause/stop state of the editor's controls bar.
#[derive(Debug)]
pub struct ControlState {
    pub playing: bool,
    pub initial: bool,
    pub scene_handle: Option<u64>,
}

impl Default for ControlState {
    /// The editor starts paused, on the pristine scene, with no snapshot.
    fn default() -> (r: ControlState)
        ensures
            !r.playing,
            r.initial,
            r.scene_handle is None,
    {
        ControlState { playing: false, initial: true, scene_handle: None }
    }
}

/// Pressing play from the pristine scene first stamps every live entity
/// with its original id and remembers the snapshot handle the scene was
/// saved under; in either case the editor is playing afterwards and the
/// scripts' start hook runs exactly on the first play.
pub fn press_play(state: &mut ControlState, store: &mut EntityStore, snapshot: u64) -> (run_start:
    bool)
    requires
        old(store).wf(),
        !old(state).playing,
    ensures
        final(store).wf(),
        final(state).playing,
        final(state).initial == old(state).initial,
        run_start == old(state).initial,
        old(state).initial ==> final(state).scene_handle == Some(snapshot) && final(store).n()
            == old(store).n() && (forall|i: int|
            0 <= i < old(store).n() ==> ((#[trigger] final(store).has_key_ix(
                i,
                crate::store::ORIGINAL_ID_KEY,
            )) <==> (old(store).live_ix(i) || old(store).has_key_ix(
                i,
                crate::store::ORIGINAL_ID_KEY,
            )))),
        !old(state).initial ==> final(state).scene_handle == old(state).scene_handle
            && *final(store) == *old(store),
    {
        let run_start = state.initial;
        if state.initial {
            store.stamp_original_ids();
            state.scene_handle = Some(snapshot);
        }
        state.playing = true;
        run_start
    }

/// Pressing pause only stops the tick loop from running scripts.
pub fn press_pause(state: &mut ControlState)
    ensures
        !final(state).playing,
        final(state).initial == old(state).initial,
        final(state).scene_handle == old(state).scene_handle,
{
    state.playing = false;
}

/// One script tick while playing: the first tick after a play leaves the
/// pristine flag cleared; a paused editor runs nothing and changes nothing.
pub fn tick_scripts(state: &mut ControlState) -> (ran: bool)
    ensures
        ran == old(state).playing,
        final(state).playing == old(state).playing,
        final(state).scene_handle == old(state).scene_handle,
        old(state).playing ==> !final(state).initial,
        !old(state).playing ==> final(state).initial == old(state).initial,
{
    if state.playing {
        if state.initial {
            state.initial = false;
        }
        true
    } else {
        false
    }
}

/// Pressing stop pauses the editor and requests the world reset.
pub fn press_stop(state: &mut ControlState) -> (reset: bool)
    ensures
        !final(state).playing,
        reset,
        final(state).initial == old(state).initial,
        final(state).scene_handle == old(state).scene_handle,
{
    state.playing = false;
    true
}

/// Applies the world reset: every entity the scripts spawned while playing
/// — those without an original-id stamp — is despawned, survivors whose
/// parent went away are detached, and the scene is pristine again.
pub fn apply_reset(state: &mut ControlState, store: &mut EntityStore)
    requires
        old(store).wf(),
    ensures
        final(store).wf(),
        final(state).initial,
        final(state).playing == old(state).playing,
        final(state).scene_handle == old(state).scene_handle,
        final(store).n() == old(store).n(),
        forall|i: int|
            0 <= i < old(store).n() ==> ((#[trigger] final(store).live_ix(i)) <==> (
            old(store).live_ix(i) && old(store).has_key_ix(
                i,
                crate::store::ORIGINAL_ID_KEY,
            ))),
{
    store.despawn_unstamped();
    state.initial = true;
}

/// Activates exactly the chosen camera: the matching entity becomes active
/// and every other camera is deactivated.
pub fn apply_change_camera(cameras: &mut Vec<(Entity, bool)>, target: Entity)
    ensures
        final(cameras)@.len() == old(cameras)@.len(),
        forall|i: int|
            0 <= i < old(cameras)@.len() ==> (#[trigger] final(cameras)@[i]) == (
            old(cameras)@[i].0,
            old(cameras)@[i].0 == target,
        ),
{
    let ghost s0 = cameras@;
    let n = cameras.len();
    let mut i: usize = 0;
    while i < n
        invariant
            i <= n,
            n == cameras@.len(),
            forall|j: int| i <= j < n ==> cameras@[j] == s0[j],
            forall|j: int|
                0 <= j < i ==> (#[trigger] cameras@[j]) == (s0[j].0, s0[j].0 == target),
        decreases n - i,
    {
        let e = cameras[i].0;
        cameras[i] = (e, e == target);
        i += 1;
    }
}

/// The collapsible-group label of a component: the part of its full type
/// name after the last path separator.
pub open spec fn spec_short_name(s: Seq<char>) -> Seq<char> {
    if exists|j: int| 0 <= j < s.len() && s[j] == ':' {
        let last = choose|last: int|
            0 <= last < s.len() && s[last] == ':' && (forall|j: int|
                last < j < s.len() ==> s[j] != ':');
        s.subrange(last + 1, s.len() as int)
    } else {
        s
    }
}

/// The short display name of a fully qualified component type name.
pub fn short_name(s: &str) -> (r: String)
    ensures
        r@ == spec_short_name(s@),
{
    let n = s.unicode_len();
    let mut cut: usize = 0;
    let mut found = false;
    let mut i: usize = 0;
    while i < n
        invariant
            i <= n,
            n == s@.len(),
            found ==> cut < i && s@[cut as int] == ':' && (forall|j: int|
                cut < j < i ==> s@[j] != ':'),
            !found ==> (forall|j: int| 0 <= j < i ==> s@[j] != ':') && cut == 0,
        decreases n - i,
    {
        if s.get_char(i) == ':' {
            cut = i;
            found = true;
        }
        i += 1;
    }
    if found {
        let r = s.substring_char(cut + 1, n);
        proof {
            let last = choose|last: int|
                0 <= last < s@.len() && s@[last] == ':' && (forall|j: int|
                    last < j < s@.len() ==> s@[j] != ':');
            assert(last == cut as int);
        }
        String::from_str(r)
    } else {
        proof {
            assert(forall|j: int| 0 <= j < s@.len() ==> s@[j] != ':');
        }
        String::from_str(s)
    }
}


/// One top-level component of the selected entity, as reflection hands it
/// to the inspector: its full type name and its current value.
#[derive(Debug)]
pub struct ComponentEntry {
    pub full_name: String,
    pub value: crate::inspect::ReflectValue,
}

/// The mathematical content of a component listing.
pub open spec fn comps_v(cs: Seq<ComponentEntry>) -> Seq<
    (Seq<char>, crate::inspect::ReflectView),
>
    decreases cs,
{
    if cs.len() == 0 {
        Seq::empty()
    } else {
        comps_v(cs.drop_last()).push((cs.last().full_name@, cs.last().value.view()))
    }
}

/// The length of a component listing's view.
pub proof fn lemma_comps_v_len(cs: Seq<ComponentEntry>)
    ensures
        comps_v(cs).len() == cs.len(),
    decreases cs.len(),
{
    if cs.len() > 0 {
        lemma_comps_v_len(cs.drop_last());
        assert(comps_v(cs) == comps_v(cs.drop_last()).push(
            (cs.last().full_name@, cs.last().value.view()),
        ));
    } else {
        assert(comps_v(cs) == Seq::<(Seq<char>, crate::inspect::ReflectView)>::empty());
    }
}

/// Each position of a component listing's view is the view of that position.
pub proof fn lemma_comps_v_index(cs: Seq<ComponentEntry>, j: int)
    requires
        0 <= j < cs.len(),
    ensures
        comps_v(cs).len() == cs.len(),
        comps_v(cs)[j] == (cs[j].full_name@, cs[j].value.view()),
    decreases cs.len(),
{
    lemma_comps_v_len(cs);
    lemma_comps_v_len(cs.drop_last());
    assert(comps_v(cs) == comps_v(cs.drop_last()).push(
        (cs.last().full_name@, cs.last().value.view()),
    ));
    if j < cs.len() - 1 {
        lemma_comps_v_index(cs.drop_last(), j);
        assert(cs.drop_last()[j] == cs[j]);
    } else {
        assert(cs.last() == cs[j]);
    }
}

/// Updating one component updates exactly that position of the view.
pub proof fn lemma_comps_v_update(cs: Seq<ComponentEntry>, j: int, x: ComponentEntry)
    requires
        0 <= j < cs.len(),
    ensures
        comps_v(cs.update(j, x)) == comps_v(cs).update(j, (x.full_name@, x.value.view())),
    decreases cs.len(),
{
    lemma_comps_v_len(cs);
    lemma_comps_v_len(cs.update(j, x));
    let t = cs.update(j, x);
    let xv = (x.full_name@, x.value.view());
    if j == cs.len() - 1 {
        assert(t.drop_last() =~= cs.drop_last());
        assert(t.last() == x);
        assert(comps_v(t) == comps_v(t.drop_last()).push(
            (t.last().full_name@, t.last().value.view()),
        ));
        assert(comps_v(cs) == comps_v(cs.drop_last()).push(
            (cs.last().full_name@, cs.last().value.view()),
        ));
        assert(comps_v(t) =~= comps_v(cs).update(j, xv));
    } else {
        assert(t.drop_last() =~= cs.drop_last().update(j, x));
        lemma_comps_v_update(cs.drop_last(), j, x);
        assert(t.last() == cs.last());
        assert(comps_v(t) == comps_v(t.drop_last()).push(
            (t.last().full_name@, t.last().value.view()),
        ));
        assert(comps_v(cs) == comps_v(cs.drop_last()).push(
            (cs.last().full_name@, cs.last().value.view()),
        ));
        assert(comps_v(t) =~= comps_v(cs).update(j, xv));
    }
}

/// The inspector panel's pass over the first `k` components of the selected
/// entity: each is walked with its pending group label set to the short
/// form of its type name, at its own positional path — so each top-level
/// component renders exactly one collapsing group.
pub open spec fn spec_inspect(
    reg: crate::inspect::InspectRegistry,
    comps: Seq<(Seq<char>, crate::inspect::ReflectView)>,
    k: int,
    edits: Seq<crate::inspect::EditView>,
    assets: Map<(Seq<char>, u64), crate::assets::AssetValueView>,
) -> (
    Seq<(Seq<char>, crate::inspect::ReflectView)>,
    Map<(Seq<char>, u64), crate::assets::AssetValueView>,
    Seq<crate::inspect::RenderOpView>,
)
    decreases k,
{
    if k <= 0 || k > comps.len() {
        (comps, assets, Seq::empty())
    } else {
        let pre = spec_inspect(reg, comps, k - 1, edits, assets);
        let w = crate::inspect::spec_walk(
            reg,
            comps[k - 1].1,
            Some(spec_short_name(comps[k - 1].0)),
            edits,
            Seq::empty().push((k - 1) as usize),
            pre.1,
        );
        (pre.0.update(k - 1, (comps[k - 1].0, w.value)), w.assets, pre.2 + w.log)
    }
}

/// Walks every component of the selected entity for one frame, as the
/// inspector panel does, collapsible group per component.
pub fn inspect_components(
    reg: &crate::inspect::InspectRegistry,
    comps: Vec<ComponentEntry>,
    edits: &Vec<crate::inspect::Edit>,
    assets: &mut crate::assets::AssetTable,
    log: &mut Vec<crate::inspect::RenderOp>,
) -> (r: Vec<ComponentEntry>)
    ensures
        ({
            let f = spec_inspect(
                *reg,
                comps_v(comps@),
                comps@.len() as int,
                crate::inspect::edits_view(edits@),
                old(assets)@,
            );
            &&& comps_v(r@) == f.0
            &&& final(assets)@ == f.1
            &&& crate::inspect::log_view(final(log)@) == crate::inspect::log_view(old(log)@) + f.2
        }),
{
    let ghost c0 = comps@;
    let ghost ev = crate::inspect::edits_view(edits@);
    let n = comps.len();
    let mut cs = comps;
    let mut i: usize = 0;
    proof {
        lemma_comps_v_len(c0);
        assert(crate::inspect::log_view(log@) =~= crate::inspect::log_view(log@) + Seq::<
            crate::inspect::RenderOpView,
        >::empty());
    }
    while i < n
        invariant
            i <= n,
            n == cs@.len(),
            n == c0.len(),
            ev == crate::inspect::edits_view(edits@),
            forall|j: int| i <= j < n ==> cs@[j] == c0[j],
            ({
                let f = spec_inspect(*reg, comps_v(c0), i as int, ev, old(assets)@);
                &&& comps_v(cs@) == f.0
                &&& assets@ == f.1
                &&& crate::inspect::log_view(log@) == crate::inspect::log_view(old(log)@) + f.2
            }),
        decreases n - i,
    {
        let ghost cs_pre = cs@;
        let ghost fpre = spec_inspect(*reg, comps_v(c0), i as int, ev, old(assets)@);
        proof {
            lemma_comps_v_len(c0);
            lemma_comps_v_len(cs@);
            lemma_comps_v_index(c0, i as int);
            lemma_comps_v_index(cs@, i as int);
            assert(cs_pre[i as int] == c0[i as int]);
        }
        let label = short_name(cs[i].full_name.as_str());
        let mut value = crate::inspect::ReflectValue::MapValue(0);
        let vslot = &mut cs[i].value;
        core::mem::swap(&mut value, vslot);
        proof {
            assert(value == c0[i as int].value);
            assert(value@ == comps_v(c0)[i as int].1);
        }
        let mut path: Vec<usize> = Vec::new();
        path.push(i);
        proof {
            assert(path@ =~= Seq::<usize>::empty().push(i));
        }
        let mut ctx = crate::inspect::WalkContext { collapsible: Some(label) };
        let ghost a2 = assets@;
        let walked = reg.exec_reflect(value, &mut ctx, edits, &path, assets, log);
        let ghost w = crate::inspect::spec_walk(
            *reg,
            comps_v(c0)[i as int].1,
            Some(spec_short_name(comps_v(c0)[i as int].0)),
            ev,
            Seq::empty().push(i),
            fpre.1,
        );
        cs[i].value = walked;
        i += 1;
        proof {
            let f = spec_inspect(*reg, comps_v(c0), i as int, ev, old(assets)@);
            assert(a2 == fpre.1);
            assert(walked@ == w.value);
            assert(cs@ =~= cs_pre.update(
                i - 1,
                ComponentEntry { full_name: cs_pre[i - 1].full_name, value: walked },
            ));
            lemma_comps_v_update(
                cs_pre,
                i - 1,
                ComponentEntry { full_name: cs_pre[i - 1].full_name, value: walked },
            );
            assert(comps_v(cs_pre) == fpre.0);
            assert(comps_v(cs@) =~= fpre.0.update(
                i - 1,
                (comps_v(c0)[i - 1].0, w.value),
            ));
            assert(comps_v(cs@) =~= f.0);
            assert(f.2 =~= fpre.2 + w.log);
            assert(crate::inspect::log_view(log@) =~= crate::inspect::log_view(old(log)@) + f.2);
        }
    }
    cs
}

} // verus!
