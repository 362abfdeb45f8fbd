use vstd::prelude::*;
use crate::assets::str_eq;
use crate::error::{EResult, Error};

verus! {

/// A project's identity in the existing-projects registry: its display name
/// and its directory path.
#[derive(Debug)]
pub struct ProjectDescription {
    pub name: String,
    pub path: String,
}

impl ProjectDescription {
    pub fn duplicate(&self) -> (r: ProjectDescription)
        ensures
            r.name@ == self.name@,
            r.path@ == self.path@,
    {
        ProjectDescription { name: self.name.clone(), path: self.path.clone() }
    }

    pub fn same_as(&self, other: &ProjectDescription) -> (r: bool)
        ensures
            r == (self.name@ == other.name@ && self.path@ == other.path@),
    {
        str_eq(self.name.as_str(), other.name.as_str()) && str_eq(
            self.path.as_str(),
            other.path.as_str(),
        )
    }
}

/// The project's persisted settings, as `project.bv` holds them.
#[derive(Debug)]
pub struct ProjectState {
    pub scene_file: String,
    pub asset_file: String,
    pub assets_folder: String,
    pub script_enabled: bool,
}

impl Default for ProjectState {
    /// A fresh project points at the template scene and asset files, with
    /// scripting off.
    fn default() -> (r: ProjectState)
        ensures
            r.scene_file@ == "initial.scn.ron"@,
            r.asset_file@ == "initial.asset.ron"@,
            r.assets_folder@ == "assets"@,
            !r.script_enabled,
    {
        ProjectState {
            scene_file: String::from_str("initial.scn.ron"),
            asset_file: String::from_str("initial.asset.ron"),
            assets_folder: String::from_str("assets"),
            script_enabled: false,
        }
    }
}

/// One open project: its identity plus its persisted settings.
#[derive(Debug)]
pub struct Project {
    pub project_description: ProjectDescription,
    pub project_state: ProjectState,
}

/// What the file system reports about a probed path: whether it exists,
/// whether it is a directory, whether its listing can be read, and whether
/// that listing is empty.
#[derive(Debug, Clone, Copy, PartialEq, Eq, Structural)]
pub struct PathProbe {
    pub exists: bool,
    pub is_dir: bool,
    pub readable: bool,
    pub empty: bool,
}

impl Project {
    /// Accepts a location for a new project: an existing path must be a
    /// readable, empty directory; a missing path is accepted and must be
    /// created (the returned flag). Errors name the first failing check.
    pub fn verify_new(probe: &PathProbe) -> (r: EResult<bool>)
        ensures
            (r is Ok) <==> (!probe.exists || (probe.is_dir && probe.readable && probe.empty)),
            r matches Ok(create) ==> create == !probe.exists,
            probe.exists && !probe.is_dir ==> (r matches Err(e) && e.code@
                == "PROJECT::BUILD::PATH_NOT_DIR"@),
            probe.exists && probe.is_dir && !probe.readable ==> (r matches Err(e) && e.code@
                == "PROJECT::BUILD::CANNOT_READ_DIR"@),
            probe.exists && probe.is_dir && probe.readable && !probe.empty ==> (r matches Err(e)
                && e.code@ == "PROJECT::BUILD::DIR_NOT_EMPTY"@),
    {
        if probe.exists {
            if !probe.is_dir {
                Err(Error::new("PROJECT::BUILD::PATH_NOT_DIR"))
            } else if !probe.readable {
                Err(Error::new("PROJECT::BUILD::CANNOT_READ_DIR"))
            } else if !probe.empty {
                Err(Error::new("PROJECT::BUILD::DIR_NOT_EMPTY"))
            } else {
                Ok(false)
            }
        } else {
            Ok(true)
        }
    }

    /// Accepts a location for an existing project: the path must exist and
    /// be a readable directory. Errors name the first failing check.
    pub fn verify_existing(probe: &PathProbe) -> (r: EResult<()>)
        ensures
            (r is Ok) <==> (probe.exists && probe.is_dir && probe.readable),
            !probe.exists ==> (r matches Err(e) && e.code@
                == "PROJECT::BUILD::PATH_DOES_NOT_EXIST"@),
            probe.exists && !probe.is_dir ==> (r matches Err(e) && e.code@
                == "PROJECT::BUILD::PATH_NOT_DIR"@),
            probe.exists && probe.is_dir && !probe.readable ==> (r matches Err(e) && e.code@
                == "PROJECT::BUILD::CANNOT_READ_DIR"@),
    {
        if probe.exists {
            if !probe.is_dir {
                Err(Error::new("PROJECT::BUILD::PATH_NOT_DIR"))
            } else if !probe.readable {
                Err(Error::new("PROJECT::BUILD::CANNOT_READ_DIR"))
            } else {
                Ok(())
            }
        } else {
            Err(Error::new("PROJECT::BUILD::PATH_DOES_NOT_EXIST"))
        }
    }

    /// The error policy of loading a project, over what the surrounding
    /// file work reported: location checks come first, then the project
    /// file read, then its deserialization; success is owed exactly when
    /// all three succeed.
    pub fn load_gate(probe: &PathProbe, read_ok: bool, parse_ok: bool) -> (r: EResult<()>)
        ensures
            (r is Ok) <==> (probe.exists && probe.is_dir && probe.readable && read_ok && parse_ok),
            !(probe.exists && probe.is_dir && probe.readable) ==> (r matches Err(e) && e.code@
                == "PROJECT::LOAD::VERIFY_FAILED"@),
            (probe.exists && probe.is_dir && probe.readable) && !read_ok ==> (r matches Err(e)
                && e.code@ == "PROJECT::LOAD::CANNOT_READ_PROJECT_FILE"@),
            (probe.exists && probe.is_dir && probe.readable) && read_ok && !parse_ok ==> (
            r matches Err(e) && e.code@ == "PROJECT::LOAD::CANNOT_DESERIALIZE_PROJECT"@),
    {
        match Project::verify_existing(probe) {
            Err(e) => Err(
                Error::new_with_details("PROJECT::LOAD::VERIFY_FAILED", e.code.as_str()),
            ),
            Ok(()) => {
                if !read_ok {
                    Err(Error::new("PROJECT::LOAD::CANNOT_READ_PROJECT_FILE"))
                } else if !parse_ok {
                    Err(Error::new("PROJECT::LOAD::CANNOT_DESERIALIZE_PROJECT"))
                } else {
                    Ok(())
                }
            },
        }
    }

    /// The error policy of generating a project, over what the surrounding
    /// file work reported: the location check comes first, then serializing
    /// the descriptor, then copying the template tree, then writing the
    /// project file; success is owed exactly when every step succeeds.
    pub fn generate_gate(
        probe: &PathProbe,
        serialize_ok: bool,
        copy_ok: bool,
        write_ok: bool,
    ) -> (r: EResult<()>)
        ensures
            (r is Ok) <==> ((!probe.exists || (probe.is_dir && probe.readable && probe.empty))
                && serialize_ok && copy_ok && write_ok),
            !(!probe.exists || (probe.is_dir && probe.readable && probe.empty)) ==> (
            r matches Err(e) && e.code@ == "PROJECT::GENERATE::VERIFY_FAILED"@),
            (!probe.exists || (probe.is_dir && probe.readable && probe.empty)) && !serialize_ok
                ==> (r matches Err(e) && e.code@
                == "PROJECT::BUILD::CANNOT_SERIALIZE_PROJECT"@),
            (!probe.exists || (probe.is_dir && probe.readable && probe.empty)) && serialize_ok
                && !copy_ok ==> (r matches Err(e) && e.code@
                == "PROJECT::BUILD::CANNOT_COPY_TEMPLATE"@),
            (!probe.exists || (probe.is_dir && probe.readable && probe.empty)) && serialize_ok
                && copy_ok && !write_ok ==> (r matches Err(e) && e.code@
                == "PROJECT::BUILD::CANNOT_WRITE_TO_PROJECT_FILE"@),
    {
        match Project::verify_new(probe) {
            Err(e) => Err(
                Error::new_with_details("PROJECT::GENERATE::VERIFY_FAILED", e.code.as_str()),
            ),
            Ok(_) => {
                if !serialize_ok {
                    Err(Error::new("PROJECT::BUILD::CANNOT_SERIALIZE_PROJECT"))
                } else if !copy_ok {
                    Err(Error::new("PROJECT::BUILD::CANNOT_COPY_TEMPLATE"))
                } else if !write_ok {
                    Err(Error::new("PROJECT::BUILD::CANNOT_WRITE_TO_PROJECT_FILE"))
                } else {
                    Ok(())
                }
            },
        }
    }
}

/// Whether a registry listing holds a project with this name and path.
pub open spec fn has_desc(s: Seq<ProjectDescription>, name: Seq<char>, path: Seq<char>) -> bool {
    exists|j: int| 0 <= j < s.len() && s[j].name@ == name && s[j].path@ == path
}

/// The registry of known projects, persisted under the editor's storage
/// directory and rewritten on every add or remove.
#[derive(Debug)]
pub struct ExistingProjects(pub Vec<ProjectDescription>);

impl ExistingProjects {
    /// No project is listed twice.
    pub open spec fn wf(self) -> bool {
        forall|i: int, j: int|
            0 <= i < j < self.0@.len() ==> !((#[trigger] self.0@[i]).name@ == (
            #[trigger] self.0@[j]).name@ && self.0@[i].path@ == self.0@[j].path@)
    }

    pub fn new() -> (r: ExistingProjects)
        ensures
            r.wf(),
            r.0@.len() == 0,
    {
        ExistingProjects(Vec::new())
    }

    /// Records a project, with set semantics: adding a listed project
    /// changes nothing.
    pub fn add(&mut self, project: ProjectDescription)
        requires
            old(self).wf(),
        ensures
            final(self).wf(),
            forall|n: Seq<char>, p: Seq<char>|
                has_desc(final(self).0@, n, p) <==> (has_desc(old(self).0@, n, p) || (n
                    == project.name@ && p == project.path@)),
    {
        let ghost key_n = project.name@;
        let ghost key_p = project.path@;
        let ghost sfix = self.0@;
        let n = self.0.len();
        let mut i: usize = 0;
        while i < n
            invariant
                i <= n,
                n == self.0@.len(),
                self.0@ == sfix,
                sfix == old(self).0@,
                old(self).wf(),
                key_n == project.name@,
                key_p == project.path@,
                forall|j: int|
                    0 <= j < i ==> !((#[trigger] self.0@[j]).name@ == key_n && self.0@[j].path@
                        == key_p),
            decreases n - i,
        {
            if self.0[i].same_as(&project) {
                proof {
                    assert(has_desc(self.0@, key_n, key_p)) by {
                        assert(self.0@[i as int].name@ == key_n && self.0@[i as int].path@
                            == key_p);
                    }
                }
                return ;
            }
            i += 1;
        }
        let ghost s0 = self.0@;
        self.0.push(project);
        proof {
            assert forall|nn: Seq<char>, pp: Seq<char>|
                has_desc(self.0@, nn, pp) <==> (has_desc(s0, nn, pp) || (nn == key_n && pp
                    == key_p)) by {
                if has_desc(self.0@, nn, pp) {
                    let j = choose|j: int|
                        0 <= j < self.0@.len() && self.0@[j].name@ == nn && self.0@[j].path@ == pp;
                    if j < s0.len() {
                        assert(has_desc(s0, nn, pp)) by {
                            assert(s0[j].name@ == nn && s0[j].path@ == pp);
                        }
                    }
                }
                if has_desc(s0, nn, pp) {
                    let j = choose|j: int|
                        0 <= j < s0.len() && s0[j].name@ == nn && s0[j].path@ == pp;
                    assert(has_desc(self.0@, nn, pp)) by {
                        assert(self.0@[j].name@ == nn && self.0@[j].path@ == pp);
                    }
                }
                if nn == key_n && pp == key_p {
                    assert(has_desc(self.0@, nn, pp)) by {
                        assert(self.0@.last().name@ == nn && self.0@.last().path@ == pp);
                    }
                }
            }
        }
    }

    /// Unrecords a project, with set semantics.
    pub fn remove(&mut self, project: &ProjectDescription)
        requires
            old(self).wf(),
        ensures
            final(self).wf(),
            forall|n: Seq<char>, p: Seq<char>|
                has_desc(final(self).0@, n, p) <==> (has_desc(old(self).0@, n, p) && !(n
                    == project.name@ && p == project.path@)),
    {
        let ghost key_n = project.name@;
        let ghost key_p = project.path@;
        let ghost s0 = self.0@;
        let n = self.0.len();
        let mut out: Vec<ProjectDescription> = Vec::new();
        let mut i: usize = 0;
        while i < n
            invariant
                i <= n,
                n == self.0@.len(),
                self.0@ == s0,
                key_n == project.name@,
                key_p == project.path@,
                forall|nn: Seq<char>, pp: Seq<char>|
                    has_desc(out@, nn, pp) <==> (has_desc(s0.subrange(0, i as int), nn, pp) && !(nn
                        == key_n && pp == key_p)),
                forall|a: int, b: int|
                    0 <= a < b < out@.len() ==> !((#[trigger] out@[a]).name@ == (
                    #[trigger] out@[b]).name@ && out@[a].path@ == out@[b].path@),
                forall|a: int, b: int|
                    0 <= a < b < n ==> !((#[trigger] s0[a]).name@ == (#[trigger] s0[b]).name@
                        && s0[a].path@ == s0[b].path@),
            decreases n - i,
        {
            let ghost pre = s0.subrange(0, i as int);
            let ghost cur = s0.subrange(0, i as int + 1);
            let ghost out0 = out@;
            let keep = !self.0[i].same_as(project);
            if keep {
                out.push(self.0[i].duplicate());
            }
            i += 1;
            proof {
                assert(cur.drop_last() =~= pre);
                assert(cur.last() == s0[i - 1]);
                assert forall|nn: Seq<char>, pp: Seq<char>|
                    has_desc(out@, nn, pp) <==> (has_desc(cur, nn, pp) && !(nn == key_n && pp
                        == key_p)) by {
                    if has_desc(out@, nn, pp) {
                        let j = choose|j: int|
                            0 <= j < out@.len() && out@[j].name@ == nn && out@[j].path@ == pp;
                        if j < out0.len() {
                            assert(has_desc(out0, nn, pp)) by {
                                assert(out0[j].name@ == nn && out0[j].path@ == pp);
                            }
                            assert(has_desc(pre, nn, pp));
                            let m = choose|m: int|
                                0 <= m < pre.len() && pre[m].name@ == nn && pre[m].path@ == pp;
                            assert(has_desc(cur, nn, pp)) by {
                                assert(cur[m].name@ == nn && cur[m].path@ == pp);
                            }
                        } else {
                            assert(out@[j].name@ == s0[i - 1].name@ && out@[j].path@ == s0[i
                                - 1].path@);
                            assert(has_desc(cur, nn, pp)) by {
                                assert(cur[i - 1].name@ == nn && cur[i - 1].path@ == pp);
                            }
                        }
                    }
                    if has_desc(cur, nn, pp) && !(nn == key_n && pp == key_p) {
                        let j = choose|j: int|
                            0 <= j < cur.len() && cur[j].name@ == nn && cur[j].path@ == pp;
                        if j < pre.len() {
                            assert(has_desc(pre, nn, pp)) by {
                                assert(pre[j].name@ == nn && pre[j].path@ == pp);
                            }
                            assert(has_desc(out0, nn, pp));
                            let m = choose|m: int|
                                0 <= m < out0.len() && out0[m].name@ == nn && out0[m].path@ == pp;
                            assert(has_desc(out@, nn, pp)) by {
                                assert(out@[m].name@ == nn && out@[m].path@ == pp);
                            }
                        } else {
                            assert(s0[i - 1].name@ == nn && s0[i - 1].path@ == pp);
                            assert(keep);
                            assert(has_desc(out@, nn, pp)) by {
                                assert(out@.last().name@ == nn && out@.last().path@ == pp);
                            }
                        }
                    }
                }
                assert forall|a: int, b: int|
                    0 <= a < b < out@.len() implies !((#[trigger] out@[a]).name@ == (
                #[trigger] out@[b]).name@ && out@[a].path@ == out@[b].path@) by {
                    if b < out0.len() {
                    } else if keep && b == out@.len() - 1 && out@.len() > out0.len() {
                        assert(out@[b].name@ == s0[i - 1].name@ && out@[b].path@ == s0[i
                            - 1].path@);
                        assert(has_desc(out0, out@[a].name@, out@[a].path@)) by {
                            assert(out0[a].name@ == out@[a].name@ && out0[a].path@
                                == out@[a].path@);
                        }
                        assert(has_desc(pre, out@[a].name@, out@[a].path@));
                        let m = choose|m: int|
                            0 <= m < pre.len() && pre[m].name@ == out@[a].name@ && pre[m].path@
                                == out@[a].path@;
                        assert(s0[m].name@ == out@[a].name@ && s0[m].path@ == out@[a].path@);
                        if s0[m].name@ == s0[i - 1].name@ && s0[m].path@ == s0[i - 1].path@ {
                            assert(false);
                        }
                    }
                }
            }
        }
        proof {
            assert(s0.subrange(0, s0.len() as int) =~= s0);
        }
        self.0 = out;
    }

    /// The error policy of loading the registry at startup: a missing file
    /// yields the empty registry, a failed read or parse names itself.
    pub fn load_gate(file_exists: bool, read_ok: bool, parse_ok: bool) -> (r: EResult<bool>)
        ensures
            !file_exists ==> (r matches Ok(fresh) && fresh),
            file_exists && !read_ok ==> (r matches Err(e) && e.code@
                == "PROJECT::LOAD_EXISTING::CANNOT_READ_FILE"@),
            file_exists && read_ok && !parse_ok ==> (r matches Err(e) && e.code@
                == "PROJECT::LOAD_EXISTING::CANNOT_PARSE"@),
            file_exists && read_ok && parse_ok ==> (r matches Ok(fresh) && !fresh),
    {
        if !file_exists {
            Ok(true)
        } else if !read_ok {
            Err(Error::new("PROJECT::LOAD_EXISTING::CANNOT_READ_FILE"))
        } else if !parse_ok {
            Err(Error::new("PROJECT::LOAD_EXISTING::CANNOT_PARSE"))
        } else {
            Ok(false)
        }
    }

    /// The error policy of rewriting the registry: storage directory checks
    /// come first, then serialization, then the write; success is owed
    /// exactly when every step succeeds.
    pub fn save_gate(
        probe: &PathProbe,
        create_ok: bool,
        serialize_ok: bool,
        write_ok: bool,
    ) -> (r: EResult<()>)
        ensures
            probe.exists && !probe.is_dir ==> (r matches Err(e) && e.code@
                == "PROJECT::SAVE_EXISTING::PATH_NOT_DIR"@),
            probe.exists && probe.is_dir && !probe.readable ==> (r matches Err(e) && e.code@
                == "PROJECT::SAVE_EXISTING::CANNOT_READ_DIR"@),
            !probe.exists && !create_ok ==> (r matches Err(e) && e.code@
                == "PROJECT::SAVE_EXISTING::CANNOT_CREATE_DIR"@),
            ((probe.exists && probe.is_dir && probe.readable) || (!probe.exists && create_ok))
                && !serialize_ok ==> (r matches Err(e) && e.code@
                == "PROJECT::SAVE_EXISTING::CANNOT_SERIALIZE"@),
            ((probe.exists && probe.is_dir && probe.readable) || (!probe.exists && create_ok))
                && serialize_ok && !write_ok ==> (r matches Err(e) && e.code@
                == "PROJECT::SAVE_EXISTING::CANNOT_WRITE_TO_PROJECT_FILE"@),
            (r is Ok) <==> (((probe.exists && probe.is_dir && probe.readable) || (!probe.exists
                && create_ok)) && serialize_ok && write_ok),
    {
        if probe.exists {
            if !probe.is_dir {
                return Err(Error::new("PROJECT::SAVE_EXISTING::PATH_NOT_DIR"));
            }
            if !probe.readable {
                return Err(Error::new("PROJECT::SAVE_EXISTING::CANNOT_READ_DIR"));
            }
        } else if !create_ok {
            return Err(Error::new("PROJECT::SAVE_EXISTING::CANNOT_CREATE_DIR"));
        }
        if !serialize_ok {
            Err(Error::new("PROJECT::SAVE_EXISTING::CANNOT_SERIALIZE"))
        } else if !write_ok {
            Err(Error::new("PROJECT::SAVE_EXISTING::CANNOT_WRITE_TO_PROJECT_FILE"))
        } else {
            Ok(())
        }
    }
}

} // verus!
