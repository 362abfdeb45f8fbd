use vstd::prelude::*;
use crate::assets::str_eq;
use crate::load::{spec_script_complete, LoadProjectProgress};

verus! {

/// One loaded script build: the generation id of its still-mapped dynamic
/// library and the timestamped path the library file was copied to.
#[derive(Debug)]
pub struct LoadedScript {
    pub library: u64,
    pub lib_path: String,
}

/// The active script of one project scripts folder.
#[derive(Debug)]
pub struct ScriptEntry {
    pub folder_path: String,
    pub state: LoadedScript,
}

/// The hot-reload registry: in-flight builds by folder path, the active
/// script per folder path, and the retired scripts whose libraries must
/// stay mapped until the user explicitly clears them.
#[derive(Debug)]
pub struct ScriptableRegistry {
    pub compiling: Vec<String>,
    pub impls: Vec<ScriptEntry>,
    pub old_impls: Vec<LoadedScript>,
}

/// Whether a path listing holds `key`.
pub open spec fn contains_path(s: Seq<String>, key: Seq<char>) -> bool {
    exists|j: int| 0 <= j < s.len() && s[j]@ == key
}

/// Whether an entry listing holds a script for `key`.
pub open spec fn has_script(s: Seq<ScriptEntry>, key: Seq<char>) -> bool {
    exists|j: int| 0 <= j < s.len() && s[j].folder_path@ == key
}

impl ScriptableRegistry {
    /// At most one active script per folder path.
    pub open spec fn wf(self) -> bool {
        forall|i: int, j: int|
            0 <= i < j < self.impls@.len() ==> (#[trigger] self.impls@[i]).folder_path@ != (
            #[trigger] self.impls@[j]).folder_path@
    }

    pub fn new() -> (r: ScriptableRegistry)
        ensures
            r.wf(),
            r.compiling@.len() == 0,
            r.impls@.len() == 0,
            r.old_impls@.len() == 0,
    {
        ScriptableRegistry { compiling: Vec::new(), impls: Vec::new(), old_impls: Vec::new() }
    }

    /// Records the start of an async build for the folder. A second request
    /// for a folder already building replaces the tracked task, whose late
    /// result the consumer treats as stale.
    pub fn begin_load(&mut self, folder_path: String)
        requires
            old(self).wf(),
        ensures
            final(self).wf(),
            forall|k: Seq<char>|
                contains_path(final(self).compiling@, k) <==> (
                contains_path(old(self).compiling@, k) || k == folder_path@),
            final(self).impls == old(self).impls,
            final(self).old_impls == old(self).old_impls,
    {
        let ghost key = folder_path@;
        remove_path(&mut self.compiling, folder_path.as_str());
        let ghost mid = self.compiling@;
        self.compiling.push(folder_path);
        proof {
            assert forall|k: Seq<char>|
                contains_path(self.compiling@, k) <==> (contains_path(old(self).compiling@, k) || k
                    == key) by {
                if contains_path(self.compiling@, k) {
                    let j = choose|j: int|
                        0 <= j < self.compiling@.len() && self.compiling@[j]@ == k;
                    if j < mid.len() {
                        assert(contains_path(mid, k)) by {
                            assert(mid[j]@ == k);
                        }
                    } else {
                        assert(k == key);
                    }
                }
                if contains_path(old(self).compiling@, k) && k != key {
                    assert(contains_path(mid, k));
                    let j2 = choose|j2: int| 0 <= j2 < mid.len() && mid[j2]@ == k;
                    assert(contains_path(self.compiling@, k)) by {
                        assert(self.compiling@[j2]@ == k);
                    }
                }
                if k == key {
                    assert(contains_path(self.compiling@, k)) by {
                        assert(self.compiling@.last()@ == key);
                    }
                }
            }
        }
    }

    /// Installs a completed build: the folder's in-flight marker goes away,
    /// the new script becomes the folder's active one, and any previous
    /// script for the same folder is retained — moved to the retired list,
    /// never dropped, because its library may still be referenced. A pending
    /// script stage of the load machine advances.
    pub fn install(
        &mut self,
        folder_path: String,
        library: u64,
        lib_path: String,
        progress: &mut LoadProjectProgress,
    )
        requires
            old(self).wf(),
        ensures
            final(self).wf(),
            has_script(final(self).impls@, folder_path@),
            forall|j: int|
                0 <= j < final(self).impls@.len() && (#[trigger] final(self).impls@[j]).folder_path@
                    == folder_path@ ==> final(self).impls@[j].state.library == library
                    && final(self).impls@[j].state.lib_path@ == lib_path@,
            forall|j: int|
                0 <= j < final(self).impls@.len() && (#[trigger] final(self).impls@[j]).folder_path@
                    != folder_path@ ==> old(self).impls@.contains(final(self).impls@[j]),
            forall|j: int|
                0 <= j < old(self).impls@.len() && (#[trigger] old(self).impls@[j]).folder_path@
                    != folder_path@ ==> final(self).impls@.contains(old(self).impls@[j]),
            forall|k: Seq<char>|
                contains_path(final(self).compiling@, k) <==> (
                contains_path(old(self).compiling@, k) && k != folder_path@),
            has_script(old(self).impls@, folder_path@) ==> final(self).old_impls@.len()
                == old(self).old_impls@.len() + 1 && (exists|j: int|
                0 <= j < old(self).impls@.len() && (#[trigger] old(self).impls@[j]).folder_path@
                    == folder_path@ && final(self).old_impls@.last() == old(self).impls@[j].state),
            !has_script(old(self).impls@, folder_path@) ==> final(self).old_impls@
                == old(self).old_impls@,
            forall|i: int|
                0 <= i < old(self).old_impls@.len() ==> final(self).old_impls@[i]
                    == old(self).old_impls@[i],
            final(progress).0 == spec_script_complete(old(progress).0),
    {
        let ghost key = folder_path@;
        remove_path(&mut self.compiling, folder_path.as_str());
        let mut olds: Vec<ScriptEntry> = Vec::new();
        core::mem::swap(&mut olds, &mut self.impls);
        let ghost olds0 = olds@;
        let n = olds.len();
        let mut kept: Vec<ScriptEntry> = Vec::new();
        let mut retired: Option<LoadedScript> = None;
        let mut i: usize = 0;
        while i < n
            invariant
                i <= n,
                n == olds@.len(),
                n == olds0.len(),
                key == folder_path@,
                forall|j: int| i <= j < n ==> olds@[j] == olds0[j],
                forall|j: int| 0 <= j < kept@.len() ==> olds0.contains(#[trigger] kept@[j]),
                forall|j: int|
                    0 <= j < kept@.len() ==> (#[trigger] kept@[j]).folder_path@ != key,
                forall|j: int|
                    0 <= j < i && (#[trigger] olds0[j]).folder_path@ != key ==> kept@.contains(
                        olds0[j],
                    ),
                (retired is Some) <==> (exists|j: int|
                    0 <= j < i && (#[trigger] olds0[j]).folder_path@ == key),
                retired matches Some(st) ==> (exists|j: int|
                    0 <= j < i && (#[trigger] olds0[j]).folder_path@ == key && st
                        == olds0[j].state),
                forall|a: int, b: int|
                    0 <= a < b < kept@.len() ==> (#[trigger] kept@[a]).folder_path@ != (
                    #[trigger] kept@[b]).folder_path@,
                forall|a: int, b: int|
                    0 <= a < b < n ==> (#[trigger] olds0[a]).folder_path@ != (
                    #[trigger] olds0[b]).folder_path@,
                forall|m: int, j: int|
                    0 <= m < kept@.len() && i <= j < n ==> (#[trigger] kept@[m]).folder_path@ != (
                    #[trigger] olds0[j]).folder_path@,
            decreases n - i,
        {
            let mut entry = ScriptEntry {
                folder_path: String::new(),
                state: LoadedScript { library: 0, lib_path: String::new() },
            };
            let eslot = &mut olds[i];
            core::mem::swap(&mut entry, eslot);
            proof {
                assert(entry == olds0[i as int]);
            }
            let ghost kept0 = kept@;
            if str_eq(entry.folder_path.as_str(), folder_path.as_str()) {
                proof {
                    assert(entry.folder_path@ == folder_path@);
                    assert(entry == olds0[i as int]);
                    assert(olds0[i as int].folder_path@ == key);
                }
                retired = Some(entry.state);
            } else {
                kept.push(entry);
                proof {
                    assert forall|j: int|
                        0 <= j < i + 1 && (#[trigger] olds0[j]).folder_path@ != key
                        implies kept@.contains(olds0[j]) by {
                        if j < i {
                            assert(kept0.contains(olds0[j]));
                            let m = choose|m: int| 0 <= m < kept0.len() && kept0[m] == olds0[j];
                            assert(kept@[m] == olds0[j]);
                        } else {
                            assert(kept@.last() == olds0[j]);
                        }
                    }
                    assert forall|j: int|
                        0 <= j < kept@.len() implies olds0.contains(#[trigger] kept@[j]) by {
                        if j < kept0.len() {
                            assert(kept0.contains(kept@[j]));
                        } else {
                            assert(kept@[j] == olds0[i as int]);
                        }
                    }
                }
            }
            i += 1;
        }
        let ghost kept0b = kept@;
        self.impls = kept;
        self.impls.push(ScriptEntry { folder_path, state: LoadedScript { library, lib_path } });
        if let Some(st) = retired {
            self.old_impls.push(st);
        }
        crate::load::script_load_complete(progress);
        proof {
            assert(self.impls@.last().folder_path@ == key);
            assert(has_script(self.impls@, key));
            assert forall|j: int|
                0 <= j < self.impls@.len() && (#[trigger] self.impls@[j]).folder_path@ != key
                implies old(self).impls@.contains(self.impls@[j]) by {
                assert(j < self.impls@.len() - 1);
                assert(olds0.contains(self.impls@[j]));
            }
            assert forall|j: int|
                0 <= j < old(self).impls@.len() && (#[trigger] old(self).impls@[j]).folder_path@
                    != key implies self.impls@.contains(old(self).impls@[j]) by {
                assert(self.impls@.drop_last() =~= kept0b);
                assert(kept0b.contains(olds0[j]));
                let m = choose|m: int| 0 <= m < kept0b.len() && kept0b[m] == olds0[j];
                assert(self.impls@[m] == olds0[j]);
            }
        }
    }

    /// Releases the retired scripts, as the explicit clear action does.
    pub fn clear_retired(&mut self)
        requires
            old(self).wf(),
        ensures
            final(self).wf(),
            final(self).old_impls@.len() == 0,
            final(self).impls == old(self).impls,
            final(self).compiling == old(self).compiling,
    {
        self.old_impls.clear();
    }
}

/// Removes every occurrence of `key` from a path listing.
fn remove_path(v: &mut Vec<String>, key: &str)
    ensures
        forall|k: Seq<char>|
            contains_path(final(v)@, k) <==> (contains_path(old(v)@, k) && k != key@),
{
    let ghost s0 = v@;
    let n = v.len();
    let mut out: Vec<String> = Vec::new();
    let mut i: usize = 0;
    while i < n
        invariant
            i <= n,
            n == v@.len(),
            v@ == s0,
            forall|k: Seq<char>|
                contains_path(out@, k) <==> (contains_path(s0.subrange(0, i as int), k) && k
                    != key@),
        decreases n - i,
    {
        let ghost pre = s0.subrange(0, i as int);
        let ghost cur = s0.subrange(0, i as int + 1);
        let ghost out0 = out@;
        let keep = !str_eq(v[i].as_str(), key);
        if keep {
            out.push(v[i].clone());
        }
        i += 1;
        proof {
            assert(cur.drop_last() =~= pre);
            assert(cur.last() == s0[i - 1]);
            assert forall|k: Seq<char>| contains_path(out@, k) implies (contains_path(cur, k) && k
                != key@) by {
                let j = choose|j: int| 0 <= j < out@.len() && out@[j]@ == k;
                if j < out0.len() {
                    assert(out@[j] == out0[j]);
                    assert(contains_path(out0, k)) by {
                        assert(out0[j]@ == k);
                    }
                    assert(contains_path(pre, k));
                    let m = choose|m: int| 0 <= m < pre.len() && pre[m]@ == k;
                    assert(contains_path(cur, k)) by {
                        assert(cur[m]@ == k);
                    }
                } else {
                    assert(out@[j] == s0[i - 1]);
                    assert(contains_path(cur, k)) by {
                        assert(cur[i - 1]@ == k);
                    }
                }
            }
            assert forall|k: Seq<char>| contains_path(cur, k) && k != key@ implies contains_path(
                out@,
                k,
            ) by {
                let j = choose|j: int| 0 <= j < cur.len() && cur[j]@ == k;
                if j < pre.len() {
                    assert(contains_path(pre, k)) by {
                        assert(pre[j]@ == k);
                    }
                    assert(contains_path(out0, k));
                    let m = choose|m: int| 0 <= m < out0.len() && out0[m]@ == k;
                    assert(out@[m]@ == k);
                } else {
                    assert(s0[i - 1]@ == k);
                    assert(keep);
                    assert(out@.last()@ == k);
                }
            }
        }
    }
    proof {
        assert(s0.subrange(0, s0.len() as int) =~= s0);
    }
    *v = out;
}

} // verus!
