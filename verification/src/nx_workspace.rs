//! The workspace: projects discovered under a root, each assembled from
//! its configuration, its (possibly extended) compiler configuration and
//! its file list. Directory walking and configuration parsing happen
//! outside and hand their findings in as entries.

use vstd::prelude::*;

use crate::fsmodel::FileSystem;
use crate::nx_config::NxProjectConfig;
use crate::nx_project::NxProject;
use crate::paths::{is_node_modules, parent_dir, path_join, spec_join, spec_parent, split_segments};
use crate::strmap::StrMap;
use crate::strutil::str_eq;
use crate::ts_config::{alias_view, clone_alias_table, opt_view, CompilerOptions, TSConfig};

verus! {

/// Whether an alias table already holds a key.
pub open spec fn alias_has_key(t: Seq<(Seq<char>, Seq<Seq<char>>)>, k: Seq<char>) -> bool {
    exists|i: int| 0 <= i < t.len() && t[i].0 == k
}

/// A base table extended by the entries of another whose keys it does not
/// hold yet, in their order.
pub open spec fn spec_merge_alias(
    cur: Seq<(Seq<char>, Seq<Seq<char>>)>,
    ext: Seq<(Seq<char>, Seq<Seq<char>>)>,
) -> Seq<(Seq<char>, Seq<Seq<char>>)>
    decreases ext.len(),
{
    if ext.len() == 0 {
        cur
    } else {
        let acc = spec_merge_alias(cur, ext.drop_last());
        if alias_has_key(acc, ext.last().0) {
            acc
        } else {
            acc.push(ext.last())
        }
    }
}

/// The configuration that results from resolving an `extends` chain one
/// step: the extended file's alias entries fill the gaps of the current
/// table, and its base URL stands in when none is set.
pub open spec fn spec_resolve_extended(c: TSConfig, e: Option<TSConfig>) -> (
    Option<(Option<Seq<char>>, Option<Seq<(Seq<char>, Seq<Seq<char>>)>>)>,
    Option<Seq<char>>,
) {
    if c.extends is None || e is None {
        c.model()
    } else {
        let ec = e->Some_0;
        match ec.compiler_options {
            None => c.model(),
            Some(eo) => {
                match c.compiler_options {
                    None => (Some(eo.model()), opt_view(c.extends)),
                    Some(co) => {
                        let new_paths = match eo.paths {
                            Some(ep) => match co.paths {
                                Some(cp) => Some(
                                    spec_merge_alias(alias_view(cp@), alias_view(ep@)),
                                ),
                                None => Some(alias_view(ep@)),
                            },
                            None => match co.paths {
                                Some(cp) => Some(alias_view(cp@)),
                                None => None,
                            },
                        };
                        let new_base = if co.base_url is None {
                            opt_view(eo.base_url)
                        } else {
                            opt_view(co.base_url)
                        };
                        (Some((new_base, new_paths)), opt_view(c.extends))
                    },
                }
            },
        }
    }
}

/// Merge an extension's alias entries into a table: entries under new
/// keys are appended in their order.
#[verifier::loop_isolation(false)]
fn merge_alias_tables(cur: Vec<(String, Vec<String>)>, ext: &Vec<(String, Vec<String>)>) -> (r:
    Vec<(String, Vec<String>)>)
    ensures
        alias_view(r@) == spec_merge_alias(alias_view(cur@), alias_view(ext@)),
{
    let ghost base = alias_view(cur@);
    let ghost extv = alias_view(ext@);
    let mut out = cur;
    let mut i: usize = 0;
    proof {
        assert(extv.take(0) =~= Seq::<(Seq<char>, Seq<Seq<char>>)>::empty());
    }
    while i < ext.len()
        invariant
            0 <= i <= extv.len(),
            extv == alias_view(ext@),
            alias_view(out@) == spec_merge_alias(base, extv.take(i as int)),
        decreases extv.len() - i,
    {
        proof {
            assert(extv.take(i as int + 1).drop_last() =~= extv.take(i as int));
            assert(extv.take(i as int + 1).last() == extv[i as int]);
        }
        let (key, patterns) = &ext[i];
        let mut found = false;
        let mut j: usize = 0;
        while j < out.len()
            invariant
                0 <= j <= out@.len(),
                found ==> alias_has_key(alias_view(out@), key@),
                !found ==> forall|t: int| 0 <= t < j ==> alias_view(out@)[t].0 != key@,
            decreases out@.len() - j, (if found { 0int } else { 1int }),
        {
            if str_eq(out[j].0.as_str(), key.as_str()) {
                found = true;
                proof {
                    assert(alias_view(out@)[j as int].0 == key@);
                }
            }
            j += 1;
        }
        if !found {
            proof {
                if alias_has_key(alias_view(out@), key@) {
                    let t = choose|t: int|
                        0 <= t < alias_view(out@).len() && alias_view(out@)[t].0 == key@;
                    assert(false);
                }
            }
            let ghost prev = alias_view(out@);
            out.push((key.clone(), crate::strutil::clone_string_vec(patterns)));
            proof {
                assert(alias_view(out@) =~~= prev.push(extv[i as int]));
            }
        }
        i += 1;
    }
    proof {
        assert(extv.take(extv.len() as int) =~= extv);
    }
    out
}

/// What one project's view in the workspace records: its name, its
/// configuration, its resolved compiler configuration and its files.
pub open spec fn proj_view(p: NxProject) -> (
    Seq<char>,
    (String, String, Option<String>, Option<Seq<String>>, String),
    (Option<(Option<Seq<char>>, Option<Seq<(Seq<char>, Seq<Seq<char>>)>>)>, Option<Seq<char>>),
    Seq<String>,
) {
    (p.name@, p.config.model(), p.ts_config.model(), p.files@)
}

/// Everything discovered about one candidate project: where it lives, its
/// parsed configuration, its own compiler configuration (when one was
/// found beside it), the configuration it extends (when that file exists
/// and parses), and the files under its root.
pub struct ProjectEntry {
    pub project_root: String,
    pub config: NxProjectConfig,
    pub ts_config: Option<TSConfig>,
    pub extended: Option<TSConfig>,
    pub files: Vec<String>,
}

/// The files of a project: everything outside dependency directories.
pub open spec fn spec_project_files(files: Seq<String>) -> Seq<String>
    decreases files.len(),
{
    if files.len() == 0 {
        Seq::empty()
    } else {
        let rest = spec_project_files(files.drop_last());
        if !split_segments(files.last()@).contains("node_modules"@) {
            rest.push(files.last())
        } else {
            rest
        }
    }
}

/// Workspace loading, entry by entry: an entry without a compiler
/// configuration beside it is skipped; every other entry adds (or
/// replaces) its project under its root.
pub open spec fn spec_load_fold(
    m: Map<
        Seq<char>,
        (
            Seq<char>,
            (String, String, Option<String>, Option<Seq<String>>, String),
            (
                Option<(Option<Seq<char>>, Option<Seq<(Seq<char>, Seq<Seq<char>>)>>)>,
                Option<Seq<char>>,
            ),
            Seq<String>,
        ),
    >,
    entries: Seq<ProjectEntry>,
) -> Map<
    Seq<char>,
    (
        Seq<char>,
        (String, String, Option<String>, Option<Seq<String>>, String),
        (
            Option<(Option<Seq<char>>, Option<Seq<(Seq<char>, Seq<Seq<char>>)>>)>,
            Option<Seq<char>>,
        ),
        Seq<String>,
    ),
>
    decreases entries.len(),
{
    if entries.len() == 0 {
        m
    } else {
        let acc = spec_load_fold(m, entries.drop_last());
        let e = entries.last();
        match e.ts_config {
            None => acc,
            Some(tc) => acc.insert(
                e.project_root@,
                (
                    e.config.name@,
                    e.config.model(),
                    spec_resolve_extended(tc, e.extended),
                    spec_project_files(e.files@).map_values(|s: String| s),
                ),
            ),
        }
    }
}

/// The workspace: its root directory and the projects discovered in it.
pub struct NxWorkspace {
    projects: StrMap<NxProject>,
    workspace_root: String,
}

impl NxWorkspace {
    /// The root everything was discovered under.
    pub closed spec fn root(&self) -> Seq<char> {
        self.workspace_root@
    }

    /// The discovered projects, by root directory, as their views.
    pub closed spec fn projects_view(&self) -> Map<
        Seq<char>,
        (
            Seq<char>,
            (String, String, Option<String>, Option<Seq<String>>, String),
            (
                Option<(Option<Seq<char>>, Option<Seq<(Seq<char>, Seq<Seq<char>>)>>)>,
                Option<Seq<char>>,
            ),
            Seq<String>,
        ),
    > {
        self.projects.as_map().map_values(|p: NxProject| proj_view(p))
    }

    pub closed spec fn wf(&self) -> bool {
        self.projects.wf()
    }

    pub fn new(workspace_root: String) -> (r: Self)
        ensures
            r.wf(),
            r.root() == workspace_root@,
            r.projects_view() == Map::<
                Seq<char>,
                (
                    Seq<char>,
                    (String, String, Option<String>, Option<Seq<String>>, String),
                    (
                        Option<
                            (Option<Seq<char>>, Option<Seq<(Seq<char>, Seq<Seq<char>>)>>),
                        >,
                        Option<Seq<char>>,
                    ),
                    Seq<String>,
                ),
            >::empty(),
    {
        let r = NxWorkspace { projects: StrMap::new(), workspace_root };
        proof {
            assert(r.projects_view() =~= Map::<
                Seq<char>,
                (
                    Seq<char>,
                    (String, String, Option<String>, Option<Seq<String>>, String),
                    (
                        Option<
                            (Option<Seq<char>>, Option<Seq<(Seq<char>, Seq<Seq<char>>)>>),
                        >,
                        Option<Seq<char>>,
                    ),
                    Seq<String>,
                ),
            >::empty());
        }
        r
    }

    /// The projects held.
    pub fn get_projects(&self) -> (r: &StrMap<NxProject>)
        ensures
            r.as_map().map_values(|p: NxProject| proj_view(p)) == self.projects_view(),
            self.wf() ==> r.wf(),
    {
        &self.projects
    }

    /// A file beside another, when it exists in the snapshot.
    pub fn get_sibling(entry_path: &str, target: &str, fs: &FileSystem) -> (r: Option<String>)
        ensures
            match r {
                Some(p) => spec_parent(entry_path@) is Some && p@ == spec_join(
                    spec_parent(entry_path@)->Some_0,
                    target@,
                ) && fs.paths().contains(p@),
                None => spec_parent(entry_path@) is None || !fs.paths().contains(
                    spec_join(spec_parent(entry_path@)->Some_0, target@),
                ),
            },
    {
        let parent = match parent_dir(entry_path) {
            Some(p) => p,
            None => {
                return None;
            },
        };
        let sibling = path_join(parent.as_str(), target);
        if fs.path_exists(sibling.as_str()) {
            Some(sibling)
        } else {
            None
        }
    }

    /// The files of a project: everything outside dependency directories,
    /// in enumeration order.
    #[verifier::loop_isolation(false)]
    pub fn collect_project_files(&self, files: Vec<String>) -> (r: Vec<String>)
        ensures
            r@ == spec_project_files(files@),
    {
        let mut out: Vec<String> = Vec::new();
        let mut i: usize = 0;
        proof {
            assert(files@.take(0) =~= Seq::<String>::empty());
            assert(out@ =~= spec_project_files(files@.take(0)));
        }
        while i < files.len()
            invariant
                0 <= i <= files@.len(),
                out@ == spec_project_files(files@.take(i as int)),
            decreases files@.len() - i,
        {
            proof {
                assert(files@.take(i as int + 1).drop_last() =~= files@.take(i as int));
                assert(files@.take(i as int + 1).last() == files@[i as int]);
            }
            if !is_node_modules(files[i].as_str()) {
                out.push(files[i].clone());
            }
            i += 1;
        }
        proof {
            assert(files@.take(files@.len() as int) =~= files@);
        }
        out
    }

    /// Resolve a configuration against the one it extends.
    pub fn resolve_extended_tsconfig(&self, config: &TSConfig, extended: Option<&TSConfig>) -> (r:
        TSConfig)
        ensures
            r.model() == spec_resolve_extended(*config, match extended {
                Some(e) => Some(*e),
                None => None,
            }),
    {
        if config.extends.is_none() {
            return config.clone();
        }
        let ec = match extended {
            Some(e) => e,
            None => {
                return config.clone();
            },
        };
        let eo = match &ec.compiler_options {
            Some(o) => o,
            None => {
                return config.clone();
            },
        };
        match &config.compiler_options {
            None => TSConfig {
                compiler_options: Some(eo.clone()),
                extends: crate::strutil::clone_opt_string(&config.extends),
            },
            Some(co) => {
                let new_paths: Option<Vec<(String, Vec<String>)>> = match &eo.paths {
                    Some(ep) => match &co.paths {
                        Some(cp) => Some(merge_alias_tables(clone_alias_table(cp), ep)),
                        None => Some(clone_alias_table(ep)),
                    },
                    None => match &co.paths {
                        Some(cp) => Some(clone_alias_table(cp)),
                        None => None,
                    },
                };
                let new_base = if co.base_url.is_none() {
                    crate::strutil::clone_opt_string(&eo.base_url)
                } else {
                    crate::strutil::clone_opt_string(&co.base_url)
                };
                TSConfig {
                    compiler_options: Some(
                        CompilerOptions { base_url: new_base, paths: new_paths },
                    ),
                    extends: crate::strutil::clone_opt_string(&config.extends),
                }
            },
        }
    }

    /// Load the workspace from discovered entries: each entry with a
    /// compiler configuration beside it becomes a project under its root,
    /// with its `extends` resolved and its files filtered.
    #[verifier::loop_isolation(false)]
    pub fn load_configuration(&mut self, entries: Vec<ProjectEntry>)
        requires
            old(self).wf(),
        ensures
            final(self).wf(),
            final(self).root() == old(self).root(),
            final(self).projects_view() == spec_load_fold(old(self).projects_view(), entries@),
    {
        let ghost all = entries@;
        let ghost start = self.projects_view();
        let mut remaining = entries;
        let ghost mut taken: int = 0;
        proof {
            assert(all.take(0) =~= Seq::<ProjectEntry>::empty());
            assert(all.skip(0) =~= all);
        }
        while remaining.len() > 0
            invariant
                self.wf(),
                self.root() == old(self).root(),
                0 <= taken <= all.len(),
                remaining@ == all.skip(taken),
                self.projects_view() == spec_load_fold(start, all.take(taken)),
            decreases remaining@.len(),
        {
            let entry = remaining.remove(0);
            proof {
                assert(entry == all[taken]);
                assert(remaining@ =~= all.skip(taken + 1));
            }
            match entry.ts_config {
                Some(tsconfig) => {
                    let resolved = self.resolve_extended_tsconfig(
                        &tsconfig,
                        entry.extended.as_ref(),
                    );
                    let files = self.collect_project_files(entry.files);
                    let name = entry.config.name.clone();
                    let project = NxProject::with_files(name, entry.config, resolved, files);
                    let ghost prev = self.projects_view();
                    let ghost pv = proj_view(project);
                    self.projects.insert(entry.project_root, project);
                    proof {
                        taken = taken + 1;
                        assert(all.take(taken).drop_last() =~= all.take(taken - 1));
                        assert(all.take(taken).last() == all[taken - 1]);
                        assert(spec_project_files(all[taken - 1].files@).map_values(
                            |s: String| s,
                        ) =~= spec_project_files(all[taken - 1].files@));
                        assert(self.projects_view() =~= prev.insert(
                            all[taken - 1].project_root@,
                            pv,
                        ));
                    }
                },
                None => {
                    proof {
                        taken = taken + 1;
                        assert(all.take(taken).drop_last() =~= all.take(taken - 1));
                        assert(all.take(taken).last() == all[taken - 1]);
                    }
                },
            }
        }
        proof {
            assert(all.skip(taken).len() == 0);
            assert(taken == all.len());
            assert(all.take(taken) =~= all);
        }
    }
}

} // verus!
