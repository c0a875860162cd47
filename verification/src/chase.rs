//! The symbol chase: given a candidate path and a symbol name, find the
//! file that actually declares the symbol by trying extension and `index`
//! candidates and recursively following re-export statements, guarded
//! against cyclic re-exports by an explicit visited set.

use vstd::prelude::*;

use crate::fsmodel::FileSystem;
use crate::paths::{
    file_has_extension, lookup_path, parent_dir, path_join, spec_has_extension, spec_join,
    spec_lookup_path, spec_parent,
};
use crate::strmap::StrMap;
use crate::strutil::{concat_str, contains_str, str_eq, str_seq_set, lemma_str_seq_set_push};

verus! {

/// One re-exported name of an `export { ... } from` statement: the
/// original name in the source module and the name it is exported under.
pub struct NamedReExport {
    pub orig: String,
    pub exported: Option<String>,
}

/// What one top-level statement of a parsed module contributes to its
/// exports.
pub enum ExportStatement {
    /// A declaration exported directly (class, function, variable,
    /// interface, type alias, enum or namespace) under `name`.
    Decl { name: String },
    /// `export * from <specifier>`.
    ExportAll { specifier: String },
    /// `export { a, b as c } [from <source>]`.
    ExportNamed { specifiers: Vec<NamedReExport>, source: Option<String> },
}

/// A parsed module, reduced to its export-relevant statements in source
/// order.
pub struct ModuleSyntax {
    pub items: Vec<ExportStatement>,
}

/// The name under which a re-export specifier is visible outside.
pub open spec fn spec_export_name(s: NamedReExport) -> Seq<char> {
    match s.exported {
        Some(e) => e@,
        None => s.orig@,
    }
}

/// Extension and `index` candidates for a chase target, in fixed
/// priority: the canonical path itself, `<path>.<ext>`, then
/// `<path>/index.<ext>`, with extensions `.ts`, `.tsx`, `.js`, `.d.ts`;
/// the first that exists as a regular file is the one parsed.
pub open spec fn spec_chase_candidates(p: Seq<char>, files: Set<Seq<char>>) -> Option<Seq<char>> {
    let c = spec_lookup_path(p);
    if files.contains(c) {
        Some(c)
    } else if files.contains(c + ".ts"@) {
        Some(c + ".ts"@)
    } else if files.contains(c + ".tsx"@) {
        Some(c + ".tsx"@)
    } else if files.contains(c + ".js"@) {
        Some(c + ".js"@)
    } else if files.contains(c + ".d.ts"@) {
        Some(c + ".d.ts"@)
    } else {
        let idx = spec_join(c, "index"@);
        if files.contains(idx + ".ts"@) {
            Some(idx + ".ts"@)
        } else if files.contains(idx + ".tsx"@) {
            Some(idx + ".tsx"@)
        } else if files.contains(idx + ".js"@) {
            Some(idx + ".js"@)
        } else if files.contains(idx + ".d.ts"@) {
            Some(idx + ".d.ts"@)
        } else {
            None
        }
    }
}

/// Where a re-export specifier of `cur` points: joined onto `cur`'s
/// directory and canonicalized; a path that already carries an extension
/// is taken as is, else the `.ts`, `.tsx`, `.d.ts` file variants and then
/// the `index` variants are tried, falling back to the unextended `index`
/// path.
pub open spec fn spec_resolve_export_path(
    rel: Seq<char>,
    cur: Seq<char>,
    files: Set<Seq<char>>,
) -> Option<Seq<char>> {
    match spec_parent(cur) {
        None => None,
        Some(dir) => {
            let joined = spec_lookup_path(spec_join(dir, rel));
            if spec_has_extension(joined) {
                Some(joined)
            } else if files.contains(joined + ".ts"@) {
                Some(joined + ".ts"@)
            } else if files.contains(joined + ".tsx"@) {
                Some(joined + ".tsx"@)
            } else if files.contains(joined + ".d.ts"@) {
                Some(joined + ".d.ts"@)
            } else {
                let idx = spec_join(joined, "index"@);
                if files.contains(idx + ".ts"@) {
                    Some(idx + ".ts"@)
                } else if files.contains(idx + ".tsx"@) {
                    Some(idx + ".tsx"@)
                } else if files.contains(idx + ".d.ts"@) {
                    Some(idx + ".d.ts"@)
                } else {
                    Some(idx)
                }
            }
        },
    }
}

/// Whether a module declares `target` directly in an exported declaration.
pub open spec fn spec_declares(items: Seq<ExportStatement>, target: Seq<char>) -> bool {
    exists|i: int|
        #![trigger items[i]]
        0 <= i < items.len() && (items[i] matches ExportStatement::Decl { name } && name@
            == target)
}

/// One chase step: resolve the candidate, guard against revisiting, then
/// answer with the current file if it declares the target directly, else
/// scan its re-export statements in order. Returns the found path (if
/// any) and the visited set as it stands afterwards. `fuel` bounds the
/// recursion depth; the caller supplies more fuel than any chase on the
/// given file-system snapshot can consume.
pub open spec fn spec_chase(
    modules: Map<Seq<char>, ModuleSyntax>,
    fs: Set<Seq<char>>,
    path: Seq<char>,
    target: Seq<char>,
    visited: Set<Seq<char>>,
    fuel: nat,
) -> (Option<Seq<char>>, Set<Seq<char>>)
    decreases fuel, 2nat, 0nat,
{
    if fuel == 0 {
        (None, visited)
    } else {
        match spec_chase_candidates(path, fs) {
            None => (None, visited),
            Some(hit) => {
                if visited.contains(hit) {
                    (None, visited)
                } else {
                    let v2 = visited.insert(hit);
                    if !modules.contains_key(hit) {
                        (None, v2)
                    } else if spec_declares(modules[hit].items@, target) {
                        (Some(hit), v2)
                    } else {
                        spec_chase_items(
                            modules,
                            fs,
                            hit,
                            modules[hit].items@,
                            target,
                            v2,
                            fuel,
                        )
                    }
                }
            },
        }
    }
}

/// Scan re-export statements in source order; the first successful
/// recursive chase wins.
pub open spec fn spec_chase_items(
    modules: Map<Seq<char>, ModuleSyntax>,
    fs: Set<Seq<char>>,
    cur: Seq<char>,
    items: Seq<ExportStatement>,
    target: Seq<char>,
    visited: Set<Seq<char>>,
    fuel: nat,
) -> (Option<Seq<char>>, Set<Seq<char>>)
    decreases fuel, 1nat, items.len(),
{
    if items.len() == 0 || fuel == 0 {
        (None, visited)
    } else {
        let rest = items.skip(1);
        match items[0] {
            ExportStatement::Decl { name } => spec_chase_items(
                modules,
                fs,
                cur,
                rest,
                target,
                visited,
                fuel,
            ),
            ExportStatement::ExportAll { specifier } => {
                match spec_resolve_export_path(specifier@, cur, fs) {
                    None => spec_chase_items(modules, fs, cur, rest, target, visited, fuel),
                    Some(np) => {
                        let (res, v2) = spec_chase(
                            modules,
                            fs,
                            np,
                            target,
                            visited,
                            (fuel - 1) as nat,
                        );
                        if res is Some {
                            (res, v2)
                        } else {
                            spec_chase_items(modules, fs, cur, rest, target, v2, fuel)
                        }
                    },
                }
            },
            ExportStatement::ExportNamed { specifiers, source } => {
                let (res, v2) = spec_chase_named(
                    modules,
                    fs,
                    cur,
                    specifiers@,
                    source,
                    target,
                    visited,
                    fuel,
                );
                if res is Some {
                    (res, v2)
                } else {
                    spec_chase_items(modules, fs, cur, rest, target, v2, fuel)
                }
            },
        }
    }
}

/// Scan the specifiers of one `export { ... } from` statement: a
/// specifier whose visible name is the target recurses into the source
/// module under the specifier's original name.
pub open spec fn spec_chase_named(
    modules: Map<Seq<char>, ModuleSyntax>,
    fs: Set<Seq<char>>,
    cur: Seq<char>,
    specs: Seq<NamedReExport>,
    source: Option<String>,
    target: Seq<char>,
    visited: Set<Seq<char>>,
    fuel: nat,
) -> (Option<Seq<char>>, Set<Seq<char>>)
    decreases fuel, 0nat, specs.len(),
{
    if specs.len() == 0 || fuel == 0 {
        (None, visited)
    } else {
        let rest = specs.skip(1);
        if spec_export_name(specs[0]) == target {
            match source {
                None => spec_chase_named(modules, fs, cur, rest, source, target, visited, fuel),
                Some(src) => {
                    match spec_resolve_export_path(src@, cur, fs) {
                        None => spec_chase_named(
                            modules,
                            fs,
                            cur,
                            rest,
                            source,
                            target,
                            visited,
                            fuel,
                        ),
                        Some(np) => {
                            let (res, v2) = spec_chase(
                                modules,
                                fs,
                                np,
                                specs[0].orig@,
                                visited,
                                (fuel - 1) as nat,
                            );
                            if res is Some {
                                (res, v2)
                            } else {
                                spec_chase_named(
                                    modules,
                                    fs,
                                    cur,
                                    rest,
                                    source,
                                    target,
                                    v2,
                                    fuel,
                                )
                            }
                        },
                    }
                },
            }
        } else {
            spec_chase_named(modules, fs, cur, rest, source, target, visited, fuel)
        }
    }
}

/// The result of a whole chase, started with an empty visited set and
/// enough fuel for the snapshot.
pub open spec fn spec_find_export_declaration(
    modules: Map<Seq<char>, ModuleSyntax>,
    fs_paths: Set<Seq<char>>,
    fs_count: nat,
    path: Seq<char>,
    target: Seq<char>,
) -> Option<Seq<char>> {
    spec_chase(modules, fs_paths, path, target, Set::empty(), fs_count + 2).0
}

/// Follows re-export chains across parsed modules to find the file that
/// declares a symbol.
pub struct ImportParser;

impl ImportParser {
    /// Find the file that declares `target_name`, starting from a
    /// candidate path.
    pub fn find_export_declaration(
        &self,
        path: &str,
        target_name: &str,
        modules: &StrMap<ModuleSyntax>,
        fs: &FileSystem,
    ) -> (r: Option<String>)
        requires
            modules.wf(),
            fs.entry_count_spec() + 2 <= usize::MAX,
        ensures
            match r {
                Some(p) => spec_find_export_declaration(
                    modules.as_map(),
                    fs.file_set(),
                    fs.entry_count_spec(),
                    path@,
                    target_name@,
                ) == Some(p@),
                None => spec_find_export_declaration(
                    modules.as_map(),
                    fs.file_set(),
                    fs.entry_count_spec(),
                    path@,
                    target_name@,
                ) is None,
            },
    {
        let mut visited: Vec<String> = Vec::new();
        let fuel = fs.entry_count() + 2;
        proof {
            assert(str_seq_set(visited@) =~= Set::<Seq<char>>::empty());
        }
        self.chase(path, target_name, &mut visited, fuel, modules, fs)
    }

    /// One chase step over the explicit visited set.
    #[verifier::loop_isolation(false)]
    fn chase(
        &self,
        path: &str,
        target: &str,
        visited: &mut Vec<String>,
        fuel: usize,
        modules: &StrMap<ModuleSyntax>,
        fs: &FileSystem,
    ) -> (r: Option<String>)
        requires
            modules.wf(),
        ensures
            ({
                let (sr, sv) = spec_chase(
                    modules.as_map(),
                    fs.file_set(),
                    path@,
                    target@,
                    str_seq_set(old(visited)@),
                    fuel as nat,
                );
                &&& (match r {
                    Some(p) => sr == Some(p@),
                    None => sr is None,
                })
                &&& str_seq_set(final(visited)@) == sv
            }),
        decreases fuel, 1int,
    {
        if fuel == 0 {
            return None;
        }
        let hit = match self.resolve_path_with_extensions(path, fs) {
            Some(p) => p,
            None => {
                return None;
            },
        };
        if contains_str(visited, hit.as_str()) {
            return None;
        }
        let ghost v_before = visited@;
        visited.push(hit.clone());
        proof {
            lemma_str_seq_set_push(v_before, hit);
        }
        let ghost v2 = str_seq_set(visited@);
        let m = match modules.get(hit.as_str()) {
            Some(m) => m,
            None => {
                return None;
            },
        };
        let ghost items = m.items@;
        assert(items == modules.as_map()[hit@].items@);

        // Directly exported declarations answer with the current file.
        let mut i: usize = 0;
        while i < m.items.len()
            invariant
                0 <= i <= items.len(),
                items == m.items@,
                forall|j: int|
                    #![trigger items[j]]
                    0 <= j < i ==> !(items[j] matches ExportStatement::Decl { name } && name@
                        == target@),
            decreases items.len() - i,
        {
            match &m.items[i] {
                ExportStatement::Decl { name } => {
                    if str_eq(name.as_str(), target) {
                        assert(spec_declares(items, target@));
                        return Some(hit);
                    }
                },
                _ => {},
            }
            i += 1;
        }
        proof {
            if spec_declares(items, target@) {
                let j = choose|j: int|
                    #![trigger items[j]]
                    0 <= j < items.len() && (items[j] matches ExportStatement::Decl { name }
                        && name@ == target@);
                assert(false);
            }
        }

        // Re-export statements, in source order.
        let ghost full = spec_chase(
            modules.as_map(),
            fs.file_set(),
            path@,
            target@,
            str_seq_set(v_before),
            fuel as nat,
        );
        proof {
            assert(full == spec_chase_items(
                modules.as_map(),
                fs.file_set(),
                hit@,
                items,
                target@,
                v2,
                fuel as nat,
            ));
        }
        let mut k: usize = 0;
        proof {
            assert(items.skip(0) =~= items);
        }
        while k < m.items.len()
            invariant
                modules.wf(),
                0 <= k <= items.len(),
                items == m.items@,
                fuel >= 1,
                spec_chase_items(
                    modules.as_map(),
                    fs.file_set(),
                    hit@,
                    items.skip(k as int),
                    target@,
                    str_seq_set(visited@),
                    fuel as nat,
                ) == full,
            decreases items.len() - k,
        {
            proof {
                assert(items.skip(k as int)[0] == items[k as int]);
                assert(items.skip(k as int).skip(1) =~= items.skip(k as int + 1));
            }
            match &m.items[k] {
                ExportStatement::Decl { name: _ } => {},
                ExportStatement::ExportAll { specifier } => {
                    match self.resolve_export_path(specifier.as_str(), hit.as_str(), fs) {
                        Some(np) => {
                            let res = self.chase(
                                np.as_str(),
                                target,
                                visited,
                                fuel - 1,
                                modules,
                                fs,
                            );
                            if res.is_some() {
                                return res;
                            }
                        },
                        None => {},
                    }
                },
                ExportStatement::ExportNamed { specifiers, source } => {
                    let res = self.chase_named(
                        hit.as_str(),
                        specifiers,
                        source,
                        target,
                        visited,
                        fuel,
                        modules,
                        fs,
                    );
                    if res.is_some() {
                        return res;
                    }
                },
            }
            k += 1;
        }
        proof {
            assert(items.skip(items.len() as int) =~= Seq::<ExportStatement>::empty());
        }
        None
    }

    /// Scan one `export { ... } from` statement's specifiers.
    #[verifier::loop_isolation(false)]
    fn chase_named(
        &self,
        cur: &str,
        specifiers: &Vec<NamedReExport>,
        source: &Option<String>,
        target: &str,
        visited: &mut Vec<String>,
        fuel: usize,
        modules: &StrMap<ModuleSyntax>,
        fs: &FileSystem,
    ) -> (r: Option<String>)
        requires
            modules.wf(),
            fuel >= 1,
        ensures
            ({
                let (sr, sv) = spec_chase_named(
                    modules.as_map(),
                    fs.file_set(),
                    cur@,
                    specifiers@,
                    *source,
                    target@,
                    str_seq_set(old(visited)@),
                    fuel as nat,
                );
                &&& (match r {
                    Some(p) => sr == Some(p@),
                    None => sr is None,
                })
                &&& str_seq_set(final(visited)@) == sv
            }),
        decreases fuel, 0int,
    {
        let ghost specs = specifiers@;
        let ghost goal = spec_chase_named(
            modules.as_map(),
            fs.file_set(),
            cur@,
            specs,
            *source,
            target@,
            str_seq_set(visited@),
            fuel as nat,
        );
        let mut k: usize = 0;
        proof {
            assert(specs.skip(0) =~= specs);
        }
        while k < specifiers.len()
            invariant
                modules.wf(),
                0 <= k <= specs.len(),
                specs == specifiers@,
                fuel >= 1,
                spec_chase_named(
                    modules.as_map(),
                    fs.file_set(),
                    cur@,
                    specs.skip(k as int),
                    *source,
                    target@,
                    str_seq_set(visited@),
                    fuel as nat,
                ) == goal,
            decreases specs.len() - k,
        {
            proof {
                assert(specs.skip(k as int)[0] == specs[k as int]);
                assert(specs.skip(k as int).skip(1) =~= specs.skip(k as int + 1));
            }
            let sp = &specifiers[k];
            let visible = match &sp.exported {
                Some(e) => e.as_str(),
                None => sp.orig.as_str(),
            };
            if str_eq(visible, target) {
                match source {
                    Some(src) => {
                        match self.resolve_export_path(src.as_str(), cur, fs) {
                            Some(np) => {
                                let res = self.chase(
                                    np.as_str(),
                                    sp.orig.as_str(),
                                    visited,
                                    fuel - 1,
                                    modules,
                                    fs,
                                );
                                if res.is_some() {
                                    return res;
                                }
                            },
                            None => {},
                        }
                    },
                    None => {},
                }
            }
            k += 1;
        }
        proof {
            assert(specs.skip(specs.len() as int) =~= Seq::<NamedReExport>::empty());
        }
        None
    }

    /// Try the literal path, the extension variants and the `index`
    /// variants; the first that exists on disk is the file to parse.
    pub fn resolve_path_with_extensions(&self, path: &str, fs: &FileSystem) -> (r: Option<String>)
        ensures
            match r {
                Some(p) => spec_chase_candidates(path@, fs.file_set()) == Some(p@),
                None => spec_chase_candidates(path@, fs.file_set()) is None,
            },
    {
        let cand = lookup_path(path);
        if fs.file_exists(cand.as_str()) {
            return Some(cand);
        }
        let ts = concat_str(cand.as_str(), ".ts");
        if fs.file_exists(ts.as_str()) {
            return Some(ts);
        }
        let tsx = concat_str(cand.as_str(), ".tsx");
        if fs.file_exists(tsx.as_str()) {
            return Some(tsx);
        }
        let js = concat_str(cand.as_str(), ".js");
        if fs.file_exists(js.as_str()) {
            return Some(js);
        }
        let dts = concat_str(cand.as_str(), ".d.ts");
        if fs.file_exists(dts.as_str()) {
            return Some(dts);
        }
        let idx = path_join(cand.as_str(), "index");
        let its = concat_str(idx.as_str(), ".ts");
        if fs.file_exists(its.as_str()) {
            return Some(its);
        }
        let itsx = concat_str(idx.as_str(), ".tsx");
        if fs.file_exists(itsx.as_str()) {
            return Some(itsx);
        }
        let ijs = concat_str(idx.as_str(), ".js");
        if fs.file_exists(ijs.as_str()) {
            return Some(ijs);
        }
        let idts = concat_str(idx.as_str(), ".d.ts");
        if fs.file_exists(idts.as_str()) {
            return Some(idts);
        }
        None
    }

    /// Resolve a re-export specifier against the current file's directory,
    /// trying extensions and `index` files for extensionless paths.
    pub fn resolve_export_path(&self, relative_path: &str, current_file: &str, fs: &FileSystem)
        -> (r: Option<String>)
        ensures
            match r {
                Some(p) => spec_resolve_export_path(
                    relative_path@,
                    current_file@,
                    fs.file_set(),
                ) == Some(p@),
                None => spec_resolve_export_path(relative_path@, current_file@, fs.file_set())
                    is None,
            },
    {
        let parent = match parent_dir(current_file) {
            Some(p) => p,
            None => {
                return None;
            },
        };
        let joined = lookup_path(path_join(parent.as_str(), relative_path).as_str());
        if file_has_extension(joined.as_str()) {
            return Some(joined);
        }
        let ts = concat_str(joined.as_str(), ".ts");
        if fs.file_exists(ts.as_str()) {
            return Some(ts);
        }
        let tsx = concat_str(joined.as_str(), ".tsx");
        if fs.file_exists(tsx.as_str()) {
            return Some(tsx);
        }
        let dts = concat_str(joined.as_str(), ".d.ts");
        if fs.file_exists(dts.as_str()) {
            return Some(dts);
        }
        let idx = path_join(joined.as_str(), "index");
        let its = concat_str(idx.as_str(), ".ts");
        if fs.file_exists(its.as_str()) {
            return Some(its);
        }
        let itsx = concat_str(idx.as_str(), ".tsx");
        if fs.file_exists(itsx.as_str()) {
            return Some(itsx);
        }
        let idts = concat_str(idx.as_str(), ".d.ts");
        if fs.file_exists(idts.as_str()) {
            return Some(idts);
        }
        Some(idx)
    }
}

} // verus!
