//! Classifying import specifiers and turning them into candidate
//! file-system paths: relative to the importing file, absolute against the
//! workspace base, through the alias table, or by walking `node_modules`
//! directories upward.

use vstd::prelude::*;

use crate::fsmodel::FileSystem;
use crate::imports::ImportType;
use crate::paths::{
    lemma_parent_shorter, lookup_path, parent_dir, path_join, spec_join, spec_lookup_path,
    spec_parent, spec_trim_slashes, trim_leading_slashes,
};
use crate::strutil::{concat_str, is_prefix, starts_with};
use crate::ts_config::alias_view;

verus! {

/// How a specifier is classified, by its prefix.
pub open spec fn spec_import_type(p: Seq<char>) -> ImportType {
    if is_prefix("./"@, p) || is_prefix("../"@, p) {
        ImportType::Relative
    } else if is_prefix("/"@, p) {
        ImportType::Absolute
    } else if is_prefix("@"@, p) {
        ImportType::Package
    } else {
        ImportType::NodeModule
    }
}

/// A candidate in canonical spelling, or the first of its `.ts`, `.tsx`,
/// `.d.ts` variants that exists as a file when the candidate itself does
/// not; the bare canonical candidate when none exists.
pub open spec fn spec_with_source_extension(j: Seq<char>, files: Set<Seq<char>>) -> Seq<char> {
    let c = spec_lookup_path(j);
    if files.contains(c) {
        c
    } else if files.contains(c + ".ts"@) {
        c + ".ts"@
    } else if files.contains(c + ".tsx"@) {
        c + ".tsx"@
    } else if files.contains(c + ".d.ts"@) {
        c + ".d.ts"@
    } else {
        c
    }
}

/// Where a relative specifier points: joined onto the importing file's
/// directory, with the extension search applied. Fails only for a file
/// without a parent directory.
pub open spec fn spec_resolve_relative(
    import: Seq<char>,
    current_file: Seq<char>,
    files: Set<Seq<char>>,
) -> Option<Seq<char>> {
    match spec_parent(current_file) {
        None => None,
        Some(dir) => Some(spec_with_source_extension(spec_join(dir, import), files)),
    }
}

/// Where an absolute specifier points: joined onto the workspace base with
/// its leading slashes removed; no existence check is made here.
pub open spec fn spec_resolve_absolute(base: Seq<char>, import: Seq<char>) -> Seq<char> {
    spec_join(base, spec_trim_slashes(import))
}

/// The pattern with each `*` replaced by `rem`.
pub open spec fn spec_subst_star(pat: Seq<char>, rem: Seq<char>) -> Seq<char>
    decreases pat.len(),
{
    if pat.len() == 0 {
        Seq::<char>::empty()
    } else if pat[0] == '*' {
        rem + spec_subst_star(pat.skip(1), rem)
    } else {
        seq![pat[0]] + spec_subst_star(pat.skip(1), rem)
    }
}

/// The first pattern candidate that exists on disk (as a file or a
/// directory), after wildcard substitution, joining onto the base and
/// canonicalizing.
pub open spec fn spec_first_existing(
    base: Seq<char>,
    rem: Seq<char>,
    patterns: Seq<Seq<char>>,
    alls: Set<Seq<char>>,
) -> Option<Seq<char>>
    decreases patterns.len(),
{
    if patterns.len() == 0 {
        None
    } else {
        let cand = spec_lookup_path(spec_join(base, spec_subst_star(patterns[0], rem)));
        if alls.contains(cand) {
            Some(cand)
        } else {
            spec_first_existing(base, rem, patterns.skip(1), alls)
        }
    }
}

/// Where an aliased specifier points: the first alias whose prefix matches
/// decides; its first existing candidate is the result, and a matching
/// alias with no existing candidate fails without any further fallback.
pub open spec fn spec_resolve_package(
    base: Seq<char>,
    import: Seq<char>,
    aliases: Seq<(Seq<char>, Seq<Seq<char>>)>,
    alls: Set<Seq<char>>,
) -> Option<Seq<char>>
    decreases aliases.len(),
{
    if aliases.len() == 0 {
        None
    } else if is_prefix(aliases[0].0, import) {
        spec_first_existing(base, import.skip(aliases[0].0.len() as int), aliases[0].1, alls)
    } else {
        spec_resolve_package(base, import, aliases.skip(1), alls)
    }
}

/// Where an ambient specifier points: starting at the base directory and
/// walking upward, the first `<dir>/node_modules/<specifier>` that exists;
/// the walk stops at the file-system root.
pub open spec fn spec_resolve_node_module(
    current: Seq<char>,
    import: Seq<char>,
    alls: Set<Seq<char>>,
) -> Option<Seq<char>>
    decreases current.len(),
{
    if spec_parent(current) is None {
        None
    } else {
        let nm = spec_lookup_path(spec_join(spec_join(current, "node_modules"@), import));
        if alls.contains(nm) {
            Some(nm)
        } else {
            proof {
                lemma_parent_shorter(current);
            }
            spec_resolve_node_module(spec_parent(current)->Some_0, import, alls)
        }
    }
}

/// The candidate path and classification for a specifier, per the
/// classification's own strategy.
pub open spec fn spec_resolve_import(
    base: Seq<char>,
    import: Seq<char>,
    current_file: Seq<char>,
    aliases: Seq<(Seq<char>, Seq<Seq<char>>)>,
    files: Set<Seq<char>>,
    alls: Set<Seq<char>>,
) -> (Option<Seq<char>>, ImportType) {
    let t = spec_import_type(import);
    match t {
        ImportType::Relative => (spec_resolve_relative(import, current_file, files), t),
        ImportType::Absolute => (Some(spec_resolve_absolute(base, import)), t),
        ImportType::Package => (spec_resolve_package(base, import, aliases, alls), t),
        ImportType::NodeModule => (spec_resolve_node_module(base, import, alls), t),
    }
}

/// Turns import specifiers into candidate file-system paths, relative to a
/// fixed workspace base directory.
pub struct ImportPathResolver {
    base_path: String,
}

impl ImportPathResolver {
    /// The workspace base directory.
    pub closed spec fn base(&self) -> Seq<char> {
        self.base_path@
    }

    pub fn new(base_path: String) -> (r: Self)
        ensures
            r.base() == base_path@,
    {
        ImportPathResolver { base_path }
    }

    /// Classify a specifier by its prefix.
    pub fn determine_import_type(&self, import_path: &str) -> (r: ImportType)
        ensures
            r == spec_import_type(import_path@),
    {
        if starts_with(import_path, "./") || starts_with(import_path, "../") {
            ImportType::Relative
        } else if starts_with(import_path, "/") {
            ImportType::Absolute
        } else if starts_with(import_path, "@") {
            ImportType::Package
        } else {
            ImportType::NodeModule
        }
    }

    /// Resolve a `./` or `../` specifier against the importing file.
    pub fn resolve_relative_import(
        &self,
        import_path: &str,
        current_file: &str,
        fs: &FileSystem,
    ) -> (r: Option<String>)
        ensures
            match r {
                Some(p) => spec_resolve_relative(import_path@, current_file@, fs.file_set())
                    == Some(p@),
                None => spec_resolve_relative(import_path@, current_file@, fs.file_set())
                    is None,
            },
    {
        let parent = match parent_dir(current_file) {
            Some(p) => p,
            None => {
                return None;
            },
        };
        let joined = path_join(parent.as_str(), import_path);
        Some(self.with_source_extension(joined, fs))
    }

    /// Apply the `.ts`, `.tsx`, `.d.ts` extension search to a canonical
    /// candidate that does not itself exist as a file.
    fn with_source_extension(&self, joined: String, fs: &FileSystem) -> (r: String)
        ensures
            r@ == spec_with_source_extension(joined@, fs.file_set()),
    {
        let cand = lookup_path(joined.as_str());
        if fs.file_exists(cand.as_str()) {
            return cand;
        }
        let ts = concat_str(cand.as_str(), ".ts");
        if fs.file_exists(ts.as_str()) {
            return ts;
        }
        let tsx = concat_str(cand.as_str(), ".tsx");
        if fs.file_exists(tsx.as_str()) {
            return tsx;
        }
        let dts = concat_str(cand.as_str(), ".d.ts");
        if fs.file_exists(dts.as_str()) {
            return dts;
        }
        cand
    }

    /// Resolve a `/` specifier against the workspace base.
    pub fn resolve_absolute_import(&self, import_path: &str) -> (r: Option<String>)
        ensures
            match r {
                Some(p) => p@ == spec_resolve_absolute(self.base(), import_path@),
                None => false,
            },
    {
        let trimmed = trim_leading_slashes(import_path);
        Some(path_join(self.base_path.as_str(), trimmed.as_str()))
    }

    /// Resolve an `@`-prefixed specifier through the alias table.
    pub fn resolve_package_import(
        &self,
        import_path: &str,
        ts_paths: &Vec<(String, Vec<String>)>,
        fs: &FileSystem,
    ) -> (r: Option<String>)
        ensures
            match r {
                Some(p) => spec_resolve_package(
                    self.base(),
                    import_path@,
                    alias_view(ts_paths@),
                    fs.paths(),
                ) == Some(p@),
                None => spec_resolve_package(
                    self.base(),
                    import_path@,
                    alias_view(ts_paths@),
                    fs.paths(),
                ) is None,
            },
    {
        let ghost av = alias_view(ts_paths@);
        let ghost full = spec_resolve_package(self.base(), import_path@, av, fs.paths());
        let mut i: usize = 0;
        proof {
            assert(av.skip(0) =~= av);
        }
        while i < ts_paths.len()
            invariant
                0 <= i <= ts_paths@.len(),
                av == alias_view(ts_paths@),
                full == spec_resolve_package(self.base(), import_path@, av, fs.paths()),
                spec_resolve_package(self.base(), import_path@, av.skip(i as int), fs.paths())
                    == full,
                self.base() == self.base_path@,
            decreases ts_paths@.len() - i,
        {
            proof {
                assert(av.skip(i as int)[0] == av[i as int]);
                assert(av.skip(i as int).skip(1) =~= av.skip(i as int + 1));
            }
            let (alias, patterns) = &ts_paths[i];
            if starts_with(import_path, alias.as_str()) {
                let rem_start = alias.unicode_len();
                let n = import_path.unicode_len();
                let rem = import_path.substring_char(rem_start, n);
                proof {
                    assert(rem@ =~= import_path@.skip(alias@.len() as int));
                }
                return self.first_existing_candidate(rem, patterns, fs);
            }
            i += 1;
        }
        proof {
            assert(av.skip(ts_paths@.len() as int) =~= Seq::<(Seq<char>, Seq<Seq<char>>)>::empty());
        }
        None
    }

    /// The first pattern candidate that exists, for one matching alias.
    fn first_existing_candidate(
        &self,
        rem: &str,
        patterns: &Vec<String>,
        fs: &FileSystem,
    ) -> (r: Option<String>)
        ensures
            match r {
                Some(p) => spec_first_existing(
                    self.base(),
                    rem@,
                    patterns@.map_values(|s: String| s@),
                    fs.paths(),
                ) == Some(p@),
                None => spec_first_existing(
                    self.base(),
                    rem@,
                    patterns@.map_values(|s: String| s@),
                    fs.paths(),
                ) is None,
            },
    {
        let ghost pv = patterns@.map_values(|s: String| s@);
        let ghost full = spec_first_existing(self.base(), rem@, pv, fs.paths());
        let mut j: usize = 0;
        proof {
            assert(pv.skip(0) =~= pv);
        }
        while j < patterns.len()
            invariant
                0 <= j <= patterns@.len(),
                pv == patterns@.map_values(|s: String| s@),
                full == spec_first_existing(self.base(), rem@, pv, fs.paths()),
                spec_first_existing(self.base(), rem@, pv.skip(j as int), fs.paths()) == full,
                self.base() == self.base_path@,
            decreases patterns@.len() - j,
        {
            proof {
                assert(pv.skip(j as int)[0] == pv[j as int]);
                assert(pv.skip(j as int).skip(1) =~= pv.skip(j as int + 1));
            }
            let substituted = subst_star(patterns[j].as_str(), rem);
            let cand = lookup_path(path_join(self.base_path.as_str(), substituted.as_str()).as_str());
            if fs.path_exists(cand.as_str()) {
                return Some(cand);
            }
            j += 1;
        }
        proof {
            assert(pv.skip(patterns@.len() as int) =~= Seq::<Seq<char>>::empty());
        }
        None
    }

    /// Resolve an ambient specifier by walking `node_modules` directories
    /// from the workspace base upward.
    pub fn resolve_node_module_import(&self, import_path: &str, fs: &FileSystem) -> (r: Option<
        String,
    >)
        ensures
            match r {
                Some(p) => spec_resolve_node_module(self.base(), import_path@, fs.paths())
                    == Some(p@),
                None => spec_resolve_node_module(self.base(), import_path@, fs.paths()) is None,
            },
    {
        let mut current = self.base_path.clone();
        while parent_dir(current.as_str()).is_some()
            invariant
                spec_resolve_node_module(current@, import_path@, fs.paths())
                    == spec_resolve_node_module(self.base(), import_path@, fs.paths()),
            decreases current@.len(),
        {
            let nm = lookup_path(
                path_join(path_join(current.as_str(), "node_modules").as_str(), import_path).as_str(),
            );
            if fs.path_exists(nm.as_str()) {
                return Some(nm);
            }
            proof {
                lemma_parent_shorter(current@);
            }
            current = match parent_dir(current.as_str()) {
                Some(p) => p,
                None => {
                    proof {
                        assert(false);
                    }
                    current
                },
            };
        }
        None
    }

    /// Classify a specifier and produce its candidate path.
    pub fn resolve_import(
        &self,
        import_path: &str,
        current_file: &str,
        ts_paths: &Vec<(String, Vec<String>)>,
        fs: &FileSystem,
    ) -> (r: (Option<String>, ImportType))
        ensures
            ({
                let (sp, st) = spec_resolve_import(
                    self.base(),
                    import_path@,
                    current_file@,
                    alias_view(ts_paths@),
                    fs.file_set(),
                    fs.paths(),
                );
                r.1 == st && (match r.0 {
                    Some(p) => sp == Some(p@),
                    None => sp is None,
                })
            }),
    {
        let import_type = self.determine_import_type(import_path);
        match import_type {
            ImportType::Relative => (
                self.resolve_relative_import(import_path, current_file, fs),
                ImportType::Relative,
            ),
            ImportType::Absolute => (self.resolve_absolute_import(import_path), ImportType::Absolute),
            ImportType::Package => (
                self.resolve_package_import(import_path, ts_paths, fs),
                ImportType::Package,
            ),
            ImportType::NodeModule => (
                self.resolve_node_module_import(import_path, fs),
                ImportType::NodeModule,
            ),
        }
    }
}

/// Replace each `*` in a pattern by the remainder of the specifier.
pub fn subst_star(pat: &str, rem: &str) -> (r: String)
    ensures
        r@ == spec_subst_star(pat@, rem@),
{
    let n = pat.unicode_len();
    let mut out = String::new();
    let mut i: usize = 0;
    proof {
        assert(pat@.skip(0) =~= pat@);
    }
    while i < n
        invariant
            0 <= i <= n,
            n == pat@.len(),
            out@ + spec_subst_star(pat@.skip(i as int), rem@) == spec_subst_star(pat@, rem@),
        decreases n - i,
    {
        proof {
            assert(pat@.skip(i as int)[0] == pat@[i as int]);
            assert(pat@.skip(i as int).skip(1) =~= pat@.skip(i as int + 1));
        }
        let ghost prev = out@;
        let c = pat.get_char(i);
        if c == '*' {
            out.append(rem);
            proof {
                assert(prev + (rem@ + spec_subst_star(pat@.skip(i as int + 1), rem@)) =~= out@
                    + spec_subst_star(pat@.skip(i as int + 1), rem@));
            }
        } else {
            let piece = pat.substring_char(i, i + 1);
            proof {
                assert(piece@ =~= seq![pat@[i as int]]);
            }
            out.append(piece);
            proof {
                assert(prev + (seq![pat@[i as int]] + spec_subst_star(
                    pat@.skip(i as int + 1),
                    rem@,
                )) =~= out@ + spec_subst_star(pat@.skip(i as int + 1), rem@));
            }
        }
        i += 1;
    }
    proof {
        assert(pat@.skip(n as int) =~= Seq::<char>::empty());
        assert(out@ + Seq::<char>::empty() =~= out@);
    }
    out
}

} // verus!
