//! The import resolver: one `resolve_import` operation that consults the
//! resolution cache, classifies and resolves the specifier, chases the
//! symbol to its declaring file, caches the record and registers the
//! dependency edge.

use vstd::prelude::*;

use crate::cache::ImportCache;
use crate::chase::{spec_find_export_declaration, ImportParser, ModuleSyntax};
use crate::fsmodel::FileSystem;
use crate::graph::{adj_insert, ImportGraph};
use crate::imports::{ImportKind, ImportType, ImportedItem, ResolvedImport};
use crate::paths::{get_relative_path, normalize_path, spec_normalize_path, spec_relative_path};
use crate::resolver::{spec_resolve_import, ImportPathResolver};
use crate::strmap::StrMap;
use crate::ts_config::alias_view;

verus! {

/// The contents of a resolved-import record, as character sequences.
pub struct ResolvedImportModel {
    pub source: Seq<char>,
    pub resolved_path: Seq<char>,
    pub relative_path: Seq<char>,
    pub import_type: ImportType,
    pub item_name: Seq<char>,
    pub item_alias: Option<Seq<char>>,
    pub item_kind: ImportKind,
}

impl ResolvedImport {
    /// The abstract contents of this record.
    pub open spec fn model(&self) -> ResolvedImportModel {
        ResolvedImportModel {
            source: self.source@,
            resolved_path: self.resolved_path@,
            relative_path: self.relative_path@,
            import_type: self.import_type,
            item_name: self.imported_item.name@,
            item_alias: match self.imported_item.alias {
                Some(a) => Some(a@),
                None => None,
            },
            item_kind: self.imported_item.import_kind,
        }
    }
}

/// The record built for a fresh resolution: the declaring path normalized,
/// made workspace-relative, and a named import of the symbol.
pub open spec fn spec_make_resolved(
    source: Seq<char>,
    name: Seq<char>,
    found: Seq<char>,
    ty: ImportType,
    base: Seq<char>,
) -> ResolvedImportModel {
    ResolvedImportModel {
        source: source,
        resolved_path: spec_normalize_path(found),
        relative_path: spec_relative_path(spec_normalize_path(found), base),
        import_type: ty,
        item_name: name,
        item_alias: None,
        item_kind: ImportKind::Named,
    }
}

/// What a resolution computes when the cache has no entry: classify and
/// resolve the specifier, then chase the symbol from the candidate path;
/// a specifier with no candidate fails without a chase.
pub open spec fn spec_fresh_outcome(
    base: Seq<char>,
    import: Seq<char>,
    name: Seq<char>,
    current_file: Seq<char>,
    aliases: Seq<(Seq<char>, Seq<Seq<char>>)>,
    fs_files: Set<Seq<char>>,
    fs_paths: Set<Seq<char>>,
    fs_count: nat,
    modules: Map<Seq<char>, ModuleSyntax>,
) -> Option<ResolvedImportModel> {
    let (cand, ty) = spec_resolve_import(base, import, current_file, aliases, fs_files, fs_paths);
    match cand {
        None => None,
        Some(cand_path) => match spec_find_export_declaration(
            modules,
            fs_files,
            fs_count,
            cand_path,
            name,
        ) {
            None => None,
            Some(found) => Some(spec_make_resolved(import, name, found, ty, base)),
        },
    }
}

/// What `resolve_import` answers: the cached record for the pair when one
/// is present, else the fresh resolution.
pub open spec fn spec_resolve_outcome(
    cache: Map<Seq<char>, Map<Seq<char>, ResolvedImport>>,
    base: Seq<char>,
    import: Seq<char>,
    name: Seq<char>,
    current_file: Seq<char>,
    aliases: Seq<(Seq<char>, Seq<Seq<char>>)>,
    fs_files: Set<Seq<char>>,
    fs_paths: Set<Seq<char>>,
    fs_count: nat,
    modules: Map<Seq<char>, ModuleSyntax>,
) -> Option<ResolvedImportModel> {
    if cache.contains_key(import) && cache[import].contains_key(name) {
        Some(cache[import][name].model())
    } else {
        spec_fresh_outcome(
            base,
            import,
            name,
            current_file,
            aliases,
            fs_files,
            fs_paths,
            fs_count,
            modules,
        )
    }
}

/// Warming the cache with the record a fresh resolution would compute
/// never changes what later resolutions of the pair answer.
///
/// For any cache without an entry for `(import, name)`, inserting a record
/// whose contents are the fresh resolution's leaves the outcome of every
/// later resolution of the pair unchanged (and a hit still records a
/// dependency edge, as `resolve_import` ensures).
pub proof fn lemma_cache_transparency(
    cache: Map<Seq<char>, Map<Seq<char>, ResolvedImport>>,
    v: ResolvedImport,
    base: Seq<char>,
    import: Seq<char>,
    name: Seq<char>,
    current_file: Seq<char>,
    aliases: Seq<(Seq<char>, Seq<Seq<char>>)>,
    fs_files: Set<Seq<char>>,
    fs_paths: Set<Seq<char>>,
    fs_count: nat,
    modules: Map<Seq<char>, ModuleSyntax>,
)
    requires
        !(cache.contains_key(import) && cache[import].contains_key(name)),
        spec_fresh_outcome(
            base,
            import,
            name,
            current_file,
            aliases,
            fs_files,
            fs_paths,
            fs_count,
            modules,
        ) == Some(v.model()),
    ensures
        spec_resolve_outcome(
            cache.insert(
                import,
                (if cache.contains_key(import) {
                    cache[import]
                } else {
                    Map::<Seq<char>, ResolvedImport>::empty()
                }).insert(name, v),
            ),
            base,
            import,
            name,
            current_file,
            aliases,
            fs_files,
            fs_paths,
            fs_count,
            modules,
        ) == spec_resolve_outcome(
            cache,
            base,
            import,
            name,
            current_file,
            aliases,
            fs_files,
            fs_paths,
            fs_count,
            modules,
        ),
{
}

/// Resolution is deterministic: what `resolve_import` answers depends on
/// the cache contents, the workspace base and the arguments alone, never
/// on which resolver instance makes the call. Two resolvers sharing the
/// same cache state resolve identical arguments identically.
pub proof fn lemma_resolve_import_deterministic(
    r1: &ImportResolver,
    r2: &ImportResolver,
    import: Seq<char>,
    name: Seq<char>,
    current_file: Seq<char>,
    aliases: Seq<(Seq<char>, Seq<Seq<char>>)>,
    fs_files: Set<Seq<char>>,
    fs_paths: Set<Seq<char>>,
    fs_count: nat,
    modules: Map<Seq<char>, ModuleSyntax>,
)
    requires
        r1.cache_contents() == r2.cache_contents(),
        r1.base() == r2.base(),
    ensures
        spec_resolve_outcome(
            r1.cache_contents(),
            r1.base(),
            import,
            name,
            current_file,
            aliases,
            fs_files,
            fs_paths,
            fs_count,
            modules,
        ) == spec_resolve_outcome(
            r2.cache_contents(),
            r2.base(),
            import,
            name,
            current_file,
            aliases,
            fs_files,
            fs_paths,
            fs_count,
            modules,
        ),
{
}

/// Resolves imports for one worker: a private orchestrator bound to the
/// resolution cache and the dependency graph.
pub struct ImportResolver {
    base_path: String,
    project_path: String,
    cache: ImportCache,
    import_parser: ImportParser,
    import_path_resolver: ImportPathResolver,
    import_graph: ImportGraph,
}

impl ImportResolver {
    /// The workspace base directory.
    pub closed spec fn base(&self) -> Seq<char> {
        self.base_path@
    }

    /// The project directory this resolver works for.
    pub closed spec fn project(&self) -> Seq<char> {
        self.project_path@
    }

    /// The resolution cache's contents.
    pub closed spec fn cache_contents(&self) -> Map<Seq<char>, Map<Seq<char>, ResolvedImport>> {
        self.cache.contents()
    }

    /// The dependency graph's forward adjacency.
    pub closed spec fn graph_fwd(&self) -> Map<Seq<char>, Seq<Seq<char>>> {
        self.import_graph.fwd()
    }

    /// The dependency graph's reverse adjacency.
    pub closed spec fn graph_rev(&self) -> Map<Seq<char>, Seq<Seq<char>>> {
        self.import_graph.rev()
    }

    pub closed spec fn wf(&self) -> bool {
        &&& self.cache.wf()
        &&& self.import_graph.wf()
        &&& self.import_path_resolver.base() == self.base_path@
    }

    /// The dependency graph held, for queries once resolution is done.
    pub fn graph(&self) -> (r: &ImportGraph)
        ensures
            r.fwd() == self.graph_fwd(),
            r.rev() == self.graph_rev(),
            self.wf() ==> r.wf(),
    {
        &self.import_graph
    }

    /// The cache held, for sharing with another worker.
    pub fn cache(&self) -> (r: &ImportCache)
        ensures
            r.contents() == self.cache_contents(),
            self.wf() ==> r.wf(),
    {
        &self.cache
    }

    /// Build a resolver bound to a shared cache (or a fresh one) and the
    /// dependency graph.
    pub fn new(
        base_path: String,
        project_path: String,
        shared_cache: Option<ImportCache>,
        import_graph: ImportGraph,
    ) -> (r: Self)
        requires
            match shared_cache {
                Some(c) => c.wf(),
                None => true,
            },
            import_graph.wf(),
        ensures
            r.wf(),
            r.base() == base_path@,
            r.project() == project_path@,
            r.cache_contents() == (match shared_cache {
                Some(c) => c.contents(),
                None => Map::<Seq<char>, Map<Seq<char>, ResolvedImport>>::empty(),
            }),
            r.graph_fwd() == import_graph.fwd(),
            r.graph_rev() == import_graph.rev(),
    {
        let import_path_resolver = ImportPathResolver::new(base_path.clone());
        ImportResolver {
            base_path,
            project_path,
            cache: match shared_cache {
                Some(c) => c,
                None => ImportCache::new(),
            },
            import_parser: ImportParser,
            import_path_resolver,
            import_graph,
        }
    }

    /// Resolve one import: answer from the cache or compute freshly, and
    /// either way record the dependency edge from the importing file to
    /// the declaring file. An unresolvable import answers nothing and
    /// changes nothing.
    pub fn resolve_import(
        &mut self,
        import_path: &str,
        name: &str,
        current_file: &str,
        ts_paths: &Vec<(String, Vec<String>)>,
        fs: &FileSystem,
        modules: &StrMap<ModuleSyntax>,
    ) -> (r: Option<ResolvedImport>)
        requires
            old(self).wf(),
            modules.wf(),
            fs.entry_count_spec() + 2 <= usize::MAX,
        ensures
            final(self).wf(),
            final(self).base() == old(self).base(),
            final(self).project() == old(self).project(),
            ({
                let outcome = spec_resolve_outcome(
                    old(self).cache_contents(),
                    old(self).base(),
                    import_path@,
                    name@,
                    current_file@,
                    alias_view(ts_paths@),
                    fs.file_set(),
                    fs.paths(),
                    fs.entry_count_spec(),
                    modules.as_map(),
                );
                match r {
                    Some(v) => {
                        &&& outcome == Some(v.model())
                        &&& final(self).graph_fwd() == adj_insert(
                            old(self).graph_fwd(),
                            current_file@,
                            v.resolved_path@,
                        )
                        &&& final(self).graph_rev() == adj_insert(
                            old(self).graph_rev(),
                            v.resolved_path@,
                            current_file@,
                        )
                        &&& final(self).cache_contents().contains_key(import_path@)
                        &&& final(self).cache_contents()[import_path@].contains_key(name@)
                        &&& final(self).cache_contents()[import_path@][name@] == v
                        &&& ((old(self).cache_contents().contains_key(import_path@)
                            && old(self).cache_contents()[import_path@].contains_key(name@))
                            ==> final(self).cache_contents() == old(self).cache_contents())
                    },
                    None => {
                        &&& outcome is None
                        &&& final(self).cache_contents() == old(self).cache_contents()
                        &&& final(self).graph_fwd() == old(self).graph_fwd()
                        &&& final(self).graph_rev() == old(self).graph_rev()
                    },
                }
            }),
    {
        if let Some(cached) = self.cache.get(import_path, name) {
            self.import_graph.add_dependency(
                String::from_str(current_file),
                cached.resolved_path.clone(),
            );
            return Some(cached);
        }

        let (resolved_path, import_type) = self.import_path_resolver.resolve_import(
            import_path,
            current_file,
            ts_paths,
            fs,
        );

        let cand = match resolved_path {
            Some(p) => p,
            None => {
                return None;
            },
        };

        let final_path = match self.import_parser.find_export_declaration(
            cand.as_str(),
            name,
            modules,
            fs,
        ) {
            Some(p) => p,
            None => {
                return None;
            },
        };

        let resolved_import = self.create_resolved_import(
            import_path,
            name,
            final_path,
            import_type,
        );

        self.cache.insert(
            String::from_str(import_path),
            String::from_str(name),
            resolved_import.clone(),
        );

        self.import_graph.add_dependency(
            String::from_str(current_file),
            resolved_import.resolved_path.clone(),
        );

        Some(resolved_import)
    }

    /// Resolve an import for a particular imported symbol, keeping that
    /// symbol's descriptor on the returned record.
    pub fn resolve_import_item(
        &mut self,
        import_path: &str,
        item: &ImportedItem,
        current_file: &str,
        ts_paths: &Vec<(String, Vec<String>)>,
        fs: &FileSystem,
        modules: &StrMap<ModuleSyntax>,
    ) -> (r: Option<ResolvedImport>)
        requires
            old(self).wf(),
            modules.wf(),
            fs.entry_count_spec() + 2 <= usize::MAX,
        ensures
            final(self).wf(),
            ({
                let outcome = spec_resolve_outcome(
                    old(self).cache_contents(),
                    old(self).base(),
                    import_path@,
                    item.name@,
                    current_file@,
                    alias_view(ts_paths@),
                    fs.file_set(),
                    fs.paths(),
                    fs.entry_count_spec(),
                    modules.as_map(),
                );
                match r {
                    Some(v) => {
                        &&& outcome is Some
                        &&& v.imported_item == *item
                        &&& v.source@ == outcome->Some_0.source
                        &&& v.resolved_path@ == outcome->Some_0.resolved_path
                        &&& v.relative_path@ == outcome->Some_0.relative_path
                        &&& v.import_type == outcome->Some_0.import_type
                    },
                    None => outcome is None,
                }
            }),
    {
        match self.resolve_import(import_path, item.name.as_str(), current_file, ts_paths, fs, modules) {
            Some(mut resolved) => {
                resolved.imported_item = item.clone();
                Some(resolved)
            },
            None => None,
        }
    }

    /// Assemble the record for a freshly resolved import.
    fn create_resolved_import(
        &self,
        source: &str,
        name: &str,
        path: String,
        import_type: ImportType,
    ) -> (r: ResolvedImport)
        ensures
            r.model() == spec_make_resolved(source@, name@, path@, import_type, self.base()),
    {
        let resolved_path = normalize_path(path.as_str());
        let relative_path = get_relative_path(resolved_path.as_str(), self.base_path.as_str());
        ResolvedImport {
            source: String::from_str(source),
            resolved_path,
            relative_path,
            import_type,
            imported_item: ImportedItem {
                name: String::from_str(name),
                alias: None,
                import_kind: ImportKind::Named,
            },
        }
    }
}

} // verus!
