use nx_analyzer::chase::{ExportStatement, ImportParser, ModuleSyntax, NamedReExport};
use nx_analyzer::fsmodel::FileSystem;
use nx_analyzer::import_resolver::ImportResolver;
use nx_analyzer::imports::{ImportKind, ImportType, ImportedItem};
use nx_analyzer::graph::ImportGraph;
use nx_analyzer::resolver::ImportPathResolver;
use nx_analyzer::strmap::StrMap;

fn fs_of(files: &[&str]) -> FileSystem {
    FileSystem::new(files.iter().map(|p| p.to_string()).collect(), Vec::new())
}

fn fs_with_dirs(files: &[&str], dirs: &[&str]) -> FileSystem {
    FileSystem::new(
        files.iter().map(|p| p.to_string()).collect(),
        dirs.iter().map(|p| p.to_string()).collect(),
    )
}

fn no_modules() -> StrMap<ModuleSyntax> {
    StrMap::new()
}

#[test]
fn classifies_specifiers() {
    let r = ImportPathResolver::new("base".to_string());
    assert_eq!(r.determine_import_type("./x"), ImportType::Relative);
    assert_eq!(r.determine_import_type("../x"), ImportType::Relative);
    assert_eq!(r.determine_import_type("/x"), ImportType::Absolute);
    assert_eq!(r.determine_import_type("@scope/x"), ImportType::Package);
    assert_eq!(r.determine_import_type("lodash"), ImportType::NodeModule);
}

#[test]
fn extension_beats_index() {
    // Both `foo.ts` and `foo/index.ts` exist (and `foo` itself is a
    // directory): the extension candidate wins.
    let fs = fs_with_dirs(&["foo.ts", "foo/index.ts"], &["foo"]);
    let parser = ImportParser;
    let hit = parser.resolve_path_with_extensions("foo", &fs).unwrap();
    assert_eq!(hit.as_str(), "foo.ts");

    let r = ImportPathResolver::new("base".to_string());
    let resolved = r.resolve_relative_import("./foo", "main.ts", &fs).unwrap();
    assert_eq!(resolved.as_str(), "foo.ts");

    // The same holds from a file inside a directory: the joined `.` and
    // `..` segments collapse before the lookup.
    let fs2 = fs_with_dirs(&["src/foo.ts", "src/foo/index.ts"], &["src", "src/foo"]);
    let resolved2 = r.resolve_relative_import("./foo", "src/main.ts", &fs2).unwrap();
    assert_eq!(resolved2.as_str(), "src/foo.ts");
    let resolved3 = r.resolve_relative_import("../foo", "src/lib/a.ts", &fs2);
    assert_eq!(resolved3.unwrap().as_str(), "src/foo.ts");
}

#[test]
fn extension_precedence_end_to_end() {
    // Resolving `./foo` for a declared symbol lands on `foo.ts`, never on
    // `foo/index.ts`, even though the directory `foo` exists.
    let fs = fs_with_dirs(
        &["src/foo.ts", "src/foo/index.ts", "src/main.ts"],
        &["src", "src/foo"],
    );
    let mut modules: StrMap<ModuleSyntax> = StrMap::new();
    modules.insert(
        "src/foo.ts".to_string(),
        ModuleSyntax { items: vec![ExportStatement::Decl { name: "X".to_string() }] },
    );
    modules.insert(
        "src/foo/index.ts".to_string(),
        ModuleSyntax { items: vec![ExportStatement::Decl { name: "X".to_string() }] },
    );
    let mut resolver = ImportResolver::new(
        "".to_string(),
        "".to_string(),
        None,
        ImportGraph::new(),
    );
    let ts_paths: Vec<(String, Vec<String>)> = Vec::new();
    let hit = resolver
        .resolve_import("./foo", "X", "src/main.ts", &ts_paths, &fs, &modules)
        .unwrap();
    assert_eq!(hit.resolved_path.as_str(), "src/foo.ts");
}

#[test]
fn index_used_when_no_extension_match() {
    let fs = fs_with_dirs(&["foo/index.ts"], &["foo"]);
    let parser = ImportParser;
    let hit = parser.resolve_path_with_extensions("foo", &fs).unwrap();
    assert_eq!(hit.as_str(), "foo/index.ts");
    assert!(parser.resolve_path_with_extensions("bar", &fs).is_none());
}

#[test]
fn reexport_chase_finds_declaring_file() {
    // `b.ts` re-exports everything from `./a`; `a.ts` declares `X`.
    let fs = fs_of(&["b.ts", "a.ts"]);
    let mut modules: StrMap<ModuleSyntax> = StrMap::new();
    modules.insert(
        "b.ts".to_string(),
        ModuleSyntax {
            items: vec![ExportStatement::ExportAll { specifier: "./a".to_string() }],
        },
    );
    modules.insert(
        "a.ts".to_string(),
        ModuleSyntax { items: vec![ExportStatement::Decl { name: "X".to_string() }] },
    );
    let parser = ImportParser;
    let found = parser.find_export_declaration("b.ts", "X", &modules, &fs).unwrap();
    assert_eq!(found.as_str(), "a.ts");
    assert!(parser.find_export_declaration("b.ts", "Y", &modules, &fs).is_none());

    // The same chase works for files down in a directory.
    let fs2 = fs_with_dirs(&["src/b.ts", "src/a.ts"], &["src"]);
    let mut modules2: StrMap<ModuleSyntax> = StrMap::new();
    modules2.insert(
        "src/b.ts".to_string(),
        ModuleSyntax {
            items: vec![ExportStatement::ExportAll { specifier: "./a".to_string() }],
        },
    );
    modules2.insert(
        "src/a.ts".to_string(),
        ModuleSyntax { items: vec![ExportStatement::Decl { name: "X".to_string() }] },
    );
    let found2 = parser.find_export_declaration("src/b.ts", "X", &modules2, &fs2).unwrap();
    assert_eq!(found2.as_str(), "src/a.ts");
}

#[test]
fn renamed_reexport_follows_original_name() {
    // `b.ts` re-exports `Inner` under the name `Outer` from `./a`.
    let fs = fs_of(&["b.ts", "a.ts"]);
    let mut modules: StrMap<ModuleSyntax> = StrMap::new();
    modules.insert(
        "b.ts".to_string(),
        ModuleSyntax {
            items: vec![ExportStatement::ExportNamed {
                specifiers: vec![NamedReExport {
                    orig: "Inner".to_string(),
                    exported: Some("Outer".to_string()),
                }],
                source: Some("./a".to_string()),
            }],
        },
    );
    modules.insert(
        "a.ts".to_string(),
        ModuleSyntax { items: vec![ExportStatement::Decl { name: "Inner".to_string() }] },
    );
    let parser = ImportParser;
    let found = parser.find_export_declaration("b.ts", "Outer", &modules, &fs).unwrap();
    assert_eq!(found.as_str(), "a.ts");
    // The original name is not visible outside.
    assert!(parser.find_export_declaration("b.ts", "Inner", &modules, &fs).is_none());
}

#[test]
fn cyclic_reexports_fail_quietly() {
    let fs = fs_of(&["x.ts", "y.ts"]);
    let mut modules: StrMap<ModuleSyntax> = StrMap::new();
    modules.insert(
        "x.ts".to_string(),
        ModuleSyntax {
            items: vec![ExportStatement::ExportAll { specifier: "./y".to_string() }],
        },
    );
    modules.insert(
        "y.ts".to_string(),
        ModuleSyntax {
            items: vec![ExportStatement::ExportAll { specifier: "./x".to_string() }],
        },
    );
    let parser = ImportParser;
    assert!(parser.find_export_declaration("x.ts", "Z", &modules, &fs).is_none());
}

#[test]
fn alias_resolution_without_fallback() {
    let r = ImportPathResolver::new("base".to_string());
    let ts_paths = vec![("@app/".to_string(), vec!["src/app/*".to_string()])];

    // The aliased candidate exists: it is the answer.
    let fs = fs_of(&["base/src/app/util"]);
    let hit = r.resolve_package_import("@app/util", &ts_paths, &fs).unwrap();
    assert_eq!(hit.as_str(), "base/src/app/util");

    // The candidate is missing: resolution fails even though an ambient
    // package of that name is installed.
    let fs2 = fs_of(&["base/node_modules/@app/util"]);
    assert!(r.resolve_package_import("@app/util", &ts_paths, &fs2).is_none());

    // No alias matches at all: resolution fails.
    let fs3 = fs_of(&["base/src/app/util"]);
    assert!(r.resolve_package_import("@other/util", &ts_paths, &fs3).is_none());
}

#[test]
fn first_matching_alias_decides() {
    let r = ImportPathResolver::new("base".to_string());
    let ts_paths = vec![
        ("@app/".to_string(), vec!["one/*".to_string(), "two/*".to_string()]),
        ("@app/x".to_string(), vec!["three/*".to_string()]),
    ];
    let fs = fs_of(&["base/two/x", "base/three/"]);
    let hit = r.resolve_package_import("@app/x", &ts_paths, &fs).unwrap();
    assert_eq!(hit.as_str(), "base/two/x");
}

#[test]
fn ambient_walk_climbs_to_root() {
    let r = ImportPathResolver::new("a/b".to_string());
    let fs = fs_with_dirs(&[], &["a", "a/node_modules", "a/node_modules/lodash"]);
    let hit = r.resolve_node_module_import("lodash", &fs).unwrap();
    assert_eq!(hit.as_str(), "a/node_modules/lodash");

    let empty = fs_of(&[]);
    assert!(r.resolve_node_module_import("lodash", &empty).is_none());
}

#[test]
fn absolute_import_joins_base() {
    let r = ImportPathResolver::new("base".to_string());
    let hit = r.resolve_absolute_import("/src/x").unwrap();
    assert_eq!(hit.as_str(), "base/src/x");
}

#[test]
fn resolve_import_caches_and_records_edges() {
    let fs = fs_of(&["base/lib/a.ts", "main.ts"]);
    let mut modules: StrMap<ModuleSyntax> = StrMap::new();
    modules.insert(
        "base/lib/a.ts".to_string(),
        ModuleSyntax { items: vec![ExportStatement::Decl { name: "Thing".to_string() }] },
    );
    let mut resolver = ImportResolver::new(
        "base".to_string(),
        "base/project".to_string(),
        None,
        ImportGraph::new(),
    );
    let ts_paths: Vec<(String, Vec<String>)> = Vec::new();

    let first = resolver
        .resolve_import("/lib/a", "Thing", "main.ts", &ts_paths, &fs, &modules)
        .unwrap();
    assert_eq!(first.resolved_path.as_str(), "base/lib/a.ts");
    assert_eq!(first.relative_path.as_str(), "lib/a.ts");
    assert_eq!(first.source.as_str(), "/lib/a");
    assert_eq!(first.import_type, ImportType::Absolute);
    assert_eq!(first.imported_item.name.as_str(), "Thing");
    assert_eq!(first.imported_item.import_kind, ImportKind::Named);

    // A second resolution answers from the cache with the same record and
    // still records the edge for the new importing file.
    let second = resolver
        .resolve_import("/lib/a", "Thing", "other.ts", &ts_paths, &fs, &modules)
        .unwrap();
    assert_eq!(second, first);

    let graph = resolver.graph();
    let deps_main = graph.get_dependencies("main.ts").unwrap();
    assert!(deps_main.iter().any(|d| d.as_str() == "base/lib/a.ts"));
    let deps_other = graph.get_dependencies("other.ts").unwrap();
    assert!(deps_other.iter().any(|d| d.as_str() == "base/lib/a.ts"));
    let dependents = graph.get_dependents("base/lib/a.ts").unwrap();
    assert_eq!(dependents.len(), 2);
}

#[test]
fn unresolvable_import_answers_nothing() {
    let fs = fs_of(&[]);
    let modules = no_modules();
    let mut resolver = ImportResolver::new(
        "base".to_string(),
        "base/project".to_string(),
        None,
        ImportGraph::new(),
    );
    let ts_paths: Vec<(String, Vec<String>)> = Vec::new();
    assert!(resolver
        .resolve_import("./missing", "X", "main.ts", &ts_paths, &fs, &modules)
        .is_none());
    assert!(resolver.graph().get_dependencies("main.ts").is_none());
}

#[test]
fn resolve_import_item_keeps_descriptor() {
    let fs = fs_of(&["base/lib/a.ts"]);
    let mut modules: StrMap<ModuleSyntax> = StrMap::new();
    modules.insert(
        "base/lib/a.ts".to_string(),
        ModuleSyntax { items: vec![ExportStatement::Decl { name: "Thing".to_string() }] },
    );
    let mut resolver = ImportResolver::new(
        "base".to_string(),
        "base/project".to_string(),
        None,
        ImportGraph::new(),
    );
    let item = ImportedItem {
        name: "Thing".to_string(),
        alias: Some("Alias".to_string()),
        import_kind: ImportKind::Default,
    };
    let ts_paths: Vec<(String, Vec<String>)> = Vec::new();
    let resolved = resolver
        .resolve_import_item("/lib/a", &item, "main.ts", &ts_paths, &fs, &modules)
        .unwrap();
    assert_eq!(resolved.imported_item, item);
    assert_eq!(resolved.resolved_path.as_str(), "base/lib/a.ts");
}
