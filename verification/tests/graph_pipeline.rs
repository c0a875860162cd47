use nx_analyzer::cache::ImportCache;
use nx_analyzer::content_cache::{CachedFileReader, TSConfigCache};
use nx_analyzer::graph::ImportGraph;
use nx_analyzer::imports::{ImportKind, ImportType, ImportedItem, ResolvedImport};
use nx_analyzer::ng_models::{NgComponentInfo, NgPipeInfo};
use nx_analyzer::ng_results::{AnalysisCollector, NgAnalysisResults};
use nx_analyzer::nx_config::NxProjectConfig;
use nx_analyzer::nx_project::NxProject;
use nx_analyzer::nx_workspace::{NxWorkspace, ProjectEntry};
use nx_analyzer::fsmodel::FileSystem;
use nx_analyzer::pipeline::ProjectProcessor;
use nx_analyzer::timing::TimingMetrics;
use nx_analyzer::ts_config::{CompilerOptions, TSConfig};

fn edge(g: &mut ImportGraph, a: &str, b: &str) {
    g.add_dependency(a.to_string(), b.to_string());
}

#[test]
fn direct_and_transitive_dependencies() {
    let mut g = ImportGraph::new();
    edge(&mut g, "a", "b");
    edge(&mut g, "b", "c");
    edge(&mut g, "c", "d");
    let direct = g.get_dependencies("a").unwrap();
    assert_eq!(direct, vec!["b".to_string()]);
    let mut all = g.get_all_dependencies("a");
    all.sort();
    assert_eq!(all, vec!["b".to_string(), "c".to_string(), "d".to_string()]);
    // `a` is not its own dependency without a cycle back to it.
    assert!(!g.get_all_dependencies("a").contains(&"a".to_string()));
    assert!(g.get_all_dependencies("d").is_empty());
    let dependents = g.get_dependents("b").unwrap();
    assert_eq!(dependents, vec!["a".to_string()]);
}

#[test]
fn idempotent_edge_insertion() {
    let mut g = ImportGraph::new();
    edge(&mut g, "a", "b");
    edge(&mut g, "a", "b");
    assert_eq!(g.get_dependencies("a").unwrap(), vec!["b".to_string()]);
    assert_eq!(g.get_dependents("b").unwrap(), vec!["a".to_string()]);
    assert_eq!(g.get_all_dependencies("a"), vec!["b".to_string()]);
}

#[test]
fn one_cycle_reported() {
    let mut g = ImportGraph::new();
    edge(&mut g, "A", "B");
    edge(&mut g, "B", "C");
    edge(&mut g, "C", "A");
    let cycles = g.analyze_circular_dependencies();
    assert_eq!(cycles.len(), 1);
    let mut cycle = cycles[0].clone();
    cycle.sort();
    assert_eq!(cycle, vec!["A".to_string(), "B".to_string(), "C".to_string()]);
}

#[test]
fn self_loop_is_a_cycle() {
    let mut g = ImportGraph::new();
    edge(&mut g, "A", "A");
    let cycles = g.analyze_circular_dependencies();
    assert_eq!(cycles.len(), 1);
    assert_eq!(cycles[0], vec!["A".to_string()]);
}

#[test]
fn acyclic_graph_reports_nothing() {
    let mut g = ImportGraph::new();
    edge(&mut g, "A", "B");
    edge(&mut g, "B", "C");
    assert!(g.analyze_circular_dependencies().is_empty());
}

fn record(name: &str) -> ResolvedImport {
    ResolvedImport {
        source: format!("./{name}"),
        resolved_path: format!("/w/{name}.ts"),
        relative_path: format!("{name}.ts"),
        import_type: ImportType::Relative,
        imported_item: ImportedItem {
            name: name.to_string(),
            alias: None,
            import_kind: ImportKind::Named,
        },
    }
}

#[test]
fn import_cache_round_trip() {
    let mut cache = ImportCache::new();
    assert!(cache.get("./a", "A").is_none());
    cache.insert("./a".to_string(), "A".to_string(), record("a"));
    cache.insert("./a".to_string(), "B".to_string(), record("b"));
    let hit = cache.get("./a", "A").unwrap();
    assert_eq!(hit.resolved_path.as_str(), "/w/a.ts");
    let other = cache.get("./a", "B").unwrap();
    assert_eq!(other.resolved_path.as_str(), "/w/b.ts");
    assert!(cache.get("./b", "A").is_none());
    let copy = cache.clone_cache();
    assert_eq!(copy.get("./a", "A").unwrap(), hit);
}

fn unit(names: &[&str]) -> NgAnalysisResults {
    let mut r = NgAnalysisResults::new();
    for n in names {
        r.pipes.push(NgPipeInfo::new(
            n.to_string(),
            n.to_string(),
            true,
            false,
            Vec::new(),
            format!("/w/{n}.ts"),
            format!("{n}.ts"),
            "pkg".to_string(),
        ));
    }
    r
}

fn pipe_names(r: &NgAnalysisResults) -> Vec<String> {
    r.pipes.iter().map(|p| p.base.name.clone()).collect()
}

#[test]
fn merge_is_associative_and_commutative_in_content() {
    // Grouping does not matter at all: the very same sequences come out.
    let mut left = unit(&["1"]);
    left.extend(unit(&["2"]));
    left.extend(unit(&["3"]));
    let mut right = unit(&["1"]);
    let mut right_tail = unit(&["2"]);
    right_tail.extend(unit(&["3"]));
    right.extend(right_tail);
    assert_eq!(pipe_names(&left), pipe_names(&right));
    assert_eq!(pipe_names(&left), vec!["1", "2", "3"]);

    // Order changes only the order, never the content.
    let mut ab = unit(&["x"]);
    ab.extend(unit(&["y"]));
    let mut ba = unit(&["y"]);
    ba.extend(unit(&["x"]));
    let mut ab_names = pipe_names(&ab);
    let mut ba_names = pipe_names(&ba);
    ab_names.sort();
    ba_names.sort();
    assert_eq!(ab_names, ba_names);

    // The empty unit is the identity.
    let mut with_empty = unit(&["z"]);
    with_empty.extend(NgAnalysisResults::new());
    assert_eq!(pipe_names(&with_empty), vec!["z"]);

    // The same holds through the collector contract.
    let mut collected = NgAnalysisResults::unit();
    collected.combine(unit(&["m"]));
    collected.combine(unit(&["n"]));
    assert_eq!(pipe_names(&collected), vec!["m", "n"]);
}

fn processor() -> ProjectProcessor {
    ProjectProcessor::new(
        "/w".to_string(),
        "/w/proj".to_string(),
        "proj".to_string(),
        TSConfig::empty(),
        ImportCache::new(),
        CachedFileReader::new(1000),
        ImportGraph::new(),
    )
}

#[test]
fn pipeline_filters_chunks_and_merges() {
    let p = processor().filter_node_modules().filter_ts_files();
    let walked = vec![
        "/w/proj/a.ts".to_string(),
        "/w/proj/node_modules/x/y.ts".to_string(),
        "/w/proj/readme.md".to_string(),
        "/w/proj/b.ts".to_string(),
        "/w/proj/c.ts".to_string(),
        "/w/proj/.ts".to_string(),
    ];
    let kept = p.collect_paths(walked);
    assert_eq!(kept, vec![
        "/w/proj/a.ts".to_string(),
        "/w/proj/b.ts".to_string(),
        "/w/proj/c.ts".to_string()
    ]);

    let chunks = p.chunk_paths(kept.clone(), 2);
    assert_eq!(chunks.len(), 2);
    assert_eq!(chunks[0].len(), 2);
    assert_eq!(chunks[1].len(), 1);
    let flattened: Vec<String> = chunks.concat();
    assert_eq!(flattened, kept);

    let mut total = NgAnalysisResults::new();
    p.merge_chunk_results(vec![unit(&["1", "2"]), unit(&["3"])], &mut total);
    assert_eq!(pipe_names(&total), vec!["1", "2", "3"]);
}

#[test]
fn content_cache_expires_by_duration() {
    let mut reader = CachedFileReader::new(300);
    assert!(reader.get_cached("f.ts", 0).is_none());
    reader.store("f.ts".to_string(), "text".to_string(), 100);
    assert_eq!(reader.get_cached("f.ts", 100).as_deref(), Some("text"));
    assert_eq!(reader.get_cached("f.ts", 399).as_deref(), Some("text"));
    assert!(reader.get_cached("f.ts", 400).is_none());
    // A clock that moved backwards counts as expired.
    assert!(reader.get_cached("f.ts", 50).is_none());
    let stats = reader.get_cache_stats();
    assert_eq!(stats.total_entries, 1);
    assert_eq!(stats.total_size, 4);
    let copy = reader.clone_cache();
    assert_eq!(copy.get_cached("f.ts", 100).as_deref(), Some("text"));
    reader.remove_from_cache("f.ts");
    assert!(reader.get_cached("f.ts", 100).is_none());
}

#[test]
fn tsconfig_cache_round_trip() {
    let mut cache = TSConfigCache::new(300);
    assert!(cache.get_config_cached("/w/tsconfig.json").is_none());
    cache.store_config("/w/tsconfig.json".to_string(), TSConfig::empty());
    let hit = cache.get_config_cached("/w/tsconfig.json").unwrap();
    assert!(hit.compiler_options.is_none());
    assert!(hit.extends.is_none());
}

#[test]
fn timing_summary_arithmetic() {
    let mut m = TimingMetrics::new();
    assert_eq!(m.total_analysis_time(), 0);
    m.file_analysis_times.push(("a.ts".to_string(), 10));
    m.file_analysis_times.push(("b.ts".to_string(), 30));
    assert_eq!(m.total_analysis_time(), 40);
    assert_eq!(m.average_analysis_time(), 20);
}

fn config(name: &str) -> NxProjectConfig {
    NxProjectConfig {
        name: name.to_string(),
        source_root: format!("{name}/src"),
        prefix: None,
        tags: None,
        project_type: "application".to_string(),
    }
}

#[test]
fn workspace_loads_entries_with_tsconfigs() {
    let mut ws = NxWorkspace::new("/w".to_string());
    let entries = vec![
        ProjectEntry {
            project_root: "/w/app".to_string(),
            config: config("app"),
            ts_config: Some(TSConfig::empty()),
            extended: None,
            files: vec![
                "/w/app/src/main.ts".to_string(),
                "/w/app/node_modules/x.ts".to_string(),
            ],
        },
        ProjectEntry {
            project_root: "/w/docs".to_string(),
            config: config("docs"),
            ts_config: None,
            extended: None,
            files: vec!["/w/docs/readme.ts".to_string()],
        },
    ];
    ws.load_configuration(entries);
    let projects = ws.get_projects();
    let app: &NxProject = projects.get("/w/app").unwrap();
    assert_eq!(app.name.as_str(), "app");
    assert_eq!(app.files, vec!["/w/app/src/main.ts".to_string()]);
    assert!(projects.get("/w/docs").is_none());
}

#[test]
fn extended_tsconfig_fills_gaps_only() {
    let ws = NxWorkspace::new("/w".to_string());
    let current = TSConfig {
        compiler_options: Some(CompilerOptions {
            base_url: None,
            paths: Some(vec![(
                "@app/".to_string(),
                vec!["src/app/*".to_string()],
            )]),
        }),
        extends: Some("../tsconfig.base.json".to_string()),
    };
    let extended = TSConfig {
        compiler_options: Some(CompilerOptions {
            base_url: Some(".".to_string()),
            paths: Some(vec![
                ("@app/".to_string(), vec!["elsewhere/*".to_string()]),
                ("@lib/".to_string(), vec!["libs/*".to_string()]),
            ]),
        }),
        extends: None,
    };
    let resolved = ws.resolve_extended_tsconfig(&current, Some(&extended));
    let options = resolved.compiler_options.unwrap();
    // The base URL was unset and is taken over.
    assert_eq!(options.base_url.as_deref(), Some("."));
    let table = options.paths.unwrap();
    // The current entry for `@app/` wins; the new `@lib/` key is appended.
    assert_eq!(table.len(), 2);
    assert_eq!(table[0].0.as_str(), "@app/");
    assert_eq!(table[0].1, vec!["src/app/*".to_string()]);
    assert_eq!(table[1].0.as_str(), "@lib/");

    // Without an `extends` clause nothing is merged.
    let plain = TSConfig::empty();
    let untouched = ws.resolve_extended_tsconfig(&plain, Some(&extended));
    assert!(untouched.compiler_options.is_none());

    let sibling_fs = FileSystem::new(vec!["/w/app/tsconfig.json".to_string()], Vec::new());
    assert_eq!(
        NxWorkspace::get_sibling("/w/app/project.json", "tsconfig.json", &sibling_fs)
            .as_deref(),
        Some("/w/app/tsconfig.json")
    );
    assert!(NxWorkspace::get_sibling("/w/app/project.json", "missing.json", &sibling_fs)
        .is_none());
}
