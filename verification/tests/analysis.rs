use nx_analyzer::ng_analyzers::{
    apply_decorator_analysis, DecoratorAnalysis, DecoratorAnalyzer, DecoratorProps,
    NgComponentAnalyzer, NgModuleAnalyzer, NgPipeAnalyzer, NgServiceAnalyzer, PropValue,
    template_file_path,
};
use nx_analyzer::ng_dependency::NgDependencyAnalyzer;
use nx_analyzer::ng_maps::{NgPathMap, NgSelectorMaps};
use nx_analyzer::ng_models::{NgComponentInfo, NgOtherInfo, NgPipeInfo};
use nx_analyzer::ng_processor::NgAnalysisProcessor;
use nx_analyzer::ng_reporter::NgReporter;
use nx_analyzer::ng_results::NgAnalysisResults;
use nx_analyzer::ng_template::TemplateParser;
use nx_analyzer::imports::{ImportKind, ImportType, ImportedItem, ResolvedImport};

#[test]
fn test_template_parsing() {
    let template = r#"
            <app-header [title]="'Welcome'">
                <div *ngIf="showContent">
                    {{ value | uppercase | date }}
                    <custom-element [ngClass]="classes">
                        <ng-container *ngFor="let item of items">
                            {{ item.name | titlecase }}
                        </ng-container>
                    </custom-element>
                </div>
            </app-header>
        "#;

    let parser = TemplateParser::new();
    let usage = parser.parse_template(template);

    assert!(usage.components.contains(&"app-header".to_string()));
    assert!(usage.components.contains(&"custom-element".to_string()));
    assert!(usage.directives.contains(&"ngIf".to_string()));
    assert!(usage.directives.contains(&"ngFor".to_string()));
    assert!(usage.directives.contains(&"ngClass".to_string()));
    assert!(usage.pipes.contains(&"uppercase".to_string()));
    assert!(usage.pipes.contains(&"titlecase".to_string()));
    assert!(usage.pipes.contains(&"date".to_string()));
}

#[test]
fn template_scanner_details() {
    let parser = TemplateParser::new();
    // `ng-container` is a tag with a dash and counts as a component use;
    // a bare `<div>` does not.
    let usage = parser.parse_template("<div><ng-container></ng-container></div>");
    assert_eq!(usage.components, vec!["ng-container".to_string()]);
    // Repeated uses are listed once.
    let usage2 = parser.parse_template("<a-b></a-b><a-b/> | pipe1 | pipe1");
    assert_eq!(usage2.components, vec!["a-b".to_string()]);
    assert_eq!(usage2.pipes, vec!["pipe1".to_string()]);
    // A tag whose dash has nothing after it is not a component name.
    let usage3 = parser.parse_template("<ab- <x1-y");
    assert!(usage3.components.contains(&"x1-y".to_string()));
    assert_eq!(usage3.components.len(), 1);
    // An attribute directive needs its closing bracket.
    let usage4 = parser.parse_template("[ngModel] [ngOops");
    assert_eq!(usage4.directives, vec!["ngModel".to_string()]);
}

fn props(entries: Vec<(&str, PropValue)>) -> DecoratorProps {
    DecoratorProps { props: entries.into_iter().map(|(k, v)| (k.to_string(), v)).collect() }
}

#[test]
fn decorator_prop_lookups() {
    let p = props(vec![
        ("selector", PropValue::Str("app-x".to_string())),
        ("standalone", PropValue::Truth(true)),
        ("styleUrls", PropValue::StrArray(vec!["a.css".to_string()])),
        ("declarations", PropValue::IdentArray(vec!["Comp".to_string()])),
    ]);
    assert_eq!(
        DecoratorAnalyzer::get_string_prop(&p, "selector").as_deref(),
        Some("app-x")
    );
    assert_eq!(DecoratorAnalyzer::get_string_prop(&p, "missing"), None);
    assert_eq!(DecoratorAnalyzer::get_bool_prop(&p, "standalone"), Some(true));
    assert_eq!(DecoratorAnalyzer::get_string_array_prop(&p, "styleUrls"), vec![
        "a.css".to_string()
    ]);
    assert_eq!(DecoratorAnalyzer::get_ident_array_prop(&p, "declarations"), vec![
        "Comp".to_string()
    ]);
    assert!(DecoratorAnalyzer::get_string_array_prop(&p, "declarations").is_empty());
}

#[test]
fn pipe_and_service_analyzers() {
    let analysis = DecoratorAnalysis {
        name: "Pipe".to_string(),
        raw_props: Some(props(vec![("name", PropValue::Str("shorten".to_string()))])),
    };
    let pipe = NgPipeAnalyzer::analyze(
        &analysis,
        "/w/src/p.ts",
        "/w",
        "ShortenPipe",
        &"pkg".to_string(),
        Vec::new(),
    )
    .unwrap();
    assert_eq!(pipe.name.as_str(), "shorten");
    assert!(pipe.pure);
    assert!(!pipe.standalone);
    assert_eq!(pipe.base.relative_path.as_str(), "src/p.ts");

    // The wrong decorator name analyzes to nothing.
    assert!(NgServiceAnalyzer::analyze(
        &analysis,
        "/w/src/p.ts",
        "/w",
        "ShortenPipe",
        &"pkg".to_string(),
        &Vec::new(),
    )
    .is_none());

    let svc_analysis = DecoratorAnalysis {
        name: "Injectable".to_string(),
        raw_props: Some(props(vec![])),
    };
    let svc = NgServiceAnalyzer::analyze(
        &svc_analysis,
        "/w/src/s.ts",
        "/w",
        "DataService",
        &"pkg".to_string(),
        &Vec::new(),
    )
    .unwrap();
    assert_eq!(svc.provided_in.as_str(), "root");
}

#[test]
fn module_and_component_analyzers() {
    let m_analysis = DecoratorAnalysis {
        name: "NgModule".to_string(),
        raw_props: Some(props(vec![(
            "declarations",
            PropValue::IdentArray(vec!["A".to_string(), "B".to_string()]),
        )])),
    };
    let module = NgModuleAnalyzer::analyze(
        &m_analysis,
        "/w/src/m.ts",
        "/w",
        "AppModule",
        &"pkg".to_string(),
    )
    .unwrap();
    assert_eq!(module.declarations, vec!["A".to_string(), "B".to_string()]);
    assert!(module.exports.is_empty());

    let c_analysis = DecoratorAnalysis {
        name: "Component".to_string(),
        raw_props: Some(props(vec![
            ("selector", PropValue::Str("app-root".to_string())),
            ("templateUrl", PropValue::Str("./app.html".to_string())),
        ])),
    };
    let component = NgComponentAnalyzer::analyze(
        &c_analysis,
        "/w/src/app.ts",
        "/w",
        "AppComponent",
        &"pkg".to_string(),
        Vec::new(),
        Some("<app-child></app-child> {{ x | fmt }}"),
    )
    .unwrap();
    assert_eq!(component.selector.as_str(), "app-root");
    assert_eq!(component.template_path.as_str(), "./app.html");
    assert!(component.template_usages.components.contains(&"app-child".to_string()));
    assert!(component.template_usages.pipes.contains(&"fmt".to_string()));

    assert_eq!(
        template_file_path("/w/src/app.ts", "./app.html").unwrap().as_str(),
        "/w/src/./app.html"
    );
}

#[test]
fn decorator_dispatch_fills_the_right_list() {
    let mut results = NgAnalysisResults::new();
    let c_analysis = DecoratorAnalysis {
        name: "Component".to_string(),
        raw_props: Some(props(vec![("selector", PropValue::Str("app-a".to_string()))])),
    };
    let p_analysis = DecoratorAnalysis {
        name: "Pipe".to_string(),
        raw_props: Some(props(vec![("name", PropValue::Str("p".to_string()))])),
    };
    let unknown = DecoratorAnalysis { name: "Unknown".to_string(), raw_props: None };
    apply_decorator_analysis(
        &mut results,
        &c_analysis,
        "/w/a.ts",
        "/w",
        "A",
        &"pkg".to_string(),
        &Vec::new(),
        None,
    );
    apply_decorator_analysis(
        &mut results,
        &p_analysis,
        "/w/p.ts",
        "/w",
        "P",
        &"pkg".to_string(),
        &Vec::new(),
        None,
    );
    apply_decorator_analysis(
        &mut results,
        &unknown,
        "/w/u.ts",
        "/w",
        "U",
        &"pkg".to_string(),
        &Vec::new(),
        None,
    );
    assert_eq!(results.components.len(), 1);
    assert_eq!(results.pipes.len(), 1);
    assert!(results.services.is_empty());
    assert!(results.modules.is_empty());
    assert!(results.directives.is_empty());
}

fn import_of(rel: &str) -> ResolvedImport {
    ResolvedImport {
        source: rel.to_string(),
        resolved_path: format!("/w/{rel}"),
        relative_path: rel.to_string(),
        import_type: ImportType::Relative,
        imported_item: ImportedItem {
            name: "X".to_string(),
            alias: None,
            import_kind: ImportKind::Named,
        },
    }
}

#[test]
fn dependency_analysis_attaches_references() {
    let mut results = NgAnalysisResults::new();
    // `a` uses `b-sel` in its template and imports `b.ts`; `c.ts` is a
    // plain file outside the path map and collects nothing.
    let mut a = NgComponentInfo::new(
        "A".to_string(),
        "a-sel".to_string(),
        String::new(),
        Vec::new(),
        false,
        vec![import_of("b.ts")],
        "/w/a.ts".to_string(),
        "a.ts".to_string(),
        "pkg".to_string(),
    );
    a.template_usages.components.push("b-sel".to_string());
    let b = NgComponentInfo::new(
        "B".to_string(),
        "b-sel".to_string(),
        String::new(),
        Vec::new(),
        false,
        Vec::new(),
        "/w/b.ts".to_string(),
        "b.ts".to_string(),
        "pkg".to_string(),
    );
    let c = NgOtherInfo::new(
        "C".to_string(),
        Vec::new(),
        "/w/c.ts".to_string(),
        "c.ts".to_string(),
        "pkg".to_string(),
    );
    results.components.push(a);
    results.components.push(b);
    results.others.push(c);

    let processor = NgAnalysisProcessor::new();
    processor.analyze_dependencies(&mut results);

    let b_after = &results.components[1];
    assert_eq!(b_after.base.references.used_by_template, vec!["A:a.ts".to_string()]);
    assert_eq!(b_after.base.references.used_by_imports, vec!["A:a.ts".to_string()]);
    let c_after = &results.others[0];
    assert!(c_after.base.references.used_by_imports.is_empty());
    assert!(c_after.base.references.used_by_template.is_empty());
    let a_after = &results.components[0];
    assert!(a_after.base.references.used_by_template.is_empty());
    assert!(a_after.base.references.used_by_imports.is_empty());
}

#[test]
fn self_references_are_ignored() {
    let mut results = NgAnalysisResults::new();
    let mut a = NgComponentInfo::new(
        "A".to_string(),
        "a-sel".to_string(),
        String::new(),
        Vec::new(),
        false,
        vec![import_of("a.ts")],
        "/w/a.ts".to_string(),
        "a.ts".to_string(),
        "pkg".to_string(),
    );
    a.template_usages.components.push("a-sel".to_string());
    results.components.push(a);
    let processor = NgAnalysisProcessor::new();
    processor.analyze_dependencies(&mut results);
    let a_after = &results.components[0];
    assert!(a_after.base.references.used_by_template.is_empty());
    assert!(a_after.base.references.used_by_imports.is_empty());
}

#[test]
fn selector_maps_last_entry_wins() {
    let mut results = NgAnalysisResults::new();
    for (name, rel) in [("P1", "p1.ts"), ("P2", "p2.ts")] {
        results.pipes.push(NgPipeInfo::new(
            name.to_string(),
            "dup".to_string(),
            true,
            false,
            Vec::new(),
            format!("/w/{rel}"),
            rel.to_string(),
            "pkg".to_string(),
        ));
    }
    let maps = NgSelectorMaps::build_from_results(&results);
    let hit = maps.pipe_selector_map.get("dup").unwrap();
    assert_eq!(hit.base.name.as_str(), "P2");

    let path_map = NgPathMap::build_from_results(&results);
    assert!(path_map.path_map.get("p1.ts").is_some());
    assert!(path_map.path_map.get("p2.ts").is_some());
    assert!(path_map.path_map.get("q.ts").is_none());
    let _ = NgDependencyAnalyzer::new(maps, path_map);
}

#[test]
fn reporter_selections() {
    let mut results = NgAnalysisResults::new();
    for name in ["A", "B"] {
        results.components.push(NgComponentInfo::new(
            name.to_string(),
            format!("{name}-sel"),
            String::new(),
            Vec::new(),
            false,
            Vec::new(),
            format!("/w/{name}.ts"),
            format!("{name}.ts"),
            "pkg".to_string(),
        ));
    }
    let wanted = vec!["B".to_string(), "Z".to_string()];
    let picked = NgReporter::filter_components(&results, &wanted);
    assert_eq!(picked.len(), 1);
    assert_eq!(picked[0].base.name.as_str(), "B");
    let missing = NgReporter::missing_components(&results, &wanted);
    assert_eq!(missing, vec!["Z".to_string()]);
}
