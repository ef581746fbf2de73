use deadpy::analysis::{analyze, decorator_matches, has_ignored_decorator, build_name_ignore_set, matches_name_ignore};
use deadpy::config::Config;
use deadpy::names::NameSet;
use deadpy::parser::{Definition, DefinitionKind, FileAnalysis};

fn make_def(name: &str, kind: DefinitionKind) -> Definition {
    Definition {
        name: name.to_string(),
        qualified_name: name.to_string(),
        kind,
        file: "test.py".to_string(),
        line: 1,
        size: 1,
        decorators: Vec::new(),
        confidence: 60,
    }
}

fn make_analysis(defs: Vec<Definition>, refs: NameSet) -> FileAnalysis {
    FileAnalysis {
        path: "test.py".to_string(),
        definitions: defs,
        references: refs,
        all_exports: Vec::new(),
    }
}

#[test]
fn test_unused_function_flagged() {
    let analysis = make_analysis(vec![make_def("unused_fn", DefinitionKind::Function)], NameSet::new());
    let config = Config::default();
    let findings = analyze(&[analysis], &NameSet::new(), &config);
    assert_eq!(findings.len(), 1);
    assert_eq!(findings[0].definition.name, "unused_fn");
}

#[test]
fn test_used_function_not_flagged() {
    let mut refs = NameSet::new();
    refs.insert("used_fn".to_string());
    let analysis = make_analysis(vec![make_def("used_fn", DefinitionKind::Function)], refs);
    let config = Config::default();
    let findings = analyze(&[analysis], &NameSet::new(), &config);
    assert!(findings.is_empty());
}

#[test]
fn test_cross_file_reference() {
    let analysis1 = make_analysis(vec![make_def("shared_fn", DefinitionKind::Function)], NameSet::new());
    let mut refs = NameSet::new();
    refs.insert("shared_fn".to_string());
    let analysis2 = make_analysis(Vec::new(), refs);
    let config = Config::default();
    let findings = analyze(&[analysis1, analysis2], &NameSet::new(), &config);
    assert!(findings.is_empty());
}

#[test]
fn analysis_test_whitelist_prevents_flagging() {
    let analysis = make_analysis(vec![make_def("whitelisted", DefinitionKind::Function)], NameSet::new());
    let mut wl = NameSet::new();
    wl.insert("whitelisted".to_string());
    let config = Config::default();
    let findings = analyze(&[analysis], &wl, &config);
    assert!(findings.is_empty());
}

#[test]
fn test_ignore_names() {
    let analysis = make_analysis(vec![make_def("ITEM_FOO", DefinitionKind::Variable)], NameSet::new());
    let config = Config {
        ignore_names: vec!["ITEM_*".to_string()],
        report: vec!["variable".to_string()],
        ..Config::default()
    };
    let findings = analyze(&[analysis], &NameSet::new(), &config);
    assert!(findings.is_empty());
}

#[test]
fn test_ignore_decorators() {
    let mut def = make_def("my_endpoint", DefinitionKind::Function);
    def.decorators = vec!["@router.get".to_string()];
    let analysis = make_analysis(vec![def], NameSet::new());
    let config = Config {
        ignore_decorators: vec!["@router.get".to_string()],
        ..Config::default()
    };
    let findings = analyze(&[analysis], &NameSet::new(), &config);
    assert!(findings.is_empty());
}

#[test]
fn test_dunder_auto_whitelisted() {
    let analysis = make_analysis(vec![make_def("__init__", DefinitionKind::Method)], NameSet::new());
    let config = Config {
        report: vec!["method".to_string()],
        ..Config::default()
    };
    let findings = analyze(&[analysis], &NameSet::new(), &config);
    assert!(findings.is_empty());
}

#[test]
fn test_report_filter() {
    let analysis = make_analysis(
        vec![
            make_def("unused_fn", DefinitionKind::Function),
            make_def("UnusedClass", DefinitionKind::Class),
        ],
        NameSet::new(),
    );
    let config = Config {
        report: vec!["function".to_string()],
        ..Config::default()
    };
    let findings = analyze(&[analysis], &NameSet::new(), &config);
    assert_eq!(findings.len(), 1);
    assert_eq!(findings[0].definition.name, "unused_fn");
}

#[test]
fn test_decorator_matching() {
    assert!(decorator_matches("router.get", "router.get"));
    assert!(decorator_matches("router.get(\"/path\")", "router.get"));
    assert!(!decorator_matches("router.post", "router.get"));
    assert!(decorator_matches("app.command", "app.command"));
}

#[test]
fn decorator_matching_continuations_and_spaces() {
    assert!(decorator_matches("  router.get.sub ", "router.get"));
    assert!(!decorator_matches("router.getter", "router.get"));
    assert!(!decorator_matches("(router.get)", "router.get"));
    assert!(decorator_matches("router.get\t(\"/x\")", "router.get"));
}

#[test]
fn ignored_decorator_strips_at_signs() {
    let decorators = vec!["@@app.route(\"/\")".to_string()];
    assert!(has_ignored_decorator(&decorators, &["app.route".to_string()]));
    assert!(!has_ignored_decorator(&decorators, &["@app.route".to_string()]));
    assert!(!has_ignored_decorator(&[], &["app.route".to_string()]));
}

#[test]
fn name_ignore_skips_bad_patterns() {
    assert!(build_name_ignore_set(&[]).is_none());
    let set = build_name_ignore_set(&["[".to_string(), "test_*".to_string()]);
    assert!(matches_name_ignore("test_one", &set));
    assert!(!matches_name_ignore("other", &set));
    assert!(!matches_name_ignore("test_one", &None));
}

#[test]
fn qualified_name_reference_saves_method() {
    let mut def = make_def("run", DefinitionKind::Method);
    def.qualified_name = "Job.run".to_string();
    let mut refs = NameSet::new();
    refs.insert("Job.run".to_string());
    let analysis = make_analysis(vec![def], refs);
    let config = Config { report: vec!["method".to_string()], ..Config::default() };
    assert!(analyze(&[analysis], &NameSet::new(), &config).is_empty());
}

#[test]
fn low_confidence_not_reported() {
    let analysis = make_analysis(vec![make_def("f", DefinitionKind::Function)], NameSet::new());
    let config = Config { min_confidence: 61, ..Config::default() };
    assert!(analyze(&[analysis], &NameSet::new(), &config).is_empty());
    let analysis = make_analysis(vec![make_def("f", DefinitionKind::Function)], NameSet::new());
    let config = Config { min_confidence: 60, ..Config::default() };
    assert_eq!(analyze(&[analysis], &NameSet::new(), &config).len(), 1);
}

#[test]
fn findings_keep_definition_order() {
    let analysis1 = make_analysis(vec![make_def("b", DefinitionKind::Function), make_def("a", DefinitionKind::Function)], NameSet::new());
    let analysis2 = make_analysis(vec![make_def("c", DefinitionKind::Class)], NameSet::new());
    let findings = analyze(&[analysis1, analysis2], &NameSet::new(), &Config::default());
    let names: Vec<&str> = findings.iter().map(|f| f.definition.name.as_str()).collect();
    assert_eq!(names, vec!["b", "a", "c"]);
}

#[test]
fn more_whitelisted_names_never_add_findings() {
    let defs = || vec![make_def("a", DefinitionKind::Function), make_def("b", DefinitionKind::Function)];
    let config = Config::default();
    let mut small = NameSet::new();
    small.insert("a".to_string());
    let mut large = NameSet::new();
    large.insert("a".to_string());
    large.insert("b".to_string());
    let with_small = analyze(&[make_analysis(defs(), NameSet::new())], &small, &config);
    let with_large = analyze(&[make_analysis(defs(), NameSet::new())], &large, &config);
    assert_eq!(with_small.len(), 1);
    assert_eq!(with_small[0].definition.name, "b");
    assert!(with_large.is_empty());
}
