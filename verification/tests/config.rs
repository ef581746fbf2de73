use deadpy::config::{Config, Overrides, ToolSettings};

#[test]
fn test_default_config() {
    let config = Config::default();
    assert_eq!(config.min_confidence, 60);
    assert_eq!(config.report, vec!["function", "class", "method"]);
    assert!(!config.sort_by_size);
}

#[test]
fn settings_override_defaults() {
    let raw = ToolSettings {
        paths: Some(vec!["src/".to_string()]),
        exclude: Some(vec![".venv/".to_string()]),
        ignore_names: Some(vec!["foo".to_string()]),
        ignore_decorators: Some(vec!["@bar".to_string()]),
        min_confidence: Some(80),
        sort_by_size: Some(true),
        report: Some(vec!["function".to_string()]),
        whitelist: Some(vec!["wl.py".to_string()]),
    };
    let config = Config::from_settings(raw);
    assert_eq!(config.paths, vec!["src/"]);
    assert_eq!(config.exclude, vec![".venv/"]);
    assert_eq!(config.min_confidence, 80);
    assert!(config.sort_by_size);
    assert_eq!(config.report, vec!["function"]);
    assert_eq!(config.whitelist, vec!["wl.py"]);
    assert_eq!(config.ignore_names, vec!["foo"]);
    assert_eq!(config.ignore_decorators, vec!["@bar"]);
}

#[test]
fn absent_settings_keep_defaults() {
    let raw = ToolSettings {
        paths: None,
        exclude: None,
        ignore_names: None,
        ignore_decorators: None,
        min_confidence: None,
        sort_by_size: None,
        report: None,
        whitelist: None,
    };
    let config = Config::from_settings(raw);
    assert_eq!(config.paths, vec!["."]);
    assert!(config.exclude.is_empty());
    assert_eq!(config.min_confidence, 60);
    assert_eq!(config.report, vec!["function", "class", "method"]);
}

#[test]
fn command_line_overrides() {
    let base = Config {
        exclude: vec!["a/".to_string()],
        whitelist: vec!["w.py".to_string()],
        ..Config::default()
    };
    let config = base.with_overrides(Overrides {
        paths: vec!["src".to_string()],
        exclude: vec!["b".to_string()],
        ignore_decorators: vec!["@x".to_string()],
        ignore_names: vec![],
        min_confidence: Some(90),
        whitelist: vec!["v.py".to_string()],
        report: vec![],
        sort_by_size: true,
    });
    assert_eq!(config.paths, vec!["src"]);
    assert_eq!(config.exclude, vec!["a/", "b"]);
    assert_eq!(config.ignore_decorators, vec!["@x"]);
    assert!(config.ignore_names.is_empty());
    assert_eq!(config.min_confidence, 90);
    assert_eq!(config.whitelist, vec!["w.py", "v.py"]);
    assert_eq!(config.report, vec!["function", "class", "method"]);
    assert!(config.sort_by_size);
    let unchanged = Config::default().with_overrides(Overrides {
        paths: vec![],
        exclude: vec![],
        ignore_decorators: vec![],
        ignore_names: vec![],
        min_confidence: None,
        whitelist: vec![],
        report: vec!["class".to_string()],
        sort_by_size: false,
    });
    assert_eq!(unchanged.paths, vec!["."]);
    assert_eq!(unchanged.report, vec!["class"]);
    assert_eq!(unchanged.min_confidence, 60);
    assert!(!unchanged.sort_by_size);
}
