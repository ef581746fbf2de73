use deadpy::discovery::{build_exclude_set, exclude_pattern, select_python_files, Candidate};

fn candidate(path: &str, is_file: bool, ext: Option<&str>) -> Candidate {
    Candidate { path: path.to_string(), is_file, extension: ext.map(|e| e.to_string()) }
}

#[test]
fn exclude_patterns_become_globs() {
    assert_eq!(exclude_pattern(".venv/"), "**/.venv/**");
    assert_eq!(exclude_pattern("__pycache__"), "**/__pycache__/**");
    assert_eq!(exclude_pattern("*scratch*"), "**/*scratch*");
    assert_eq!(exclude_pattern("a?c"), "**/a?c");
}

#[test]
fn selects_python_files_in_path_order() {
    let set = match build_exclude_set(&[".venv/".to_string(), "__pycache__".to_string()]) {
        Ok(s) => s,
        Err(_) => panic!("bad patterns"),
    };
    let cands = vec![
        candidate("/p/sub/baz.py", true, Some("py")),
        candidate("/p/good.py", true, Some("py")),
        candidate("/p/bar.txt", true, Some("txt")),
        candidate("/p/sub", false, None),
        candidate("/p/.venv/bad.py", true, Some("py")),
        candidate("/p/__pycache__/cached.py", true, Some("py")),
    ];
    let files = select_python_files(&cands, &set);
    assert_eq!(files, vec!["/p/good.py", "/p/sub/baz.py"]);
}

#[test]
fn bad_exclude_pattern_is_an_error() {
    assert!(build_exclude_set(&["[".to_string()]).is_err());
    assert!(build_exclude_set(&[]).is_ok());
}
