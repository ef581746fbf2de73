use deadpy::parser::{is_whitelisted_dunder, parse_source, analyze_tree, DefinitionKind, FileAnalysis};
use deadpy::syntax::SyntaxNode;

fn parse(code: &str) -> FileAnalysis {
    match parse_source("test.py", code) {
        Ok(a) => a,
        Err(_) => panic!("parse failed"),
    }
}

#[test]
fn test_function_definition() {
    let analysis = parse("def foo():\n    pass\n");
    assert_eq!(analysis.definitions.len(), 1);
    assert_eq!(analysis.definitions[0].name, "foo");
    assert_eq!(analysis.definitions[0].kind, DefinitionKind::Function);
}

#[test]
fn test_class_definition() {
    let analysis = parse("class MyClass:\n    pass\n");
    assert_eq!(analysis.definitions.len(), 1);
    assert_eq!(analysis.definitions[0].name, "MyClass");
    assert_eq!(analysis.definitions[0].kind, DefinitionKind::Class);
}

#[test]
fn test_method_definition() {
    let analysis = parse("class Foo:\n    def bar(self):\n        pass\n");
    let methods: Vec<_> = analysis
        .definitions
        .iter()
        .filter(|d| d.kind == DefinitionKind::Method)
        .collect();
    assert_eq!(methods.len(), 1);
    assert_eq!(methods[0].name, "bar");
    assert_eq!(methods[0].qualified_name, "Foo.bar");
}

#[test]
fn test_all_exports_not_in_references() {
    let analysis = parse(
        r#"
__all__ = ["foo", "bar"]

def foo():
    pass

def bar():
    pass
"#,
    );
    assert_eq!(analysis.all_exports, vec!["foo", "bar"]);
    assert!(!analysis.references.contains("foo"));
    assert!(!analysis.references.contains("bar"));
}

#[test]
fn test_import_adds_reference() {
    let analysis = parse("from os.path import join\n\njoin('a', 'b')\n");
    assert!(analysis.references.contains("join"));
    assert!(analysis.references.contains("os"));
    assert!(analysis.references.contains("path"));
}

#[test]
fn test_attribute_references() {
    let analysis = parse("import os\nos.path.join('a', 'b')\n");
    assert!(analysis.references.contains("os"));
    assert!(analysis.references.contains("path"));
    assert!(analysis.references.contains("join"));
}

#[test]
fn test_decorated_function() {
    let analysis = parse("@router.get\ndef endpoint():\n    pass\n");
    assert_eq!(analysis.definitions.len(), 1);
    assert!(!analysis.definitions[0].decorators.is_empty());
    let dec = &analysis.definitions[0].decorators[0];
    assert!(dec.contains("router"));
}

#[test]
fn test_fstring_interpolation_references() {
    let analysis = parse(
        r#"
def helper(x):
    return x

def main():
    value = 1.5
    result = f"{value:.{helper('fmt')}f}"
    return result
"#,
    );
    assert!(
        analysis.references.contains("helper"),
        "expected 'helper' in references"
    );
}

#[test]
fn test_chained_call_receiver_references() {
    let analysis = parse("A().m()\n");
    assert!(analysis.references.contains("A"), "expected 'A' in references");
    let analysis = parse("f().bit_length()\n");
    assert!(analysis.references.contains("f"), "expected 'f' in references");
    let analysis = parse("items[0].m()\n");
    assert!(analysis.references.contains("items"), "expected 'items' in references");
}

#[test]
fn test_dunder_whitelist() {
    assert!(is_whitelisted_dunder("__init__"));
    assert!(is_whitelisted_dunder("__str__"));
    assert!(!is_whitelisted_dunder("__custom__"));
    assert!(!is_whitelisted_dunder("regular_name"));
}

#[test]
fn definitions_carry_lines_sizes_and_files() {
    let analysis = parse("x = 1\n\nclass K(Base):\n    @staticmethod\n    def m():\n        return 1\n\n_y: int = x\n");
    assert_eq!(analysis.path, "test.py");
    let names: Vec<&str> = analysis.definitions.iter().map(|d| d.name.as_str()).collect();
    assert_eq!(names, vec!["x", "K", "m", "_y"]);
    let x = &analysis.definitions[0];
    assert_eq!((x.kind, x.line, x.size, x.qualified_name.as_str()), (DefinitionKind::Variable, 1, 1, ""));
    let k = &analysis.definitions[1];
    assert_eq!((k.kind, k.line, k.size), (DefinitionKind::Class, 3, 4));
    let m = &analysis.definitions[2];
    assert_eq!((m.kind, m.line, m.size, m.qualified_name.as_str()), (DefinitionKind::Method, 5, 2, "K.m"));
    assert_eq!(m.decorators, vec!["@staticmethod"]);
    assert!(analysis.references.contains("Base"));
    assert!(analysis.references.contains("staticmethod"));
    assert!(analysis.references.contains("int"));
    assert!(analysis.references.contains("x"));
    assert!(m.file == "test.py" && m.confidence == 60);
}

#[test]
fn nested_definitions_are_not_recorded() {
    let analysis = parse("def outer():\n    def inner():\n        pass\n    return inner\n");
    let names: Vec<&str> = analysis.definitions.iter().map(|d| d.name.as_str()).collect();
    assert_eq!(names, vec!["outer"]);
    assert!(analysis.references.contains("inner"));
}

#[test]
fn plain_strings_and_comments_are_not_references() {
    let analysis = parse("# hidden\nprint(\"secret_name\")\n");
    assert!(analysis.references.contains("print"));
    assert!(!analysis.references.contains("secret_name"));
    assert!(!analysis.references.contains("hidden"));
}

#[test]
fn all_entries_from_tuple_and_empty_string() {
    let analysis = parse("__all__ = ('a', \"\")\n");
    assert_eq!(analysis.all_exports, vec!["a", ""]);
    assert!(analysis.definitions.is_empty());
}

#[test]
fn hand_built_tree_is_analyzed() {
    let ident = |text: &str, field: Option<&str>| SyntaxNode {
        kind: "identifier".to_string(),
        field: field.map(|f| f.to_string()),
        text: text.to_string(),
        start_row: 0,
        end_row: 0,
        children: Vec::new(),
    };
    let func = SyntaxNode {
        kind: "function_definition".to_string(),
        field: None,
        text: "def f(): g".to_string(),
        start_row: 4,
        end_row: 6,
        children: vec![
            ident("f", Some("name")),
            SyntaxNode {
                kind: "block".to_string(),
                field: Some("body".to_string()),
                text: "g".to_string(),
                start_row: 5,
                end_row: 6,
                children: vec![ident("g", None)],
            },
        ],
    };
    let root = SyntaxNode {
        kind: "module".to_string(),
        field: None,
        text: String::new(),
        start_row: 0,
        end_row: 6,
        children: vec![func],
    };
    let analysis = analyze_tree("m.py", &root);
    assert_eq!(analysis.definitions.len(), 1);
    assert_eq!(analysis.definitions[0].line, 5);
    assert_eq!(analysis.definitions[0].size, 3);
    assert_eq!(analysis.definitions[0].file, "m.py");
    assert!(analysis.references.contains("g"));
    assert!(!analysis.references.contains("f"));
}

fn leaf(kind: &str, text: &str, field: Option<&str>) -> SyntaxNode {
    SyntaxNode {
        kind: kind.to_string(),
        field: field.map(|f| f.to_string()),
        text: text.to_string(),
        start_row: 2,
        end_row: 2,
        children: Vec::new(),
    }
}

fn assignment_module(target: &str) -> SyntaxNode {
    let assignment = SyntaxNode {
        kind: "assignment".to_string(),
        field: None,
        text: String::new(),
        start_row: 2,
        end_row: 2,
        children: vec![leaf("identifier", target, Some("left")), leaf("=", "=", None), leaf("identifier", "value", Some("right"))],
    };
    let statement = SyntaxNode {
        kind: "expression_statement".to_string(),
        field: None,
        text: String::new(),
        start_row: 2,
        end_row: 2,
        children: vec![assignment],
    };
    SyntaxNode {
        kind: "module".to_string(),
        field: None,
        text: String::new(),
        start_row: 0,
        end_row: 3,
        children: vec![statement],
    }
}

#[test]
fn variables_need_a_letter_or_underscore_first() {
    let a = analyze_tree("m.py", &assignment_module("9lives"));
    assert!(a.definitions.is_empty());
    assert!(a.references.contains("value"));
    let a = analyze_tree("m.py", &assignment_module("\u{e9}t\u{e9}"));
    assert_eq!(a.definitions.len(), 1);
    assert_eq!(a.definitions[0].line, 3);
    assert_eq!(a.definitions[0].kind, DefinitionKind::Variable);
    let a = parse("\u{e9}t\u{e9} = 1\n");
    assert_eq!(a.definitions.len(), 1);
    assert_eq!(a.definitions[0].name, "\u{e9}t\u{e9}");
}

#[test]
fn kind_names() {
    assert_eq!(DefinitionKind::Function.as_str(), "function");
    assert_eq!(DefinitionKind::Class.as_str(), "class");
    assert_eq!(DefinitionKind::Method.as_str(), "method");
    assert_eq!(DefinitionKind::Variable.as_str(), "variable");
    assert_eq!(DefinitionKind::Import.as_str(), "import");
}

#[test]
fn imports_are_recorded_as_definitions() {
    let analysis = parse("import os\nimport numpy as np\nfrom m import y as z\nfrom os.path import join\n");
    let imports: Vec<(&str, usize)> = analysis
        .definitions
        .iter()
        .filter(|d| d.kind == DefinitionKind::Import)
        .map(|d| (d.name.as_str(), d.line))
        .collect();
    assert_eq!(imports, vec![("os", 1), ("np", 2), ("z", 3), ("join", 4)]);
    for d in &analysis.definitions {
        assert_eq!(d.qualified_name, "");
        assert_eq!(d.size, 1);
        assert_eq!(d.confidence, 60);
        assert_eq!(d.file, "test.py");
    }
}

#[test]
fn an_import_references_every_name_in_it() {
    let analysis = parse("import os\nimport numpy as np\nimport a.b\nfrom m import y as z\n");
    for name in ["os", "numpy", "np", "a", "b", "m", "y"] {
        assert!(analysis.references.contains(name));
    }
    assert!(!analysis.references.contains("z"));
}

#[test]
fn an_unused_import_is_reported() {
    let analysis = parse("from m import y as z\nfrom m import w as v\nv()\n");
    let mut config = deadpy::config::Config::default();
    config.report = vec!["import".to_string()];
    let findings = deadpy::analysis::analyze(&[analysis], &deadpy::names::NameSet::new(), &config);
    assert_eq!(findings.len(), 1);
    assert_eq!(findings[0].definition.name, "z");
    assert_eq!(findings[0].definition.kind, DefinitionKind::Import);
}

#[test]
fn parsing_succeeds_on_any_text() {
    for code in ["", "def (:\n", "\u{0}\u{1}", "class", "@@@\n"] {
        assert!(parse_source("x.py", code).is_ok());
    }
}
