use deadpy::analysis::Finding;
use deadpy::output::{format_findings, sort_findings, OutputFormat};
use deadpy::parser::{Definition, DefinitionKind};

fn make_finding(name: &str, line: usize, size: usize) -> Finding {
    Finding {
        definition: Definition {
            name: name.to_string(),
            qualified_name: name.to_string(),
            kind: DefinitionKind::Function,
            file: "test.py".to_string(),
            line,
            size,
            decorators: Vec::new(),
            confidence: 60,
        },
    }
}

fn finding_in(file: &str, name: &str, line: usize) -> Finding {
    let mut f = make_finding(name, line, 1);
    f.definition.file = file.to_string();
    f
}

#[test]
fn test_text_format() {
    let findings = vec![make_finding("foo", 10, 5)];
    let output = format_findings(&findings, OutputFormat::Text, false);
    assert_eq!(output, "test.py:10: unused function 'foo' (60% confidence)\n");
}

#[test]
fn test_count_format() {
    let findings = vec![make_finding("a", 1, 1), make_finding("b", 2, 1)];
    let output = format_findings(&findings, OutputFormat::Count, false);
    assert_eq!(output, "2\n");
}

#[test]
fn test_sort_by_size() {
    let findings = vec![make_finding("small", 1, 3), make_finding("big", 2, 30)];
    let output = format_findings(&findings, OutputFormat::Text, true);
    assert!(output.starts_with("test.py:2: unused function 'big'"));
}

#[test]
fn test_json_format() {
    let findings = vec![make_finding("foo", 10, 5)];
    let output = format_findings(&findings, OutputFormat::Json, false);
    assert!(output.contains("\"name\": \"foo\""));
    assert!(output.contains("\"line\": 10"));
}

#[test]
fn json_format_exact() {
    let findings = vec![make_finding("foo", 10, 5), make_finding("bar", 12, 1)];
    let output = format_findings(&findings, OutputFormat::Json, false);
    assert_eq!(
        output,
        "[\n  {\"file\": \"test.py\", \"line\": 10, \"kind\": \"function\", \"name\": \"foo\", \"confidence\": 60, \"size\": 5},\n  {\"file\": \"test.py\", \"line\": 12, \"kind\": \"function\", \"name\": \"bar\", \"confidence\": 60, \"size\": 1}\n]\n"
    );
    assert_eq!(format_findings(&[], OutputFormat::Json, false), "[\n\n]\n");
    assert_eq!(format_findings(&[], OutputFormat::Count, false), "0\n");
    assert_eq!(format_findings(&[], OutputFormat::Text, false), "");
}

#[test]
fn sort_by_file_then_line() {
    let findings = vec![
        finding_in("b.py", "x", 3),
        finding_in("a/b.py", "y", 9),
        finding_in("a-b/c.py", "z", 1),
        finding_in("b.py", "w", 1),
    ];
    let order = sort_findings(&findings, false);
    assert_eq!(order, vec![1, 2, 3, 0]);
    let output = format_findings(&findings, OutputFormat::Text, false);
    assert_eq!(
        output,
        "a/b.py:9: unused function 'y' (60% confidence)\na-b/c.py:1: unused function 'z' (60% confidence)\nb.py:1: unused function 'w' (60% confidence)\nb.py:3: unused function 'x' (60% confidence)\n"
    );
}

#[test]
fn size_sort_is_stable() {
    let findings = vec![make_finding("a", 1, 2), make_finding("b", 2, 7), make_finding("c", 3, 2), make_finding("d", 4, 7)];
    assert_eq!(sort_findings(&findings, true), vec![1, 3, 0, 2]);
}

#[test]
fn parse_output_format_names() {
    assert_eq!(OutputFormat::parse("TEXT"), Ok(OutputFormat::Text));
    assert_eq!(OutputFormat::parse("Json"), Ok(OutputFormat::Json));
    assert_eq!(OutputFormat::parse("count"), Ok(OutputFormat::Count));
    assert_eq!(OutputFormat::parse("XML"), Err("unknown output format: xml".to_string()));
    assert_eq!("json".parse::<OutputFormat>(), Ok(OutputFormat::Json));
    assert_eq!(OutputFormat::from_lowercase("Text"), Err("unknown output format: Text".to_string()));
    assert_eq!(OutputFormat::Count.name(), "count");
    assert_eq!(OutputFormat::default(), OutputFormat::Text);
}

#[test]
fn format_names_parse_back() {
    for f in [OutputFormat::Text, OutputFormat::Json, OutputFormat::Count] {
        assert_eq!(f.name().parse::<OutputFormat>(), Ok(f));
    }
}
