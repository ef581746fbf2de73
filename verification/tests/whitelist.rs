use deadpy::whitelist::parse_whitelist_file;

#[test]
fn test_parse_whitelist_with_imports() {
    let source = "from myapp.utils.formatting import pretty_print\nfrom myapp.models import Account\n";
    let refs = match parse_whitelist_file("wl.py", source) {
        Ok(r) => r,
        Err(_) => panic!("parse failed"),
    };
    assert!(refs.contains("pretty_print"));
    assert!(refs.contains("Account"));
}

#[test]
fn test_parse_whitelist_with_attribute_access() {
    let source = "from myapp.client import APIClient\nAPIClient.async_get\n";
    let refs = match parse_whitelist_file("wl.py", source) {
        Ok(r) => r,
        Err(_) => panic!("parse failed"),
    };
    assert!(refs.contains("APIClient"));
    assert!(refs.contains("async_get"));
}

#[test]
fn whitelist_definitions_count_as_names() {
    let refs = match parse_whitelist_file("wl.py", "keep_me = 1\ndef also_kept():\n    pass\n") {
        Ok(r) => r,
        Err(_) => panic!("parse failed"),
    };
    assert!(refs.contains("keep_me"));
    assert!(refs.contains("also_kept"));
    assert!(!refs.contains("missing"));
}
