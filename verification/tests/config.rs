use ferrite::config::{quote_keys, resolve_path_alias, CompilerOptions};

fn options(paths: Vec<(&str, &str)>) -> CompilerOptions {
    let mut o = CompilerOptions::default();
    o.base_url = Some(".".to_string());
    o.paths = Some(paths.into_iter().map(|(p, t)| (p.to_string(), vec![t.to_string()])).collect());
    o
}

#[test]
fn quote_keys_keeps_other_text() {
    assert_eq!(quote_keys(r#"name: "my app""#), r#""name": "my app""#);
    assert_eq!(quote_keys("a : 1, b: two words"), "\"a\" : 1, \"b\": two words");
}

#[test]
fn alias_pattern_needs_its_whole_prefix() {
    let o = options(vec![("@/*", "src/*")]);
    assert_eq!(resolve_path_alias("@types/node", "@types/node", &o), None);
    assert_eq!(resolve_path_alias("@/utils", "@/utils", &o), Some("./src/utils".to_string()));
}

#[test]
fn longest_alias_prefix_wins() {
    let o = options(vec![("@/*", "src/*"), ("@/lib/*", "lib/*")]);
    assert_eq!(resolve_path_alias("@/lib/x", "@/lib/x", &o), Some("./lib/x".to_string()));
    let o = options(vec![("@/lib/*", "lib/*"), ("@/*", "src/*")]);
    assert_eq!(resolve_path_alias("@/lib/x", "@/lib/x", &o), Some("./lib/x".to_string()));
}
