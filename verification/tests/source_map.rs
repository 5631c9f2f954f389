use ferrite::source_map::{vlq_encode, SourceMap};
use ferrite::token::Span;

#[test]
fn vlq_zero() {
    assert_eq!(vlq_encode(0), "A");
}

#[test]
fn vlq_one() {
    assert_eq!(vlq_encode(1), "C");
}

#[test]
fn vlq_minus_one() {
    assert_eq!(vlq_encode(-1), "D");
}

#[test]
fn vlq_fifteen() {
    assert_eq!(vlq_encode(15), "e");
}

#[test]
fn vlq_sixteen() {
    assert_eq!(vlq_encode(16), "gB");
}

#[test]
fn vlq_large_values() {
    assert_eq!(vlq_encode(1000), "w+B");
    assert_eq!(vlq_encode(-1000), "x+B");
}

#[test]
fn byte_to_line_col_simple() {
    let sm = SourceMap::new("hello\nworld\n", "test.ts");
    assert_eq!(sm.byte_to_line_col(0), (0, 0));
    assert_eq!(sm.byte_to_line_col(4), (0, 4));
    assert_eq!(sm.byte_to_line_col(5), (0, 5)); // \n
    assert_eq!(sm.byte_to_line_col(6), (1, 0));
    assert_eq!(sm.byte_to_line_col(10), (1, 4));
}

#[test]
fn single_mapping_json() {
    let mut sm = SourceMap::new("let x = 1;\n", "input.ts");
    sm.add_mapping(0, 0, Span::new(0, 11));
    let json = sm.to_json("output.js");
    assert!(json.contains("\"version\":3"));
    assert!(json.contains("\"file\":\"output.js\""));
    assert!(json.contains("\"sources\":[\"input.ts\"]"));
    assert!(json.contains("\"mappings\":\""));
}

#[test]
fn multiple_mappings_encode() {
    let mut sm = SourceMap::new("let a = 1;\nlet b = 2;\n", "input.ts");
    sm.add_mapping(0, 0, Span::new(0, 11));
    sm.add_mapping(1, 0, Span::new(11, 22));
    let json = sm.to_json("out.js");
    // Should have a semicolon separating line 0 and line 1
    let mappings_start = json.find("\"mappings\":\"").unwrap() + 12;
    let mappings_end = json[mappings_start..].find('"').unwrap() + mappings_start;
    let mappings = &json[mappings_start..mappings_end];
    assert!(mappings.contains(';'), "expected semicolon in mappings: {mappings}");
}

#[test]
fn source_map_is_valid_json() {
    let mut sm = SourceMap::new("x;\n", "a.ts");
    sm.add_mapping(0, 0, Span::new(0, 2));
    let json = sm.to_json("a.js");
    assert!(json.starts_with('{'));
    assert!(json.ends_with('}'));
    assert!(json.contains("\"version\":3"));
    assert!(json.contains("\"mappings\":\""));
    assert!(json.contains("\"sources\":[\"a.ts\"]"));
    assert!(json.contains("\"file\":\"a.js\""));
}

#[test]
fn mappings_exact_text() {
    let mut sm = SourceMap::new("let a = 1;\nlet b = 2;\n", "in.ts");
    sm.add_mapping(0, 0, Span::new(0, 10));
    sm.add_mapping(0, 4, Span::new(4, 5));
    sm.add_mapping(2, 0, Span::new(11, 21));
    assert_eq!(
        sm.to_json("out.js"),
        "{\"version\":3,\"file\":\"out.js\",\"sources\":[\"in.ts\"],\"names\":[],\"mappings\":\"AAAA,IAAI;;AACJ\"}"
    );
}

#[test]
fn mappings_start_a_line_without_comma() {
    let mut sm = SourceMap::new("let a = 1;\nlet b = 2;\n", "input.ts");
    sm.add_mapping(0, 0, Span::new(0, 11));
    sm.add_mapping(1, 0, Span::new(11, 22));
    assert_eq!(
        sm.to_json("out.js"),
        r#"{"version":3,"file":"out.js","sources":["input.ts"],"names":[],"mappings":"AAAA;AACA"}"#
    );
}

#[test]
fn source_names_are_json_escaped() {
    let mut sm = SourceMap::new("x;\n", r"C:\src\a.ts");
    sm.add_mapping(0, 0, Span::new(0, 2));
    assert_eq!(
        sm.to_json("a.js"),
        r#"{"version":3,"file":"a.js","sources":["C:\\src\\a.ts"],"names":[],"mappings":"AAAA"}"#
    );
}
