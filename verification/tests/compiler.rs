use ferrite::compiler::Compiler;
use ferrite::config::CompilerOptions;
use ferrite::loader::{LoadAction, Loader};

/// The files of a project held in memory, looked up with `.` segments
/// removed from the path.
fn read(files: &[(&str, &str)], path: &str) -> Option<String> {
    let mut wanted = path.to_string();
    while wanted.contains("/./") {
        wanted = wanted.replace("/./", "/");
    }
    files.iter().find(|(p, _)| *p == wanted).map(|(_, s)| s.to_string())
}

fn parse_recursive(c: &mut Compiler, files: &[(&str, &str)], path: &str) -> Result<(), Vec<String>> {
    let mut loader = Loader::new(path);
    loop {
        match loader.step(c) {
            LoadAction::Read(key) => {
                let source = read(files, &key).ok_or_else(|| vec![format!("Cannot read '{key}'")])?;
                loader.file_read(c, &source)?;
            }
            LoadAction::Working => {}
            LoadAction::Finished => return Ok(()),
        }
    }
}

/// Builds the project `files` from `entry`, with the given tsconfig
/// options found at `root`.
fn build_with(
    files: &[(&str, &str)],
    entry: &str,
    tsconfig: Option<(CompilerOptions, String)>,
) -> Result<Vec<(String, String)>, Vec<String>> {
    let mut c = Compiler::new();
    c.configure(None, tsconfig);
    parse_recursive(&mut c, files, entry)?;
    c.type_check_all()
}

fn build(files: &[(&str, &str)], entry: &str) -> Result<Vec<(String, String)>, Vec<String>> {
    build_with(files, entry, Some((CompilerOptions::default(), "/proj".to_string())))
}

#[test]
fn compile_single_file() {
    let files = [("/proj/main.ts", "let x: number = 1;\n")];
    let result = build(&files, "/proj/main.ts");
    assert!(result.is_ok(), "errors: {:?}", result.err());
    let outputs = result.unwrap();
    assert_eq!(outputs.len(), 3); // main.js + main.js.map + main.d.ts
    assert!(outputs.iter().any(|(p, _)| p.ends_with(".js")));
    assert!(outputs.iter().any(|(p, _)| p.ends_with(".d.ts")));
}

#[test]
fn compile_with_relative_import() {
    let files = [
        ("/proj/utils.ts", "export function add(a: number, b: number): number {\n  return a + b;\n}\n"),
        ("/proj/main.ts", "import { add } from \"./utils\";\nlet result: number = add(1, 2);\n"),
    ];
    let result = build(&files, "/proj/main.ts");
    assert!(result.is_ok(), "errors: {:?}", result.err());
    let outputs = result.unwrap();
    assert_eq!(outputs.len(), 6); // 2 files × (js + js.map + d.ts)
    let js_files: Vec<_> = outputs.iter().filter(|(p, _)| p.ends_with(".js")).collect();
    assert_eq!(js_files.len(), 2);
    assert!(js_files[0].0.contains("utils"));
    assert!(js_files[1].0.contains("main"));
}

#[test]
fn compile_type_error_across_files() {
    let files = [
        ("/proj/lib.ts", "export function greet(name: string): string {\n  return name;\n}\n"),
        ("/proj/main.ts", "import { greet } from \"./lib\";\nlet n: number = greet(42);\n"),
    ];
    let result = build(&files, "/proj/main.ts");
    assert!(result.is_err(), "should have type errors");
    let errors = result.err().unwrap();
    assert!(!errors.is_empty());
    assert!(errors.iter().any(|e| e.contains("main.ts")));
}

#[test]
fn compile_import_default() {
    let files = [
        ("/proj/mod.ts", "export default function hello(): string {\n  return \"hi\";\n}\n"),
        ("/proj/main.ts", "import hello from \"./mod\";\nlet h: string = hello();\n"),
    ];
    let result = build(&files, "/proj/main.ts");
    assert!(result.is_ok(), "errors: {:?}", result.err());
}

#[test]
fn compile_transitive_imports() {
    let files = [
        ("/proj/a.ts", "export function foo(): number {\n  return 1;\n}\n"),
        (
            "/proj/b.ts",
            "import { foo } from \"./a\";\nexport function bar(): number {\n  return foo();\n}\n",
        ),
        ("/proj/main.ts", "import { bar } from \"./b\";\nlet x: number = bar();\n"),
    ];
    let result = build(&files, "/proj/main.ts");
    assert!(result.is_ok(), "errors: {:?}", result.err());
    let outputs = result.unwrap();
    assert_eq!(outputs.len(), 9); // 3 files × (js + js.map + d.ts)
}

#[test]
fn compile_decl_emit() {
    let files = [(
        "/proj/lib.ts",
        "export function add(a: number, b: number): number { return a + b; }\nexport const PI: number = 3.14;\nexport type ID = string | number;\n",
    )];
    let result = build(&files, "/proj/lib.ts");
    assert!(result.is_ok(), "errors: {:?}", result.err());
    let outputs = result.unwrap();
    assert_eq!(outputs.len(), 3); // lib.js + lib.js.map + lib.d.ts
    let dts = &outputs[2].1;
    assert!(dts.contains("export function add(a: number, b: number): number;"), "d.ts: {dts}");
    assert!(dts.contains("export const PI: number;"), "d.ts: {dts}");
    assert!(dts.contains("export type ID = string | number;"), "d.ts: {dts}");
}

#[test]
fn compile_path_alias() {
    let mut opts = CompilerOptions::default();
    opts.base_url = Some(".".to_string());
    opts.paths = Some(vec![("@/*".to_string(), vec!["src/*".to_string()])]);
    let files = [
        ("/proj/src/utils.ts", "export function add(a: number, b: number): number { return a + b; }\n"),
        ("/proj/src/main.ts", "import { add } from \"@/utils\";\nlet r: number = add(1, 2);\n"),
    ];
    let result = build_with(&files, "/proj/src/main.ts", Some((opts, "/proj".to_string())));
    assert!(result.is_ok(), "errors: {:?}", result.err());
}

#[test]
fn compile_source_map() {
    let files = [(
        "/proj/app.ts",
        "function greet(name: string): string {\n  return \"hello \" + name;\n}\nlet x: number = 42;\n",
    )];
    let result = build(&files, "/proj/app.ts");
    assert!(result.is_ok(), "errors: {:?}", result.err());
    let outputs = result.unwrap();
    assert_eq!(outputs.len(), 3);
    let map = &outputs[1].1;
    assert!(map.contains("\"version\":3"), "missing version: {map}");
    assert!(map.contains("\"sources\":[\""), "missing sources: {map}");
    assert!(map.contains("\"mappings\":\""), "missing mappings: {map}");
    let mappings_start = map.find("\"mappings\":\"").unwrap() + 12;
    let mappings_end = map[mappings_start..].find('"').unwrap() + mappings_start;
    let mappings = &map[mappings_start..mappings_end];
    assert!(mappings.contains(';'), "expected semicolons: {mappings}");
}

#[test]
fn resolve_path_alias_basic() {
    let mut opts = CompilerOptions::default();
    opts.base_url = Some(".".to_string());
    opts.paths = Some(vec![("@/*".to_string(), vec!["src/*".to_string()])]);
    let resolved = ferrite::config::resolve_path_alias("@/utils", "@/utils", &opts);
    assert!(resolved.is_some());
    let resolved_str = resolved.unwrap().replace('\\', "/");
    assert!(resolved_str.ends_with("src/utils"), "got: {resolved_str}");
}

#[test]
fn output_paths_follow_out_dir() {
    let mut c = Compiler::new();
    c.configure(None, Some((CompilerOptions::default(), "/proj".to_string())));
    assert_eq!(c.out_path("/proj/src/a.ts", "js"), "/proj/src/a.js");
    c.out_dir = Some("/proj/dist".to_string());
    assert_eq!(c.out_path("/proj/src/a.ts", "js"), "/proj/dist/src/a.js");
    assert_eq!(c.out_path("/proj/src/a.ts", "d.ts"), "/proj/dist/src/a.d.ts");
    assert_eq!(c.out_path("/proj/src/a.ts", "js.map"), "/proj/dist/src/a.js.map");
}

#[test]
fn parse_errors_are_reported_with_place() {
    let r = Compiler::parse_module("/proj/bad.ts", "+;");
    let errs = r.err().unwrap();
    assert!(!errs.is_empty());
    assert!(errs[0].contains("bad.ts"), "got: {}", errs[0]);
}

/// The paths the loader asks for, in order, and the registered modules.
fn load_trace(files: &[(&str, &str)], entry: &str) -> (Vec<String>, Vec<String>, Result<(), Vec<String>>) {
    let mut c = Compiler::new();
    c.configure(None, Some((CompilerOptions::default(), "/proj".to_string())));
    let mut loader = Loader::new(entry);
    let mut asked = Vec::new();
    let result = loop {
        match loader.step(&mut c) {
            LoadAction::Read(key) => {
                asked.push(key.clone());
                match read(files, &key) {
                    Some(source) => {
                        if let Err(es) = loader.file_read(&c, &source) {
                            break Err(es);
                        }
                    }
                    None => break Err(vec![format!("Cannot read '{key}'")]),
                }
            }
            LoadAction::Working => {}
            LoadAction::Finished => break Ok(()),
        }
    };
    let registered = c.modules.iter().map(|m| m.path.clone()).collect();
    (asked, registered, result)
}

#[test]
fn loader_registers_imports_before_importers() {
    let files = [
        ("/proj/a.ts", "export const a = 1;\n"),
        ("/proj/b.ts", "import { a } from \"./a\";\nexport const b = a;\n"),
        ("/proj/main.ts", "import { b } from \"./b\";\nimport { a } from \"./a\";\nlet x = b;\n"),
    ];
    let (asked, registered, result) = load_trace(&files, "/proj/main.ts");
    assert!(result.is_ok(), "errors: {:?}", result.err());
    assert_eq!(asked, vec!["/proj/main.ts", "/proj/./b.ts", "/proj/./a.ts"]);
    assert_eq!(registered, vec!["/proj/./a.ts", "/proj/./b.ts", "/proj/main.ts"]);
}

#[test]
fn loader_reads_each_module_once() {
    let files = [
        ("/proj/a.ts", "export const a = 1;\n"),
        ("/proj/main.ts", "import { a } from \"./a\";\nimport { a as b } from \"./a\";\n"),
    ];
    let (asked, registered, result) = load_trace(&files, "/proj/main.ts");
    assert!(result.is_ok(), "errors: {:?}", result.err());
    assert_eq!(asked.len(), 2);
    assert_eq!(registered.len(), 2);
}

#[test]
fn loader_stops_at_a_parse_error() {
    let files = [
        ("/proj/bad.ts", "+;\n"),
        ("/proj/main.ts", "import { x } from \"./bad\";\n"),
    ];
    let (asked, registered, result) = load_trace(&files, "/proj/main.ts");
    assert!(result.is_err());
    assert!(!result.unwrap_err().is_empty());
    assert_eq!(asked.len(), 2);
    assert!(registered.is_empty());
}

#[test]
fn loader_skips_bare_imports() {
    let files = [("/proj/main.ts", "import { readFile } from \"fs\";\nlet y = 2;\n")];
    let (asked, registered, result) = load_trace(&files, "/proj/main.ts");
    assert!(result.is_ok(), "errors: {:?}", result.err());
    assert_eq!(asked, vec!["/proj/main.ts"]);
    assert_eq!(registered, vec!["/proj/main.ts"]);
}
