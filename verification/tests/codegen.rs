use ferrite::ast::{BinaryOp, Expression};
use ferrite::codegen::expr::gen_expression;
use ferrite::codegen::Codegen;
use ferrite::token::Span;
use ferrite::diagnostic::SourceFile;
use ferrite::lexer::Lexer;
use ferrite::parser::Parser;

fn run(source: &str) -> String {
  let mut lexer = Lexer::new(source);
  let tokens = lexer.tokenize().to_vec();
  let mut parser = Parser::new(tokens, SourceFile::new("test.ts", source));
  let program = parser.parse();
  let mut cg = Codegen::new();
  cg.generate(&program).to_string()
}

#[test]
fn gen_number() {
  assert_eq!(run("42;"), "42;\n");
}

#[test]
fn gen_string() {
  assert_eq!(run("\"hello\";"), "\"hello\";\n");
}

#[test]
fn gen_boolean() {
  assert_eq!(run("true;"), "true;\n");
  assert_eq!(run("false;"), "false;\n");
}

#[test]
fn gen_identifier() {
  assert_eq!(run("foo;"), "foo;\n");
}

#[test]
fn gen_binary_add() {
  assert_eq!(run("1 + 2;"), "1 + 2;\n");
}

#[test]
fn gen_precedence_parens() {
  assert_eq!(run("(1 + 2) * 3;"), "(1 + 2) * 3;\n");
}

#[test]
fn gen_call() {
  assert_eq!(run("foo(1, 2);"), "foo(1, 2);\n");
}

#[test]
fn gen_unary() {
  assert_eq!(run("-42;"), "-42;\n");
  assert_eq!(run("!true;"), "!true;\n");
}

#[test]
fn gen_conditional() {
  assert_eq!(run("a ? b : c;"), "a ? b : c;\n");
}

#[test]
fn gen_member_dot() {
  assert_eq!(run("a.b;"), "a.b;\n");
}

#[test]
fn gen_member_bracket() {
  assert_eq!(run("a[0];"), "a[0];\n");
}

#[test]
fn gen_variable_let() {
  assert_eq!(run("let x = 42;"), "let x = 42;\n");
}

#[test]
fn gen_variable_no_init() {
  assert_eq!(run("let x;"), "let x;\n");
}

#[test]
fn gen_array() {
  assert_eq!(run("[1, 2, 3];"), "[1, 2, 3];\n");
}

#[test]
fn gen_object() {
  assert_eq!(run("({a: 1});"), "({a: 1});\n");
}

#[test]
fn gen_object_shorthand() {
  assert_eq!(run("({x});"), "({x});\n");
}

#[test]
fn gen_assignment() {
  assert_eq!(run("x = 42;"), "x = 42;\n");
}

#[test]
fn gen_chained_call() {
  assert_eq!(run("a.b(c);"), "a.b(c);\n");
}

#[test]
fn gen_comparison() {
  assert_eq!(run("a === b;"), "a === b;\n");
}

#[test]
fn gen_nullish() {
  assert_eq!(run("a ?? b;"), "a ?? b;\n");
}

#[test]
fn gen_exponentiation() {
  assert_eq!(run("2 ** 3;"), "2 ** 3;\n");
}

#[test]
fn gen_parens_preserved() {
  assert_eq!(run("(x);"), "(x);\n");
}

#[test]
fn gen_block_comment_skipped() {
  assert_eq!(run("/* comment */ 42;"), "42;\n");
}

#[test]
fn gen_line_comment_skipped() {
  assert_eq!(run("// comment\n42;"), "42;\n");
}

#[test]
fn gen_multiple_stmts() {
  let result = run("let a = 1;\nlet b = 2;\na + b;\n");
  assert!(result.contains("let a = 1;"));
  assert!(result.contains("let b = 2;"));
  assert!(result.contains("a + b;"));
}

#[test]
fn gen_void() {
  assert_eq!(run("void 0;"), "void 0;\n");
}

#[test]
fn gen_typeof() {
  assert_eq!(run("typeof x;"), "typeof x;\n");
}

#[test]
fn gen_if_basic() {
  let result = run("if (x) y;");
  assert!(result.contains("if (x)"));
  assert!(result.contains("y;"));
}

#[test]
fn gen_if_else() {
  let result = run("if (x) y; else z;");
  assert!(result.contains("if (x)"));
  assert!(result.contains("else"));
  assert!(result.contains("z;"));
}

#[test]
fn gen_while_basic() {
  let result = run("while (x) y;");
  assert!(result.contains("while (x)"));
  assert!(result.contains("y;"));
}

#[test]
fn gen_for_basic() {
  let result = run("for (let i = 0; i < 10; i = i + 1) x;");
  assert!(result.contains("for (let i = 0;"));
  assert!(result.contains("i < 10;"));
  assert!(result.contains("i = i + 1)"));
  assert!(result.contains("x;"));
}

#[test]
fn gen_for_empty() {
  let result = run("for (;;) x;");
  assert!(result.contains("for (; ; )"));
}

#[test]
fn gen_return_value() {
  let result = run("return 42;");
  assert_eq!(result.trim(), "return 42;");
}

#[test]
fn gen_return_no_value() {
  let result = run("return;");
  assert_eq!(result.trim(), "return;");
}

#[test]
fn gen_block() {
  let result = run("{ x; y; }");
  assert!(result.contains("{"));
  assert!(result.contains("x;"));
  assert!(result.contains("y;"));
  assert!(result.contains("}"));
}

#[test]
fn gen_if_block() {
  let result = run("if (x) { y; z; }");
  assert!(result.contains("if (x)"));
  assert!(result.contains("y;"));
  assert!(result.contains("z;"));
}

#[test]
fn gen_function_basic() {
  let result = run("function add(a, b) { return a + b; }");
  assert!(result.contains("function add(a, b)"));
  assert!(result.contains("return a + b;"));
}

#[test]
fn gen_function_no_params() {
  let result = run("function noop() { }");
  assert!(result.contains("function noop()"));
}

#[test]
fn gen_function_typed_params() {
  let result = run("function add(a: number, b: number): number { return a + b; }");
  assert!(result.contains("function add(a, b)"));
  assert!(!result.contains(": number"));
}

#[test]
fn gen_arrow_single_param() {
  let result = run("let f = x => x + 1;");
  assert!(result.contains("x => x + 1"));
}

#[test]
fn gen_arrow_multi_params() {
  let result = run("let f = (x, y) => x + y;");
  assert!(result.contains("(x, y) => x + y"));
}

#[test]
fn gen_arrow_block_body() {
  let result = run("let f = (x) => { return x; }");
  assert!(result.contains("x => {"));
  assert!(result.contains("return x;"));
}

#[test]
fn gen_import_named() {
  let result = run(r#"import { z } from "zod";"#);
  assert!(result.contains("import { z } from \"zod\";"));
}

#[test]
fn gen_import_default() {
  let result = run(r#"import React from "react";"#);
  assert!(result.contains("import React from \"react\";"));
}

#[test]
fn gen_import_as() {
  let result = run(r#"import { join as pathJoin } from "path";"#);
  assert!(result.contains("import { join as pathJoin } from \"path\";"));
}

#[test]
fn gen_import_multiple() {
  let result = run(r#"import { a, b } from "mod";"#);
  assert!(result.contains("import { a, b } from \"mod\";"));
}

#[test]
fn gen_type_alias_skipped() {
  let result = run("type ID = string;");
  assert!(result.trim().is_empty(), "type alias should produce no output");
}

#[test]
fn gen_export_const() {
  let result = run("export const x = 42;");
  assert!(result.contains("export const x = 42;"));
}

#[test]
fn gen_export_function() {
  let result = run("export function add(a, b) { return a + b; }");
  assert!(result.contains("export function add(a, b)"));
}

#[test]
fn gen_import_then_code() {
  let result = run(r#"import { z } from "zod"; let x = 42;"#);
  assert!(result.contains("import { z } from \"zod\";"));
  assert!(result.contains("let x = 42;"));
}

#[test]
fn gen_for_of() {
  let result = run("for (const x of items) { x; }");
  assert!(result.contains("for (const x of items)"));
}

#[test]
fn gen_for_in() {
  let result = run("for (const x in obj) { x; }");
  assert!(result.contains("for (const x in obj)"));
}

#[test]
fn gen_switch_case() {
  let result = run("switch (x) { case 1: y; break; default: z; }");
  assert!(result.contains("switch (x)"));
  assert!(result.contains("case 1:"));
  assert!(result.contains("default:"));
}

#[test]
fn gen_throw() {
  let result = run("throw \"msg\";");
  assert!(result.contains("throw \"msg\";"));
}

#[test]
fn gen_try_catch() {
  let result = run("try { x; } catch (e) { y; }");
  assert!(result.contains("try"));
  assert!(result.contains("catch (e)"));
}

#[test]
fn gen_try_finally() {
  let result = run("try { x; } finally { z; }");
  assert!(result.contains("try"));
  assert!(result.contains("finally"));
}

#[test]
fn gen_try_catch_finally() {
  let result = run("try { x; } catch (e) { y; } finally { z; }");
  assert!(result.contains("try"));
  assert!(result.contains("catch (e)"));
  assert!(result.contains("finally"));
}


#[test]
fn type_parameters_are_erased() {
  assert_eq!(run("function identity<T>(x: T): T { return x; }"), "function identity(x) {\n  return x;\n}\n");
}

#[test]
fn enum_members_without_values_count_from_zero() {
  assert_eq!(run("enum Dir { Up, Down }"), "const Dir = {\"Up\": 0, \"Down\": 1};\n");
  assert_eq!(run("enum Http { Ok = \"200\", Missing }"), "const Http = {\"Ok\": \"200\", \"Missing\": 0};\n");
}

#[test]
fn right_operand_of_equal_precedence_keeps_parentheses() {
  let sp = Span::new(0, 0);
  let n = |v: &str| Box::new(Expression::NumberLiteral { value: v.to_string(), span: sp });
  let bin = |l, op, r| Box::new(Expression::BinaryExpression { left: l, operator: op, right: r, span: sp });
  let print = |e: Box<Expression>| {
    let mut cg = Codegen::new();
    gen_expression(&mut cg, &e);
    cg.output
  };
  assert_eq!(print(bin(n("1"), BinaryOp::Sub, bin(n("2"), BinaryOp::Sub, n("3")))), "1 - (2 - 3)");
  assert_eq!(print(bin(bin(n("1"), BinaryOp::Sub, n("2")), BinaryOp::Sub, n("3"))), "1 - 2 - 3");
  assert_eq!(print(bin(bin(n("2"), BinaryOp::Exp, n("3")), BinaryOp::Exp, n("2"))), "(2 ** 3) ** 2");
  assert_eq!(print(bin(n("2"), BinaryOp::Exp, bin(n("3"), BinaryOp::Exp, n("2")))), "2 ** 3 ** 2");
}

#[test]
fn string_literals_are_escaped() {
  assert_eq!(run("'say \"hi\"';"), "\"say \\\"hi\\\"\";\n");
  assert_eq!(run("\"a\\\"b\";"), "\"a\\\"b\";\n");
}

#[test]
fn double_negation_keeps_a_space() {
  assert_eq!(run("- -x;"), "- -x;\n");
  assert_eq!(run("-x;"), "-x;\n");
}
