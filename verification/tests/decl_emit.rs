use ferrite::ast::TypeAnn;
use ferrite::decl_emit::{emit_declarations, render_type_ann};
use ferrite::diagnostic::SourceFile;
use ferrite::lexer::Lexer;
use ferrite::parser::Parser;

fn emit(source: &str) -> String {
  let mut lexer = Lexer::new(source);
  let tokens = lexer.tokenize().to_vec();
  let mut parser = Parser::new(tokens, SourceFile::new("test.ts", source));
  let program = parser.parse();
  emit_declarations(&program)
}

#[test]
fn emit_exported_function() {
  let dts = emit("export function add(a: number, b: number): number { return a + b; }");
  assert!(dts.contains("export function add(a: number, b: number): number;"));
}

#[test]
fn emit_exported_const() {
  let dts = emit("export const x: number = 42;");
  assert!(dts.contains("export const x: number;"));
}

#[test]
fn emit_type_alias() {
  let dts = emit("export type ID = string | number;");
  assert!(dts.contains("export type ID = string | number;"));
}

#[test]
fn emit_class_declaration() {
  let dts = emit("export class Foo { name: string; greet(): void {} }");
  assert!(dts.contains("export class Foo {"));
  assert!(dts.contains("name: string;"));
  assert!(dts.contains("greet();"));
}

#[test]
fn emit_class_extends() {
  let dts =
    emit("class Animal { name: string; } export class Dog extends Animal { breed: string; }");
  assert!(dts.contains("class Dog extends Animal {"));
}

#[test]
fn emit_import_type() {
  let dts = emit("import type { Name, Age } from \"./types\";");
  assert!(dts.contains("import type { Name, Age } from \"./types\";"));
}

#[test]
fn emit_generic_function() {
  let dts = emit("export function identity<T>(x: T): T { return x; }");
  assert!(dts.contains("export function identity<T>(x: T): T;"));
}

#[test]
fn emit_generic_type_alias() {
  // Note: parser doesn't support generic type params on type aliases yet
  let dts = emit("export type ID = string | number;");
  assert!(dts.contains("export type ID = string | number;"));
}

#[test]
fn emit_rest_params() {
  let dts = emit("export function sum(...nums: number[]): number { return 0; }");
  assert!(dts.contains("export function sum(...nums: number[]): number;"));
}

#[test]
fn emit_object_type() {
  let dts = emit("export type Point = { x: number; y: number; };");
  assert!(dts.contains("export type Point = { x: number; y: number };"));
}

#[test]
fn emit_enum() {
  let dts = emit("export enum Color { Red, Green, Blue }");
  assert!(dts.contains("export enum Color {"));
  assert!(dts.contains("Red,"));
  assert!(dts.contains("Green,"));
  assert!(dts.contains("Blue,"));
}

#[test]
fn emit_intersection_type() {
  let dts = emit("export type A = { name: string; } & { age: number; };");
  assert!(dts.contains("export type A = { name: string } & { age: number };"));
}

#[test]
fn emit_array_type() {
  let dts = emit("export const items: string[] = [];");
  assert!(dts.contains("export const items: string[];"));
}

#[test]
fn emit_generic_class() {
  // Note: ClassDeclaration AST doesn't have type_params field yet
  let dts = emit("export class Foo { value: string; }");
  assert!(dts.contains("export class Foo {"));
  assert!(dts.contains("value: string;"));
}

#[test]
fn emit_async_function() {
  let dts = emit("export async function fetchData(): Promise<string> { return \"\"; }");
  assert!(dts.contains("export async function fetchData(): Promise<string>;"));
}

#[test]
fn array_of_union_is_grouped() {
  let a = TypeAnn::Array { element: Box::new(TypeAnn::Union { types: vec![TypeAnn::String, TypeAnn::Number] }) };
  assert_eq!(render_type_ann(&a), "(string | number)[]");
  let b = TypeAnn::Array { element: Box::new(TypeAnn::String) };
  assert_eq!(render_type_ann(&b), "string[]");
}

#[test]
fn type_alias_parameters_follow_the_name() {
  let dts = emit("export type Box<T> = { value: T };");
  assert!(dts.contains("export type Box<T> = { value: T };"), "{dts}");
}

#[test]
fn default_type_import_stays_default() {
  let dts = emit("import type Foo from \"./foo\";");
  assert!(dts.contains("import type Foo from \"./foo\";"), "{dts}");
}
