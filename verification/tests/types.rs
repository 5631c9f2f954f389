use ferrite::ast::{LiteralValue, TypeAnn};
use ferrite::type_checker::env::TypeEnv;
use ferrite::type_checker::ty::Type;
#[test]
fn number_assignable_to_number() {
  assert!(Type::Number.is_assignable_to(&Type::Number));
}

#[test]
fn number_not_assignable_to_string() {
  assert!(!Type::Number.is_assignable_to(&Type::String));
}

#[test]
fn literal_assignable_to_base() {
  assert!(Type::Literal(LiteralValue::Number("42".into())).is_assignable_to(&Type::Number));
  assert!(Type::Literal(LiteralValue::String("hi".into())).is_assignable_to(&Type::String));
  assert!(Type::Literal(LiteralValue::Boolean(true)).is_assignable_to(&Type::Boolean));
}

#[test]
fn any_assignable_to_anything() {
  assert!(Type::Any.is_assignable_to(&Type::Number));
  assert!(Type::Any.is_assignable_to(&Type::String));
  assert!(Type::Number.is_assignable_to(&Type::Any));
}

#[test]
fn never_assignable_to_anything() {
  assert!(Type::Never.is_assignable_to(&Type::Number));
  assert!(Type::Never.is_assignable_to(&Type::Any));
}

#[test]
fn assignable_to_union() {
  let union = Type::Union(vec![Type::Number, Type::String]);
  assert!(Type::Number.is_assignable_to(&union));
  assert!(Type::String.is_assignable_to(&union));
  assert!(!Type::Boolean.is_assignable_to(&union));
}

#[test]
fn array_assignable() {
  assert!(
    Type::Array(Box::new(Type::Number)).is_assignable_to(&Type::Array(Box::new(Type::Number)))
  );
  assert!(
    !Type::Array(Box::new(Type::Number)).is_assignable_to(&Type::Array(Box::new(Type::String)))
  );
}

#[test]
fn null_undefined_void_assignability() {
  assert!(Type::Null.is_assignable_to(&Type::Undefined));
  assert!(Type::Undefined.is_assignable_to(&Type::Null));
  assert!(Type::Null.is_assignable_to(&Type::Void));
  assert!(Type::Undefined.is_assignable_to(&Type::Void));
  assert!(!Type::Void.is_assignable_to(&Type::Null));
}

#[test]
fn type_ann_conversion() {
  assert_eq!(Type::from_ann(&TypeAnn::Number), Type::Number);
  assert_eq!(Type::from_ann(&TypeAnn::String), Type::String);
  assert_eq!(Type::from_ann(&TypeAnn::Boolean), Type::Boolean);
  assert_eq!(Type::from_ann(&TypeAnn::Null), Type::Null);
  assert_eq!(Type::from_ann(&TypeAnn::Undefined), Type::Undefined);
  assert_eq!(Type::from_ann(&TypeAnn::Void), Type::Void);
  assert_eq!(Type::from_ann(&TypeAnn::Any), Type::Any);
  assert_eq!(Type::from_ann(&TypeAnn::Never), Type::Never);
}

#[test]
fn type_ann_literal_conversion() {
  assert_eq!(
    Type::from_ann(&TypeAnn::Literal { value: LiteralValue::Number("42".into()) }),
    Type::Literal(LiteralValue::Number("42".into()))
  );
}

#[test]
fn type_ann_union_conversion() {
  let ann = TypeAnn::Union { types: vec![TypeAnn::Number, TypeAnn::String] };
  let expected = Type::Union(vec![Type::Number, Type::String]);
  assert_eq!(Type::from_ann(&ann), expected);
}

#[test]
fn type_ann_array_conversion() {
  let ann = TypeAnn::Array { element: Box::new(TypeAnn::Number) };
  assert_eq!(Type::from_ann(&ann), Type::Array(Box::new(Type::Number)));
}

#[test]
fn type_ann_typeref_conversion() {
  let ann = TypeAnn::TypeRef { name: "Foo".into(), type_args: Vec::new() };
  assert_eq!(Type::from_ann(&ann), Type::TypeParam("Foo".into(), None));
}

#[test]
fn display_types() {
  assert_eq!(Type::Number.to_text(), "number");
  assert_eq!(Type::Literal(LiteralValue::Number("42".into())).to_text(), "42");
  assert_eq!(Type::Literal(LiteralValue::String("hi".into())).to_text(), "\"hi\"");
  assert_eq!(Type::Union(vec![Type::Number, Type::String]).to_text(), "number | string");
  assert_eq!(Type::Array(Box::new(Type::Number)).to_text(), "number[]");
}

#[test]
fn source_union_assignable_to_base() {
  let union = Type::Union(vec![
    Type::Literal(LiteralValue::Number("1".into())),
    Type::Literal(LiteralValue::Number("2".into())),
    Type::Literal(LiteralValue::Number("3".into())),
  ]);
  assert!(union.is_assignable_to(&Type::Number));
}

#[test]
fn source_union_not_assignable_when_mixed() {
  let union = Type::Union(vec![Type::Number, Type::String]);
  assert!(!union.is_assignable_to(&Type::Number));
}

#[test]
fn source_union_assignable_to_target_union() {
  let src = Type::Union(vec![Type::Number, Type::String]);
  let tgt = Type::Union(vec![Type::Number, Type::String, Type::Boolean]);
  assert!(src.is_assignable_to(&tgt));
}

#[test]
fn object_structural_assignable() {
  let a =
    Type::Object { fields: vec![("name".into(), Type::String), ("age".into(), Type::Number)] };
  let b = Type::Object { fields: vec![("name".into(), Type::String)] };
  assert!(a.is_assignable_to(&b));
}

#[test]
fn object_missing_field_not_assignable() {
  let a = Type::Object { fields: vec![("name".into(), Type::String)] };
  let b =
    Type::Object { fields: vec![("name".into(), Type::String), ("age".into(), Type::Number)] };
  assert!(!a.is_assignable_to(&b));
}

#[test]
fn object_field_type_mismatch_not_assignable() {
  let a = Type::Object { fields: vec![("name".into(), Type::Number)] };
  let b = Type::Object { fields: vec![("name".into(), Type::String)] };
  assert!(!a.is_assignable_to(&b));
}

#[test]
fn display_object_type() {
  let obj =
    Type::Object { fields: vec![("name".into(), Type::String), ("age".into(), Type::Number)] };
  assert_eq!(obj.to_text(), "{ name: string, age: number }");
}

#[test]
fn unknown_display() {
  assert_eq!(Type::Unknown.to_text(), "unknown");
}

#[test]
fn everything_assignable_to_unknown() {
  assert!(Type::Number.is_assignable_to(&Type::Unknown));
  assert!(Type::String.is_assignable_to(&Type::Unknown));
  assert!(Type::Any.is_assignable_to(&Type::Unknown));
  assert!(Type::Never.is_assignable_to(&Type::Unknown));
  assert!(Type::Unknown.is_assignable_to(&Type::Unknown));
}

#[test]
fn unknown_not_assignable_to_concrete() {
  assert!(!Type::Unknown.is_assignable_to(&Type::Number));
  assert!(!Type::Unknown.is_assignable_to(&Type::String));
  assert!(!Type::Unknown.is_assignable_to(&Type::Boolean));
}

#[test]
fn type_ann_unknown_conversion() {
  assert_eq!(Type::from_ann(&TypeAnn::Unknown), Type::Unknown);
}

#[test]
fn primitive_strips_literals() {
  assert_eq!(Type::Literal(LiteralValue::Number("1".into())).primitive(), Type::Number);
  assert_eq!(Type::Literal(LiteralValue::String("a".into())).primitive(), Type::String);
  assert_eq!(Type::Literal(LiteralValue::Boolean(true)).primitive(), Type::Boolean);
  assert_eq!(Type::Number.primitive(), Type::Number);
  assert_eq!(Type::String.primitive(), Type::String);
}

#[test]
fn map_display() {
  let m = Type::MapType { key: Box::new(Type::String), value: Box::new(Type::Number) };
  assert_eq!(m.to_text(), "Map<string, number>");
}

#[test]
fn set_display() {
  let s = Type::SetType { value: Box::new(Type::String) };
  assert_eq!(s.to_text(), "Set<string>");
}

#[test]
fn tuple_display() {
  let t = Type::Tuple(vec![Type::String, Type::Number]);
  assert_eq!(t.to_text(), "[string, number]");
}

#[test]
fn map_assignable() {
  let a = Type::MapType { key: Box::new(Type::String), value: Box::new(Type::Number) };
  let b = Type::MapType { key: Box::new(Type::String), value: Box::new(Type::Number) };
  assert!(a.is_assignable_to(&b));
  let c = Type::MapType { key: Box::new(Type::String), value: Box::new(Type::String) };
  assert!(!a.is_assignable_to(&c));
}

#[test]
fn set_assignable() {
  let a = Type::SetType { value: Box::new(Type::Number) };
  let b = Type::SetType { value: Box::new(Type::Number) };
  assert!(a.is_assignable_to(&b));
  let c = Type::SetType { value: Box::new(Type::String) };
  assert!(!a.is_assignable_to(&c));
}

#[test]
fn tuple_assignable() {
  let a = Type::Tuple(vec![Type::String, Type::Number]);
  let b = Type::Tuple(vec![Type::String, Type::Number]);
  assert!(a.is_assignable_to(&b));
  let c = Type::Tuple(vec![Type::String, Type::String]);
  assert!(!a.is_assignable_to(&c));
  let d = Type::Tuple(vec![Type::String]);
  assert!(!a.is_assignable_to(&d));
}

#[test]
fn type_ann_map_conversion() {
  let ann =
    TypeAnn::TypeRef { name: "Map".into(), type_args: vec![TypeAnn::String, TypeAnn::Number] };
  let t = Type::from_ann(&ann);
  assert_eq!(t, Type::MapType { key: Box::new(Type::String), value: Box::new(Type::Number) });
}

#[test]
fn type_ann_set_conversion() {
  let ann = TypeAnn::TypeRef { name: "Set".into(), type_args: vec![TypeAnn::Number] };
  let t = Type::from_ann(&ann);
  assert_eq!(t, Type::SetType { value: Box::new(Type::Number) });
}



#[test]
fn builtin_types_available() {
  let env = TypeEnv::new();
  assert_eq!(env.lookup("number"), Some(Type::Number));
  assert_eq!(env.lookup("string"), Some(Type::String));
  assert_eq!(env.lookup("any"), Some(Type::Any));
}

#[test]
fn declare_and_lookup() {
  let mut env = TypeEnv::new();
  env.declare("x", Type::Number).unwrap();
  assert_eq!(env.lookup("x"), Some(Type::Number));
}

#[test]
fn duplicate_declaration_error() {
  let mut env = TypeEnv::new();
  env.declare("x", Type::Number).unwrap();
  assert!(env.declare("x", Type::String).is_err());
}
