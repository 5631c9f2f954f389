use ferrite::ast::{BinaryOp, EnumMember, Expression, LiteralValue, Statement, TypeAnn};
use ferrite::codegen::Codegen;
use ferrite::diagnostic::SourceFile;
use ferrite::lexer::Lexer;
use ferrite::parser::Parser;
use ferrite::token::{Span, TokenKind};
use ferrite::type_checker::env::TypeEnv;
use ferrite::type_checker::error::TypeError;
use ferrite::type_checker::ty::Type;
use ferrite::type_checker::TypeChecker;

fn parse(source: &str) -> ferrite::ast::Program {
    let mut lexer = Lexer::new(source);
    let tokens = lexer.tokenize().to_vec();
    let mut parser = Parser::new(tokens, SourceFile::new("t.ts", source));
    parser.parse()
}

fn generate(source: &str) -> String {
    let program = parse(source);
    let mut cg = Codegen::new();
    cg.generate(&program).to_string()
}

fn kinds(source: &str) -> Vec<TokenKind> {
    let mut lexer = Lexer::new(source);
    lexer.tokenize().iter().map(|t| t.kind.clone()).collect()
}

#[test]
fn prefix_increment_stays_prefix() {
    assert_eq!(generate("let y = ++x;"), "let y = ++x;\n");
    assert_eq!(generate("--x;"), "--x;\n");
    assert_eq!(generate("x++;"), "x++;\n");
}

#[test]
fn catch_parameter_type_is_erased() {
    let out = generate("try { x; } catch (e: Error) { y; }");
    assert!(out.contains("catch (e)"), "{}", out);
    assert!(!out.contains("Error"), "{}", out);
}

#[test]
fn longest_operator_is_taken() {
    let src = "+ - * / % ** += -= *= /= = == === != !== < > <= >= && || ?? ! ~ << >> >>> ++ --";
    assert_eq!(
        kinds(src),
        vec![
            TokenKind::Plus, TokenKind::Minus, TokenKind::Star, TokenKind::Slash,
            TokenKind::Percent, TokenKind::StarStar, TokenKind::PlusEq, TokenKind::MinusEq,
            TokenKind::StarEq, TokenKind::SlashEq, TokenKind::Eq, TokenKind::EqEq,
            TokenKind::EqEqEq, TokenKind::NotEq, TokenKind::NotEqEq, TokenKind::Lt, TokenKind::Gt,
            TokenKind::LtEq, TokenKind::GtEq, TokenKind::AmpAmp, TokenKind::PipePipe,
            TokenKind::QuestionQuestion, TokenKind::Bang, TokenKind::Tilde, TokenKind::LtLt,
            TokenKind::GtGt, TokenKind::GtGtGt, TokenKind::PlusPlus, TokenKind::MinusMinus,
            TokenKind::Eof,
        ]
    );
    assert_eq!(kinds("a===b"), vec![
        TokenKind::Identifier("a".into()), TokenKind::EqEqEq, TokenKind::Identifier("b".into()),
        TokenKind::Eof,
    ]);
    assert_eq!(kinds("{x}"), vec![
        TokenKind::OpenBrace, TokenKind::Identifier("x".into()), TokenKind::CloseBrace, TokenKind::Eof,
    ]);
}

#[test]
fn names_and_numbers_are_read_whole() {
    assert_eq!(kinds("let abc1 = 12.50;"), vec![
        TokenKind::Let, TokenKind::Identifier("abc1".into()), TokenKind::Eq,
        TokenKind::Number("12.5".into()), TokenKind::Semicolon, TokenKind::Eof,
    ]);
}

#[test]
fn name_statement_parses_to_the_name() {
    let p = parse("foo;");
    assert_eq!(p.body.len(), 1);
    match &p.body[0] {
        Statement::ExpressionStatement { expression, .. } => match &**expression {
            Expression::Identifier { name, .. } => assert_eq!(name, "foo"),
            other => panic!("{:?}", other),
        },
        other => panic!("{:?}", other),
    }
}

#[test]
fn string_enum_members_have_string_types() {
    let sp = Span::new(0, 0);
    let s = Statement::EnumDeclaration {
        name: "Color".into(),
        members: vec![
            EnumMember { name: "Red".into(), value: Some("red".into()), span: sp },
            EnumMember { name: "Two".into(), value: Some("2".into()), span: sp },
            EnumMember { name: "First".into(), value: None, span: sp },
        ],
        span: sp,
    };
    let mut tc = TypeChecker::new();
    let mut env = TypeEnv::new();
    tc.check_statement(&s, &mut env);
    assert!(tc.errors.is_empty());
    assert_eq!(
        env.lookup("Color"),
        Some(Type::Enum {
            name: "Color".into(),
            members: vec![
                ("Red".into(), Type::Literal(LiteralValue::String("red".into()))),
                ("Two".into(), Type::Literal(LiteralValue::Number("2".into()))),
                ("First".into(), Type::Literal(LiteralValue::Number("0".into()))),
            ],
        })
    );
}

#[test]
fn function_declared_twice_reports_once() {
    let sp = Span::new(0, 0);
    let s = Statement::FunctionDeclaration {
        name: "f".into(),
        params: vec![],
        return_type: None,
        body: Box::new(Statement::BlockStatement { body: vec![], span: sp }),
        is_async: false,
        type_params: vec![],
        span: sp,
    };
    let mut tc = TypeChecker::new();
    let mut env = TypeEnv::new();
    tc.check_statement(&s, &mut env);
    assert!(tc.errors.is_empty());
    tc.check_statement(&s, &mut env);
    assert_eq!(tc.errors.len(), 1);
    assert!(matches!(&tc.errors[0], TypeError::DuplicateIdentifier(m, _) if m == "Duplicate identifier 'f'"));
}

#[test]
fn array_literal_type_is_array_of_distinct_element_types() {
    let program = parse("let a = [1, \"x\", 1];");
    let mut tc = TypeChecker::new();
    let mut env = TypeEnv::new();
    tc.check(&program, &mut env);
    assert!(tc.errors.is_empty());
    match env.lookup("a") {
        Some(Type::Array(e)) => match *e {
            Type::Union(v) => assert_eq!(v.len(), 2),
            other => panic!("{:?}", other),
        },
        other => panic!("{:?}", other),
    }
}

fn atom_type(source: &str) -> Option<ferrite::ast::TypeAnn> {
    let mut lexer = Lexer::new(source);
    let tokens = lexer.tokenize().to_vec();
    let mut parser = Parser::new(tokens, SourceFile::new("t.ts", source));
    parser.parse_atom_type()
}

#[test]
fn keyof_and_typeof_types() {
    assert_eq!(atom_type("keyof number"), Some(TypeAnn::KeyOf { type_ann: Box::new(TypeAnn::Number) }));
    match atom_type("typeof cfg;") {
        Some(TypeAnn::Typeof { argument }) => match *argument {
            Expression::Identifier { name, .. } => assert_eq!(name, "cfg"),
            other => panic!("{:?}", other),
        },
        other => panic!("{:?}", other),
    }
}

#[test]
fn binary_operators_climb_by_precedence() {
    let p = parse("a || b && c;");
    match &p.body[0] {
        Statement::ExpressionStatement { expression, .. } => match &**expression {
            Expression::BinaryExpression { operator, right, .. } => {
                assert_eq!(*operator, BinaryOp::LogicalOr);
                assert!(matches!(&**right, Expression::BinaryExpression { operator: BinaryOp::LogicalAnd, .. }));
            },
            other => panic!("{:?}", other),
        },
        other => panic!("{:?}", other),
    }
    let q = parse("1 - 2 - 3;");
    match &q.body[0] {
        Statement::ExpressionStatement { expression, .. } => match &**expression {
            Expression::BinaryExpression { operator, left, .. } => {
                assert_eq!(*operator, BinaryOp::Sub);
                assert!(matches!(&**left, Expression::BinaryExpression { operator: BinaryOp::Sub, .. }));
            },
            other => panic!("{:?}", other),
        },
        other => panic!("{:?}", other),
    }
}

#[test]
fn each_line_ends_with_its_one_line_feed() {
    let text = "a\nbc\n\nd";
    let sf = SourceFile::new("t.ts", text);
    let n = text.matches('\n').count() + 1;
    for line in 1..=n {
        let r = sf.line_range(line);
        let part = &text[r.start..r.end];
        if line < n {
            assert!(part.ends_with('\n'));
            assert_eq!(part.matches('\n').count(), 1);
        } else {
            assert_eq!(part.matches('\n').count(), 0);
        }
    }
}

#[test]
fn column_counts_bytes_from_line_start() {
    let text = "ab\né z";
    let sf = SourceFile::new("t.ts", text);
    for (offset, _) in text.char_indices() {
        let start = text[..offset].rfind('\n').map(|i| i + 1).unwrap_or(0);
        assert_eq!(sf.line_col(offset).1, offset - start + 1);
    }
}

#[test]
fn class_members_are_kept() {
    use_class("class A { x; m() { } }");
    use_class("class B { m() { } x; }");
}

fn use_class(src: &str) {
    let p = parse(src);
    match &p.body[0] {
        Statement::ClassDeclaration { body, .. } => {
            assert_eq!(body.fields.len(), 1);
            assert_eq!(body.methods.len(), 1);
            assert!(matches!(&body.fields[0].key, ferrite::ast::PropertyKey::Identifier(n) if n == "x"));
            assert!(matches!(&body.methods[0].key, ferrite::ast::PropertyKey::Identifier(n) if n == "m"));
        },
        other => panic!("{:?}", other),
    }
}

#[test]
fn unbound_name_statement_is_reported() {
    let program = parse("foo;");
    let mut tc = TypeChecker::new();
    let mut env = TypeEnv::new();
    tc.check(&program, &mut env);
    assert_eq!(tc.errors.len(), 1);
    assert!(matches!(&tc.errors[0], TypeError::CannotFindName(n, _) if n == "foo"));
}

#[test]
fn chains_of_statements_parse_in_order() {
    let p = parse("a + 1; b * c\nd;");
    assert_eq!(p.body.len(), 3);
    let names: Vec<String> = p.body.iter().map(|s| match s {
        Statement::ExpressionStatement { expression, .. } => match &**expression {
            Expression::BinaryExpression { operator, .. } => format!("{:?}", operator),
            Expression::Identifier { name, .. } => name.clone(),
            other => format!("{:?}", other),
        },
        other => format!("{:?}", other),
    }).collect();
    assert_eq!(names, vec!["Add".to_string(), "Mul".to_string(), "d".to_string()]);
}
