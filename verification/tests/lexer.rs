use ferrite::lexer::Lexer;
use ferrite::token::{Span, TokenKind};

fn tokenize(source: &str) -> Vec<TokenKind> {
    let mut lexer = Lexer::new(source);
    lexer.tokenize().iter().map(|t| t.kind.clone()).collect()
}

#[test]
fn numbers() {
  let tokens = tokenize("42 123.456");
  assert_eq!(tokens, vec![TokenKind::Number("42".into()), TokenKind::Number("123.456".into()), TokenKind::Eof]);
}

#[test]
fn strings() {
  let tokens = tokenize("\"hello\" 'world'");
  assert_eq!(
    tokens,
    vec![TokenKind::String("hello".into()), TokenKind::String("world".into()), TokenKind::Eof]
  );
}

#[test]
fn keywords() {
  let tokens = tokenize("true false null undefined let const var");
  assert_eq!(
    tokens,
    vec![
      TokenKind::True,
      TokenKind::False,
      TokenKind::Null,
      TokenKind::Undefined,
      TokenKind::Let,
      TokenKind::Const,
      TokenKind::Var,
      TokenKind::Eof
    ]
  );
}

#[test]
fn operators() {
  let tokens =
    tokenize("+ - * / % ** += -= *= /= = == === != !== < > <= >= && || ?? ! ~ << >> >>> ++ --");
  assert_eq!(
    tokens,
    vec![
      TokenKind::Plus,
      TokenKind::Minus,
      TokenKind::Star,
      TokenKind::Slash,
      TokenKind::Percent,
      TokenKind::StarStar,
      TokenKind::PlusEq,
      TokenKind::MinusEq,
      TokenKind::StarEq,
      TokenKind::SlashEq,
      TokenKind::Eq,
      TokenKind::EqEq,
      TokenKind::EqEqEq,
      TokenKind::NotEq,
      TokenKind::NotEqEq,
      TokenKind::Lt,
      TokenKind::Gt,
      TokenKind::LtEq,
      TokenKind::GtEq,
      TokenKind::AmpAmp,
      TokenKind::PipePipe,
      TokenKind::QuestionQuestion,
      TokenKind::Bang,
      TokenKind::Tilde,
      TokenKind::LtLt,
      TokenKind::GtGt,
      TokenKind::GtGtGt,
      TokenKind::PlusPlus,
      TokenKind::MinusMinus,
      TokenKind::Eof
    ]
  );
}

#[test]
fn delimiters() {
  let tokens = tokenize("( ) [ ] { } , ; : . ... =>");
  assert_eq!(
    tokens,
    vec![
      TokenKind::OpenParen,
      TokenKind::CloseParen,
      TokenKind::OpenBracket,
      TokenKind::CloseBracket,
      TokenKind::OpenBrace,
      TokenKind::CloseBrace,
      TokenKind::Comma,
      TokenKind::Semicolon,
      TokenKind::Colon,
      TokenKind::Dot,
      TokenKind::DotDotDot,
      TokenKind::Arrow,
      TokenKind::Eof
    ]
  );
}

#[test]
fn identifier() {
  let tokens = tokenize("foo bar _baz $dollar");
  assert_eq!(
    tokens,
    vec![
      TokenKind::Identifier("foo".into()),
      TokenKind::Identifier("bar".into()),
      TokenKind::Identifier("_baz".into()),
      TokenKind::Identifier("$dollar".into()),
      TokenKind::Eof
    ]
  );
}

#[test]
fn comments_skipped() {
  let tokens = tokenize("42 // line comment\n 3");
  assert_eq!(tokens, vec![TokenKind::Number("42".into()), TokenKind::Number("3".into()), TokenKind::Eof]);
}

#[test]
fn block_comments_skipped() {
  let tokens = tokenize("42 /* block */ 3");
  assert_eq!(tokens, vec![TokenKind::Number("42".into()), TokenKind::Number("3".into()), TokenKind::Eof]);
}

#[test]
fn question() {
  let tokens = tokenize("? ?? foo ? bar");
  assert_eq!(
    tokens,
    vec![
      TokenKind::Question,
      TokenKind::QuestionQuestion,
      TokenKind::Identifier("foo".into()),
      TokenKind::Question,
      TokenKind::Identifier("bar".into()),
      TokenKind::Eof
    ]
  );
}

#[test]
fn bitwise_ops() {
  let tokens = tokenize("| ^ &");
  assert_eq!(tokens, vec![TokenKind::Pipe, TokenKind::Caret, TokenKind::Amp, TokenKind::Eof]);
}

#[test]
fn unterminated_string() {
  let mut lexer = Lexer::new("\"hello");
  lexer.tokenize();
  let diags = lexer.into_diagnostics();
  assert_eq!(diags.len(), 1);
  assert_eq!(diags[0].code, "E003");
}

#[test]
fn unknown_char_produces_diagnostic() {
  let mut lexer = Lexer::new("@");
  lexer.tokenize();
  let diags = lexer.into_diagnostics();
  assert_eq!(diags.len(), 1);
  assert_eq!(diags[0].code, "E004");
}

#[test]
fn unknown_char_produces_token() {
  let mut lexer = Lexer::new("@");
  let tokens = lexer.tokenize().to_vec();
  assert!(matches!(tokens[0].kind, TokenKind::Unknown('@')));
}

#[test]
fn nested_block_comment() {
  let tokens = tokenize("1 /* /* inner */ */ 2");
  assert_eq!(tokens, vec![TokenKind::Number("1".into()), TokenKind::Number("2".into()), TokenKind::Eof]);
}

#[test]
fn amp_eq_token() {
  let tokens = tokenize("&=");
  assert_eq!(tokens, vec![TokenKind::AmpEq, TokenKind::Eof]);
}

#[test]
fn pipe_eq_token() {
  let tokens = tokenize("|=");
  assert_eq!(tokens, vec![TokenKind::PipeEq, TokenKind::Eof]);
}

#[test]
fn numbers_are_canonical() {
    assert_eq!(
        tokenize("007 1.50 0.0 2.25"),
        vec![
            TokenKind::Number("7".into()),
            TokenKind::Number("1.5".into()),
            TokenKind::Number("0".into()),
            TokenKind::Number("2.25".into()),
            TokenKind::Eof
        ]
    );
}

#[test]
fn dot_without_digit_is_separate() {
    assert_eq!(
        tokenize("1.x"),
        vec![TokenKind::Number("1".into()), TokenKind::Dot, TokenKind::Identifier("x".into()), TokenKind::Eof]
    );
}

#[test]
fn spans_are_byte_offsets() {
    let mut lexer = Lexer::new("é + x");
    let tokens = lexer.tokenize().to_vec();
    assert_eq!(tokens[0].kind, TokenKind::Unknown('é'));
    assert_eq!(tokens[0].span, Span::new(0, 2));
    assert_eq!(tokens[1].span, Span::new(3, 4));
    assert_eq!(tokens[2].span, Span::new(5, 6));
    assert_eq!(tokens[3].span, Span::new(6, 6));
}

#[test]
fn template_literal_tokens() {
    assert_eq!(
        tokenize("`a${x}b${y}c`"),
        vec![
            TokenKind::TemplateHead("a".into()),
            TokenKind::Identifier("x".into()),
            TokenKind::TemplateMiddle("b".into()),
            TokenKind::Identifier("y".into()),
            TokenKind::TemplateTail("c".into()),
            TokenKind::Eof
        ]
    );
    assert_eq!(tokenize("`plain`"), vec![TokenKind::NoSubstitutionTemplate("plain".into()), TokenKind::Eof]);
}

#[test]
fn template_nested_braces() {
    assert_eq!(
        tokenize("`${ {a} }`"),
        vec![
            TokenKind::TemplateHead("".into()),
            TokenKind::OpenBrace,
            TokenKind::Identifier("a".into()),
            TokenKind::CloseBrace,
            TokenKind::TemplateTail("".into()),
            TokenKind::Eof
        ]
    );
}

#[test]
fn string_escapes_kept_raw() {
    assert_eq!(tokenize(r#""a\"b""#), vec![TokenKind::String(r#"a\"b"#.into()), TokenKind::Eof]);
}

#[test]
fn unterminated_template_diagnostic() {
    let mut lexer = Lexer::new("`abc");
    let tokens = lexer.tokenize().to_vec();
    assert_eq!(tokens[0].kind, TokenKind::TemplateTail("abc".into()));
    let diags = lexer.into_diagnostics();
    assert_eq!(diags.len(), 1);
    assert_eq!(diags[0].code, "E003");
}

#[test]
fn keyword_text() {
    assert_eq!(TokenKind::Instanceof.text(), "instanceof");
    assert_eq!(TokenKind::String("s".into()).text(), "\"s\"");
    assert_eq!(TokenKind::Unknown('@').text(), "unknown char '@'");
    assert_eq!(TokenKind::Eof.text(), "EOF");
}

#[test]
fn single_character_tokens() {
  for (src, kind) in [("(", TokenKind::OpenParen), (")", TokenKind::CloseParen), (";", TokenKind::Semicolon),
    (",", TokenKind::Comma), (":", TokenKind::Colon), ("~", TokenKind::Tilde), ("^", TokenKind::Caret),
    ("[", TokenKind::OpenBracket), ("]", TokenKind::CloseBracket)] {
    assert_eq!(tokenize(src), vec![kind, TokenKind::Eof]);
  }
}
