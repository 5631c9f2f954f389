//! Source spans and the tokens that the lexer produces.
use vstd::prelude::*;

use crate::text::utf8_width;

verus! {

/// A half-open range of byte offsets into the source text.
#[derive(Debug, Clone, Copy, PartialEq, Eq, Structural)]
pub struct Span {
    pub start: usize,
    pub end: usize,
}

impl Span {
    pub fn new(start: usize, end: usize) -> (s: Self)
        ensures
            s.start == start,
            s.end == end,
    {
        Span { start, end }
    }
}

/// The kinds of tokens. A number literal carries its numeral in canonical
/// decimal form (see `crate::lexer::canonical_numeral`).
#[derive(Debug, PartialEq)]
pub enum TokenKind {
    // Literals
    Number(String),
    String(String),
    True,
    False,
    Null,
    Undefined,
    // Identifiers & keywords
    Identifier(String),
    Let,
    Const,
    Var,
    Function,
    Return,
    If,
    Else,
    For,
    While,
    Class,
    TypeOf,
    KeyOf,
    Void,
    Delete,
    Import,
    From,
    Export,
    As,
    Default,
    Type,
    Switch,
    Case,
    Throw,
    Try,
    Catch,
    Finally,
    Of,
    In,
    Break,
    Continue,
    New,
    Do,
    This,
    Super,
    Extends,
    Static,
    Async,
    Await,
    Enum,
    Interface,
    Instanceof,
    Public,
    Private,
    Protected,
    // Operators and punctuation
    QuestionQuestion,
    QuestionDot,
    PipePipe,
    AmpAmp,
    Pipe,
    Caret,
    Amp,
    EqEq,
    NotEq,
    EqEqEq,
    NotEqEq,
    Lt,
    Gt,
    LtEq,
    GtEq,
    LtLt,
    GtGt,
    GtGtGt,
    Plus,
    Minus,
    Star,
    Slash,
    Percent,
    StarStar,
    Bang,
    Tilde,
    PlusPlus,
    MinusMinus,
    Eq,
    PlusEq,
    MinusEq,
    StarEq,
    SlashEq,
    PercentEq,
    AmpEq,
    PipeEq,
    OpenParen,
    CloseParen,
    OpenBracket,
    CloseBracket,
    OpenBrace,
    CloseBrace,
    Comma,
    Semicolon,
    Colon,
    Dot,
    Question,
    Arrow,
    DotDotDot,
    // Template literals
    NoSubstitutionTemplate(String),
    TemplateHead(String),
    TemplateMiddle(String),
    TemplateTail(String),
    // Special
    Unknown(char),
    Eof,
}

#[derive(Debug, PartialEq)]
pub struct Token {
    pub kind: TokenKind,
    pub span: Span,
}

impl Clone for TokenKind {
    fn clone(&self) -> (r: Self)
        ensures
            r == *self,
    {
        match self {
            TokenKind::Number(v) => TokenKind::Number(v.clone()),
            TokenKind::String(v) => TokenKind::String(v.clone()),
            TokenKind::Identifier(v) => TokenKind::Identifier(v.clone()),
            TokenKind::NoSubstitutionTemplate(v) => TokenKind::NoSubstitutionTemplate(v.clone()),
            TokenKind::TemplateHead(v) => TokenKind::TemplateHead(v.clone()),
            TokenKind::TemplateMiddle(v) => TokenKind::TemplateMiddle(v.clone()),
            TokenKind::TemplateTail(v) => TokenKind::TemplateTail(v.clone()),
            TokenKind::Unknown(c) => TokenKind::Unknown(*c),
            TokenKind::True => TokenKind::True,
            TokenKind::False => TokenKind::False,
            TokenKind::Null => TokenKind::Null,
            TokenKind::Undefined => TokenKind::Undefined,
            TokenKind::Let => TokenKind::Let,
            TokenKind::Const => TokenKind::Const,
            TokenKind::Var => TokenKind::Var,
            TokenKind::Function => TokenKind::Function,
            TokenKind::Return => TokenKind::Return,
            TokenKind::If => TokenKind::If,
            TokenKind::Else => TokenKind::Else,
            TokenKind::For => TokenKind::For,
            TokenKind::While => TokenKind::While,
            TokenKind::Class => TokenKind::Class,
            TokenKind::TypeOf => TokenKind::TypeOf,
            TokenKind::KeyOf => TokenKind::KeyOf,
            TokenKind::Void => TokenKind::Void,
            TokenKind::Delete => TokenKind::Delete,
            TokenKind::Import => TokenKind::Import,
            TokenKind::From => TokenKind::From,
            TokenKind::Export => TokenKind::Export,
            TokenKind::As => TokenKind::As,
            TokenKind::Default => TokenKind::Default,
            TokenKind::Type => TokenKind::Type,
            TokenKind::Switch => TokenKind::Switch,
            TokenKind::Case => TokenKind::Case,
            TokenKind::Throw => TokenKind::Throw,
            TokenKind::Try => TokenKind::Try,
            TokenKind::Catch => TokenKind::Catch,
            TokenKind::Finally => TokenKind::Finally,
            TokenKind::Of => TokenKind::Of,
            TokenKind::In => TokenKind::In,
            TokenKind::Break => TokenKind::Break,
            TokenKind::Continue => TokenKind::Continue,
            TokenKind::New => TokenKind::New,
            TokenKind::Do => TokenKind::Do,
            TokenKind::This => TokenKind::This,
            TokenKind::Super => TokenKind::Super,
            TokenKind::Extends => TokenKind::Extends,
            TokenKind::Static => TokenKind::Static,
            TokenKind::Async => TokenKind::Async,
            TokenKind::Await => TokenKind::Await,
            TokenKind::Enum => TokenKind::Enum,
            TokenKind::Interface => TokenKind::Interface,
            TokenKind::Instanceof => TokenKind::Instanceof,
            TokenKind::Public => TokenKind::Public,
            TokenKind::Private => TokenKind::Private,
            TokenKind::Protected => TokenKind::Protected,
            TokenKind::QuestionQuestion => TokenKind::QuestionQuestion,
            TokenKind::QuestionDot => TokenKind::QuestionDot,
            TokenKind::PipePipe => TokenKind::PipePipe,
            TokenKind::AmpAmp => TokenKind::AmpAmp,
            TokenKind::Pipe => TokenKind::Pipe,
            TokenKind::Caret => TokenKind::Caret,
            TokenKind::Amp => TokenKind::Amp,
            TokenKind::EqEq => TokenKind::EqEq,
            TokenKind::NotEq => TokenKind::NotEq,
            TokenKind::EqEqEq => TokenKind::EqEqEq,
            TokenKind::NotEqEq => TokenKind::NotEqEq,
            TokenKind::Lt => TokenKind::Lt,
            TokenKind::Gt => TokenKind::Gt,
            TokenKind::LtEq => TokenKind::LtEq,
            TokenKind::GtEq => TokenKind::GtEq,
            TokenKind::LtLt => TokenKind::LtLt,
            TokenKind::GtGt => TokenKind::GtGt,
            TokenKind::GtGtGt => TokenKind::GtGtGt,
            TokenKind::Plus => TokenKind::Plus,
            TokenKind::Minus => TokenKind::Minus,
            TokenKind::Star => TokenKind::Star,
            TokenKind::Slash => TokenKind::Slash,
            TokenKind::Percent => TokenKind::Percent,
            TokenKind::StarStar => TokenKind::StarStar,
            TokenKind::Bang => TokenKind::Bang,
            TokenKind::Tilde => TokenKind::Tilde,
            TokenKind::PlusPlus => TokenKind::PlusPlus,
            TokenKind::MinusMinus => TokenKind::MinusMinus,
            TokenKind::Eq => TokenKind::Eq,
            TokenKind::PlusEq => TokenKind::PlusEq,
            TokenKind::MinusEq => TokenKind::MinusEq,
            TokenKind::StarEq => TokenKind::StarEq,
            TokenKind::SlashEq => TokenKind::SlashEq,
            TokenKind::PercentEq => TokenKind::PercentEq,
            TokenKind::AmpEq => TokenKind::AmpEq,
            TokenKind::PipeEq => TokenKind::PipeEq,
            TokenKind::OpenParen => TokenKind::OpenParen,
            TokenKind::CloseParen => TokenKind::CloseParen,
            TokenKind::OpenBracket => TokenKind::OpenBracket,
            TokenKind::CloseBracket => TokenKind::CloseBracket,
            TokenKind::OpenBrace => TokenKind::OpenBrace,
            TokenKind::CloseBrace => TokenKind::CloseBrace,
            TokenKind::Comma => TokenKind::Comma,
            TokenKind::Semicolon => TokenKind::Semicolon,
            TokenKind::Colon => TokenKind::Colon,
            TokenKind::Dot => TokenKind::Dot,
            TokenKind::Question => TokenKind::Question,
            TokenKind::Arrow => TokenKind::Arrow,
            TokenKind::DotDotDot => TokenKind::DotDotDot,
            TokenKind::Eof => TokenKind::Eof,
        }
    }
}

impl Clone for Token {
    fn clone(&self) -> (r: Self)
        ensures
            r == *self,
    {
        Token { kind: self.kind.clone(), span: self.span }
    }
}

impl Token {
    pub fn new(kind: TokenKind, span: Span) -> (t: Self)
        ensures
            t.kind == kind,
            t.span == span,
    {
        Token { kind, span }
    }
}

impl TokenKind {
    /// Whether the kind carries no payload.
    pub open spec fn is_simple(self) -> bool {
        !(self is Number || self is String || self is Identifier || self is NoSubstitutionTemplate
            || self is TemplateHead || self is TemplateMiddle || self is TemplateTail
            || self is Unknown)
    }

    /// How the kind is written in messages.
    pub open spec fn spec_text(self) -> Seq<char> {
        match self {
            TokenKind::Number(n) => n@,
            TokenKind::String(s) => "\""@ + s@ + "\""@,
            TokenKind::Identifier(s) => s@,
            TokenKind::NoSubstitutionTemplate(s) => "`"@ + s@ + "`"@,
            TokenKind::TemplateHead(s) => "`"@ + s@ + " ${"@,
            TokenKind::TemplateMiddle(s) => "} "@ + s@ + " ${"@,
            TokenKind::TemplateTail(s) => "} "@ + s@ + "`"@,
            TokenKind::Unknown(c) => "unknown char '"@ + seq![c] + "'"@,
            TokenKind::True => "true"@,
            TokenKind::False => "false"@,
            TokenKind::Null => "null"@,
            TokenKind::Undefined => "undefined"@,
            TokenKind::Let => "let"@,
            TokenKind::Const => "const"@,
            TokenKind::Var => "var"@,
            TokenKind::Function => "function"@,
            TokenKind::Return => "return"@,
            TokenKind::If => "if"@,
            TokenKind::Else => "else"@,
            TokenKind::For => "for"@,
            TokenKind::While => "while"@,
            TokenKind::Class => "class"@,
            TokenKind::TypeOf => "typeof"@,
            TokenKind::KeyOf => "keyof"@,
            TokenKind::Void => "void"@,
            TokenKind::Delete => "delete"@,
            TokenKind::Import => "import"@,
            TokenKind::From => "from"@,
            TokenKind::Export => "export"@,
            TokenKind::As => "as"@,
            TokenKind::Default => "default"@,
            TokenKind::Type => "type"@,
            TokenKind::Switch => "switch"@,
            TokenKind::Case => "case"@,
            TokenKind::Throw => "throw"@,
            TokenKind::Try => "try"@,
            TokenKind::Catch => "catch"@,
            TokenKind::Finally => "finally"@,
            TokenKind::Of => "of"@,
            TokenKind::In => "in"@,
            TokenKind::Break => "break"@,
            TokenKind::Continue => "continue"@,
            TokenKind::New => "new"@,
            TokenKind::Do => "do"@,
            TokenKind::This => "this"@,
            TokenKind::Super => "super"@,
            TokenKind::Extends => "extends"@,
            TokenKind::Static => "static"@,
            TokenKind::Async => "async"@,
            TokenKind::Await => "await"@,
            TokenKind::Enum => "enum"@,
            TokenKind::Interface => "interface"@,
            TokenKind::Instanceof => "instanceof"@,
            TokenKind::Public => "public"@,
            TokenKind::Private => "private"@,
            TokenKind::Protected => "protected"@,
            TokenKind::QuestionQuestion => "??"@,
            TokenKind::QuestionDot => "?."@,
            TokenKind::PipePipe => "||"@,
            TokenKind::AmpAmp => "&&"@,
            TokenKind::Pipe => "|"@,
            TokenKind::Caret => "^"@,
            TokenKind::Amp => "&"@,
            TokenKind::EqEq => "=="@,
            TokenKind::NotEq => "!="@,
            TokenKind::EqEqEq => "==="@,
            TokenKind::NotEqEq => "!=="@,
            TokenKind::Lt => "<"@,
            TokenKind::Gt => ">"@,
            TokenKind::LtEq => "<="@,
            TokenKind::GtEq => ">="@,
            TokenKind::LtLt => "<<"@,
            TokenKind::GtGt => ">>"@,
            TokenKind::GtGtGt => ">>>"@,
            TokenKind::Plus => "+"@,
            TokenKind::Minus => "-"@,
            TokenKind::Star => "*"@,
            TokenKind::Slash => "/"@,
            TokenKind::Percent => "%"@,
            TokenKind::StarStar => "**"@,
            TokenKind::Bang => "!"@,
            TokenKind::Tilde => "~"@,
            TokenKind::PlusPlus => "++"@,
            TokenKind::MinusMinus => "--"@,
            TokenKind::Eq => "="@,
            TokenKind::PlusEq => "+="@,
            TokenKind::MinusEq => "-="@,
            TokenKind::StarEq => "*="@,
            TokenKind::SlashEq => "/="@,
            TokenKind::PercentEq => "%="@,
            TokenKind::AmpEq => "&="@,
            TokenKind::PipeEq => "|="@,
            TokenKind::OpenParen => "("@,
            TokenKind::CloseParen => ")"@,
            TokenKind::OpenBracket => "["@,
            TokenKind::CloseBracket => "]"@,
            TokenKind::OpenBrace => "{"@,
            TokenKind::CloseBrace => "}"@,
            TokenKind::Comma => ","@,
            TokenKind::Semicolon => ";"@,
            TokenKind::Colon => ":"@,
            TokenKind::Dot => "."@,
            TokenKind::Question => "?"@,
            TokenKind::Arrow => "=>"@,
            TokenKind::DotDotDot => "..."@,
            TokenKind::Eof => "EOF"@,
        }
    }

    /// How the kind is written in messages.
    pub fn text(&self) -> (s: String)
        ensures
            s@ == self.spec_text(),
    {
        let mut s = String::new();
        match self {
            TokenKind::Number(n) => s.push_str(n.as_str()),
            TokenKind::String(v) => {
                s.push('"');
                s.push_str(v.as_str());
                s.push('"');
                proof { reveal_strlit("\""); }
            },
            TokenKind::Identifier(v) => s.push_str(v.as_str()),
            TokenKind::NoSubstitutionTemplate(v) => {
                s.push('`');
                s.push_str(v.as_str());
                s.push('`');
                proof { reveal_strlit("`"); }
            },
            TokenKind::TemplateHead(v) => {
                s.push('`');
                s.push_str(v.as_str());
                s.push_str(" ${");
                proof { reveal_strlit("`"); }
            },
            TokenKind::TemplateMiddle(v) => {
                s.push_str("} ");
                s.push_str(v.as_str());
                s.push_str(" ${");
            },
            TokenKind::TemplateTail(v) => {
                s.push_str("} ");
                s.push_str(v.as_str());
                s.push('`');
                proof { reveal_strlit("`"); }
            },
            TokenKind::Unknown(c) => {
                s.push_str("unknown char '");
                s.push(*c);
                s.push('\'');
                proof { reveal_strlit("'"); }
            },
            TokenKind::True => s.push_str("true"),
            TokenKind::False => s.push_str("false"),
            TokenKind::Null => s.push_str("null"),
            TokenKind::Undefined => s.push_str("undefined"),
            TokenKind::Let => s.push_str("let"),
            TokenKind::Const => s.push_str("const"),
            TokenKind::Var => s.push_str("var"),
            TokenKind::Function => s.push_str("function"),
            TokenKind::Return => s.push_str("return"),
            TokenKind::If => s.push_str("if"),
            TokenKind::Else => s.push_str("else"),
            TokenKind::For => s.push_str("for"),
            TokenKind::While => s.push_str("while"),
            TokenKind::Class => s.push_str("class"),
            TokenKind::TypeOf => s.push_str("typeof"),
            TokenKind::KeyOf => s.push_str("keyof"),
            TokenKind::Void => s.push_str("void"),
            TokenKind::Delete => s.push_str("delete"),
            TokenKind::Import => s.push_str("import"),
            TokenKind::From => s.push_str("from"),
            TokenKind::Export => s.push_str("export"),
            TokenKind::As => s.push_str("as"),
            TokenKind::Default => s.push_str("default"),
            TokenKind::Type => s.push_str("type"),
            TokenKind::Switch => s.push_str("switch"),
            TokenKind::Case => s.push_str("case"),
            TokenKind::Throw => s.push_str("throw"),
            TokenKind::Try => s.push_str("try"),
            TokenKind::Catch => s.push_str("catch"),
            TokenKind::Finally => s.push_str("finally"),
            TokenKind::Of => s.push_str("of"),
            TokenKind::In => s.push_str("in"),
            TokenKind::Break => s.push_str("break"),
            TokenKind::Continue => s.push_str("continue"),
            TokenKind::New => s.push_str("new"),
            TokenKind::Do => s.push_str("do"),
            TokenKind::This => s.push_str("this"),
            TokenKind::Super => s.push_str("super"),
            TokenKind::Extends => s.push_str("extends"),
            TokenKind::Static => s.push_str("static"),
            TokenKind::Async => s.push_str("async"),
            TokenKind::Await => s.push_str("await"),
            TokenKind::Enum => s.push_str("enum"),
            TokenKind::Interface => s.push_str("interface"),
            TokenKind::Instanceof => s.push_str("instanceof"),
            TokenKind::Public => s.push_str("public"),
            TokenKind::Private => s.push_str("private"),
            TokenKind::Protected => s.push_str("protected"),
            TokenKind::QuestionQuestion => s.push_str("??"),
            TokenKind::QuestionDot => s.push_str("?."),
            TokenKind::PipePipe => s.push_str("||"),
            TokenKind::AmpAmp => s.push_str("&&"),
            TokenKind::Pipe => s.push_str("|"),
            TokenKind::Caret => s.push_str("^"),
            TokenKind::Amp => s.push_str("&"),
            TokenKind::EqEq => s.push_str("=="),
            TokenKind::NotEq => s.push_str("!="),
            TokenKind::EqEqEq => s.push_str("==="),
            TokenKind::NotEqEq => s.push_str("!=="),
            TokenKind::Lt => s.push_str("<"),
            TokenKind::Gt => s.push_str(">"),
            TokenKind::LtEq => s.push_str("<="),
            TokenKind::GtEq => s.push_str(">="),
            TokenKind::LtLt => s.push_str("<<"),
            TokenKind::GtGt => s.push_str(">>"),
            TokenKind::GtGtGt => s.push_str(">>>"),
            TokenKind::Plus => s.push_str("+"),
            TokenKind::Minus => s.push_str("-"),
            TokenKind::Star => s.push_str("*"),
            TokenKind::Slash => s.push_str("/"),
            TokenKind::Percent => s.push_str("%"),
            TokenKind::StarStar => s.push_str("**"),
            TokenKind::Bang => s.push_str("!"),
            TokenKind::Tilde => s.push_str("~"),
            TokenKind::PlusPlus => s.push_str("++"),
            TokenKind::MinusMinus => s.push_str("--"),
            TokenKind::Eq => s.push_str("="),
            TokenKind::PlusEq => s.push_str("+="),
            TokenKind::MinusEq => s.push_str("-="),
            TokenKind::StarEq => s.push_str("*="),
            TokenKind::SlashEq => s.push_str("/="),
            TokenKind::PercentEq => s.push_str("%="),
            TokenKind::AmpEq => s.push_str("&="),
            TokenKind::PipeEq => s.push_str("|="),
            TokenKind::OpenParen => s.push_str("("),
            TokenKind::CloseParen => s.push_str(")"),
            TokenKind::OpenBracket => s.push_str("["),
            TokenKind::CloseBracket => s.push_str("]"),
            TokenKind::OpenBrace => s.push_str("{"),
            TokenKind::CloseBrace => s.push_str("}"),
            TokenKind::Comma => s.push_str(","),
            TokenKind::Semicolon => s.push_str(";"),
            TokenKind::Colon => s.push_str(":"),
            TokenKind::Dot => s.push_str("."),
            TokenKind::Question => s.push_str("?"),
            TokenKind::Arrow => s.push_str("=>"),
            TokenKind::DotDotDot => s.push_str("..."),
            TokenKind::Eof => s.push_str("EOF"),
        }
        s
    }

    /// Whether `self` is the payload-free kind `other`.
    pub fn same_kind(&self, other: &TokenKind) -> (r: bool)
        requires
            other.is_simple(),
        ensures
            r == (*self == *other),
    {
        match other {
            TokenKind::True => matches!(self, TokenKind::True),
            TokenKind::False => matches!(self, TokenKind::False),
            TokenKind::Null => matches!(self, TokenKind::Null),
            TokenKind::Undefined => matches!(self, TokenKind::Undefined),
            TokenKind::Let => matches!(self, TokenKind::Let),
            TokenKind::Const => matches!(self, TokenKind::Const),
            TokenKind::Var => matches!(self, TokenKind::Var),
            TokenKind::Function => matches!(self, TokenKind::Function),
            TokenKind::Return => matches!(self, TokenKind::Return),
            TokenKind::If => matches!(self, TokenKind::If),
            TokenKind::Else => matches!(self, TokenKind::Else),
            TokenKind::For => matches!(self, TokenKind::For),
            TokenKind::While => matches!(self, TokenKind::While),
            TokenKind::Class => matches!(self, TokenKind::Class),
            TokenKind::TypeOf => matches!(self, TokenKind::TypeOf),
            TokenKind::KeyOf => matches!(self, TokenKind::KeyOf),
            TokenKind::Void => matches!(self, TokenKind::Void),
            TokenKind::Delete => matches!(self, TokenKind::Delete),
            TokenKind::Import => matches!(self, TokenKind::Import),
            TokenKind::From => matches!(self, TokenKind::From),
            TokenKind::Export => matches!(self, TokenKind::Export),
            TokenKind::As => matches!(self, TokenKind::As),
            TokenKind::Default => matches!(self, TokenKind::Default),
            TokenKind::Type => matches!(self, TokenKind::Type),
            TokenKind::Switch => matches!(self, TokenKind::Switch),
            TokenKind::Case => matches!(self, TokenKind::Case),
            TokenKind::Throw => matches!(self, TokenKind::Throw),
            TokenKind::Try => matches!(self, TokenKind::Try),
            TokenKind::Catch => matches!(self, TokenKind::Catch),
            TokenKind::Finally => matches!(self, TokenKind::Finally),
            TokenKind::Of => matches!(self, TokenKind::Of),
            TokenKind::In => matches!(self, TokenKind::In),
            TokenKind::Break => matches!(self, TokenKind::Break),
            TokenKind::Continue => matches!(self, TokenKind::Continue),
            TokenKind::New => matches!(self, TokenKind::New),
            TokenKind::Do => matches!(self, TokenKind::Do),
            TokenKind::This => matches!(self, TokenKind::This),
            TokenKind::Super => matches!(self, TokenKind::Super),
            TokenKind::Extends => matches!(self, TokenKind::Extends),
            TokenKind::Static => matches!(self, TokenKind::Static),
            TokenKind::Async => matches!(self, TokenKind::Async),
            TokenKind::Await => matches!(self, TokenKind::Await),
            TokenKind::Enum => matches!(self, TokenKind::Enum),
            TokenKind::Interface => matches!(self, TokenKind::Interface),
            TokenKind::Instanceof => matches!(self, TokenKind::Instanceof),
            TokenKind::Public => matches!(self, TokenKind::Public),
            TokenKind::Private => matches!(self, TokenKind::Private),
            TokenKind::Protected => matches!(self, TokenKind::Protected),
            TokenKind::QuestionQuestion => matches!(self, TokenKind::QuestionQuestion),
            TokenKind::QuestionDot => matches!(self, TokenKind::QuestionDot),
            TokenKind::PipePipe => matches!(self, TokenKind::PipePipe),
            TokenKind::AmpAmp => matches!(self, TokenKind::AmpAmp),
            TokenKind::Pipe => matches!(self, TokenKind::Pipe),
            TokenKind::Caret => matches!(self, TokenKind::Caret),
            TokenKind::Amp => matches!(self, TokenKind::Amp),
            TokenKind::EqEq => matches!(self, TokenKind::EqEq),
            TokenKind::NotEq => matches!(self, TokenKind::NotEq),
            TokenKind::EqEqEq => matches!(self, TokenKind::EqEqEq),
            TokenKind::NotEqEq => matches!(self, TokenKind::NotEqEq),
            TokenKind::Lt => matches!(self, TokenKind::Lt),
            TokenKind::Gt => matches!(self, TokenKind::Gt),
            TokenKind::LtEq => matches!(self, TokenKind::LtEq),
            TokenKind::GtEq => matches!(self, TokenKind::GtEq),
            TokenKind::LtLt => matches!(self, TokenKind::LtLt),
            TokenKind::GtGt => matches!(self, TokenKind::GtGt),
            TokenKind::GtGtGt => matches!(self, TokenKind::GtGtGt),
            TokenKind::Plus => matches!(self, TokenKind::Plus),
            TokenKind::Minus => matches!(self, TokenKind::Minus),
            TokenKind::Star => matches!(self, TokenKind::Star),
            TokenKind::Slash => matches!(self, TokenKind::Slash),
            TokenKind::Percent => matches!(self, TokenKind::Percent),
            TokenKind::StarStar => matches!(self, TokenKind::StarStar),
            TokenKind::Bang => matches!(self, TokenKind::Bang),
            TokenKind::Tilde => matches!(self, TokenKind::Tilde),
            TokenKind::PlusPlus => matches!(self, TokenKind::PlusPlus),
            TokenKind::MinusMinus => matches!(self, TokenKind::MinusMinus),
            TokenKind::Eq => matches!(self, TokenKind::Eq),
            TokenKind::PlusEq => matches!(self, TokenKind::PlusEq),
            TokenKind::MinusEq => matches!(self, TokenKind::MinusEq),
            TokenKind::StarEq => matches!(self, TokenKind::StarEq),
            TokenKind::SlashEq => matches!(self, TokenKind::SlashEq),
            TokenKind::PercentEq => matches!(self, TokenKind::PercentEq),
            TokenKind::AmpEq => matches!(self, TokenKind::AmpEq),
            TokenKind::PipeEq => matches!(self, TokenKind::PipeEq),
            TokenKind::OpenParen => matches!(self, TokenKind::OpenParen),
            TokenKind::CloseParen => matches!(self, TokenKind::CloseParen),
            TokenKind::OpenBracket => matches!(self, TokenKind::OpenBracket),
            TokenKind::CloseBracket => matches!(self, TokenKind::CloseBracket),
            TokenKind::OpenBrace => matches!(self, TokenKind::OpenBrace),
            TokenKind::CloseBrace => matches!(self, TokenKind::CloseBrace),
            TokenKind::Comma => matches!(self, TokenKind::Comma),
            TokenKind::Semicolon => matches!(self, TokenKind::Semicolon),
            TokenKind::Colon => matches!(self, TokenKind::Colon),
            TokenKind::Dot => matches!(self, TokenKind::Dot),
            TokenKind::Question => matches!(self, TokenKind::Question),
            TokenKind::Arrow => matches!(self, TokenKind::Arrow),
            TokenKind::DotDotDot => matches!(self, TokenKind::DotDotDot),
            TokenKind::Eof => matches!(self, TokenKind::Eof),
            _ => false,
        }
    }
}

} // verus!
