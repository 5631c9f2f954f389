//! Statements and declarations.
use vstd::prelude::*;

use crate::ast::{
    CatchClause, ClassBody, ClassField, EnumMember, Expression, ForInit, ImportSpecifier,
    MethodDefinition, MethodKind, ObjectPatternProperty, Parameter, PropertyKey, Statement,
    SwitchCase, TypeAnn, VariableDeclarator, VariableKind, Visibility,
};
use crate::parser::typ::string_is;
use crate::parser::Parser;
use crate::token::{Span, Token, TokenKind};

verus! {

/// The name carried by an identifier token.
pub fn identifier_of(kind: &TokenKind) -> (r: Option<String>)
    ensures
        r is Some <==> kind is Identifier,
        *kind matches TokenKind::Identifier(n) ==> r matches Some(m) && m@ == n@,
{
    match kind {
        TokenKind::Identifier(n) => Some(n.clone()),
        _ => None,
    }
}

fn variable_kind_of(kind: &TokenKind) -> (r: VariableKind)
    ensures
        r == (match *kind {
            TokenKind::Const => VariableKind::Const,
            TokenKind::Var => VariableKind::Var,
            _ => VariableKind::Let,
        }),
{
    match kind {
        TokenKind::Const => VariableKind::Const,
        TokenKind::Var => VariableKind::Var,
        _ => VariableKind::Let,
    }
}

fn is_declaration_keyword(kind: &TokenKind) -> (r: bool)
    ensures
        r == (*kind is Let || *kind is Const || *kind is Var),
{
    matches!(kind, TokenKind::Let) || matches!(kind, TokenKind::Const) || matches!(
        kind,
        TokenKind::Var
    )
}

/// A token that ends the statements of a `case` clause.
pub open spec fn ends_case(kind: TokenKind) -> bool {
    kind is Case || kind is Default || kind is CloseBrace || kind is Eof
}

/// A declarator spans from its target to the end of its initializer, or of
/// its target when it has none.
pub open spec fn declarator_spanned(d: VariableDeclarator) -> bool {
    &&& d.span.start == d.id.spec_span().start
    &&& d.span.end == (match d.init {
        Some(e) => e.spec_span().end,
        None => d.id.spec_span().end,
    })
}

/// The statement a leading token introduces: a keyword its own kind of
/// statement, a name a labeled or an expression statement, anything else
/// an expression statement.
pub open spec fn statement_for(kind: TokenKind, s: Statement) -> bool {
    match kind {
        TokenKind::Let | TokenKind::Const | TokenKind::Var => s is VariableDeclaration,
        TokenKind::If => s is IfStatement,
        TokenKind::While => s is WhileStatement,
        TokenKind::For => s is ForStatement || s is ForInOfStatement,
        TokenKind::Return => s is ReturnStatement,
        TokenKind::Function | TokenKind::Async => s is FunctionDeclaration,
        TokenKind::OpenBrace => s is BlockStatement,
        TokenKind::Import => s is ImportDeclaration,
        TokenKind::Type => s is TypeAliasDeclaration,
        TokenKind::Export => s is ExportDeclaration,
        TokenKind::Switch => s is SwitchStatement,
        TokenKind::Throw => s is ThrowStatement,
        TokenKind::Try => s is TryStatement,
        TokenKind::Break => s is BreakStatement,
        TokenKind::Continue => s is ContinueStatement,
        TokenKind::Do => s is DoWhileStatement,
        TokenKind::Class => s is ClassDeclaration,
        TokenKind::Enum => s is EnumDeclaration,
        TokenKind::Interface => s is InterfaceDeclaration,
        TokenKind::Identifier(_) => s is LabeledStatement || s is ExpressionStatement,
        _ => s is ExpressionStatement,
    }
}

/// The keywords that always begin a statement of their own kind.
pub open spec fn starts_keyword_statement(kind: TokenKind) -> bool {
    ||| kind is Let
    ||| kind is Const
    ||| kind is Var
    ||| kind is If
    ||| kind is While
    ||| kind is For
    ||| kind is Return
    ||| kind is Function
    ||| kind is Async
    ||| kind is OpenBrace
    ||| kind is Import
    ||| kind is Type
    ||| kind is Export
    ||| kind is Switch
    ||| kind is Throw
    ||| kind is Try
    ||| kind is Break
    ||| kind is Continue
    ||| kind is Do
    ||| kind is Class
    ||| kind is Enum
    ||| kind is Interface
}

/// A class whose body opens with a field that is a bare name and `;`.
pub open spec fn first_member_field(t: Seq<Token>, o: int) -> bool {
    &&& 0 <= o && o + 4 < t.len()
    &&& t[o + 1].kind is Identifier
    &&& t[o + 2].kind is OpenBrace
    &&& t[o + 3].kind is Identifier
    &&& t[o + 4].kind is Semicolon
}

/// A class whose body opens with a method named by a bare name.
pub open spec fn first_member_method(t: Seq<Token>, o: int) -> bool {
    &&& 0 <= o && o + 4 < t.len()
    &&& t[o + 1].kind is Identifier
    &&& t[o + 2].kind is OpenBrace
    &&& t[o + 3].kind is Identifier
    &&& t[o + 4].kind is OpenParen
}

impl Parser {
    /// A statement made of a placeholder expression at the next token.
    fn placeholder_statement(&self) -> (s: Statement)
        requires
            self.wf(),
        ensures
            s == (Statement::ExpressionStatement {
                expression: Box::new(Expression::Placeholder { span: self.spec_peek().span }),
                span: self.spec_peek().span,
            }),
    {
        let span = self.peek().span;
        Statement::ExpressionStatement {
            expression: Box::new(Expression::Placeholder { span }),
            span,
        }
    }

    fn placeholder_expression(&self) -> (e: Box<Expression>)
        requires
            self.wf(),
        ensures
            *e == (Expression::Placeholder { span: self.spec_peek().span }),
    {
        Box::new(Expression::Placeholder { span: self.peek().span })
    }

    /// Records "Expected identifier" at the next token.
    fn report_expected_identifier(&mut self)
        requires
            old(self).wf(),
        ensures
            old(self).step(*final(self)),
            final(self).pos() == old(self).pos(),
            final(self).diagnostics@.len() == old(self).diagnostics@.len() + 1,
            final(self).diagnostics@.drop_last() == old(self).diagnostics@,
            final(self).diagnostics@.last().code@ == "E001"@,
            final(self).diagnostics@.last().message@ == "Expected identifier, found '"@ + old(
                self,
            ).spec_peek().kind.spec_text() + "'"@,
            final(self).diagnostics@.last().span == old(self).spec_peek().span,
    {
        let mut msg = String::new();
        msg.push_str("Expected identifier, found '");
        let f = self.peek().kind.text();
        msg.push_str(f.as_str());
        msg.push_str("'");
        self.report("E001", msg.as_str());
    }

    /// A statement, or `None` (with a diagnostic) where no expression
    /// starts. A statement that is returned has consumed at least one token.
    pub fn parse_statement(&mut self) -> (s: Option<Statement>)
        requires
            old(self).wf(),
        ensures
            old(self).step(*final(self)),
            s is Some ==> final(self).pos() > old(self).pos(),
            s matches Some(st) ==> statement_for(old(self).spec_peek().kind, st),
            starts_keyword_statement(old(self).spec_peek().kind) ==> s is Some,
            s is None ==> final(self).diagnostics@.len() > 0 && final(self).diagnostics@.last().code@
                == "E002"@ && final(self).diagnostics@.last().message@ == "Expected expression"@,
            !starts_keyword_statement(old(self).spec_peek().kind) && !crate::parser::expr::starts_expression(
                old(self).spec_peek().kind,
            ) ==> s is None && final(self).pos() == old(self).pos(),
            crate::parser::expr::lone_literal(old(self).token_seq(), old(self).pos()) matches Some(x)
                ==> s == Some(
                Statement::ExpressionStatement { expression: Box::new(x), span: x.spec_span() },
            ),
            crate::parser::expr::literal_binary(old(self).token_seq(), old(self).pos(), 0) matches Some(
                x,
            ) ==> s == Some(
                Statement::ExpressionStatement { expression: Box::new(x), span: x.spec_span() },
            ),
            crate::parser::expr::chain_expr(old(self).token_seq(), old(self).pos(), 0) matches Some(x)
                ==> s == Some(
                Statement::ExpressionStatement { expression: Box::new(x), span: x.spec_span() },
            ) && final(self).pos() == crate::parser::expr::chain_statement_end(
                old(self).token_seq(),
                old(self).pos(),
            ),
        decreases old(self).remaining(), 5int,
    {
        proof {
            if crate::parser::expr::lone_literal(self.token_seq(), self.pos()) is Some
                || crate::parser::expr::literal_binary(self.token_seq(), self.pos(), 0) is Some
                || crate::parser::expr::chain_expr(self.token_seq(), self.pos(), 0) is Some {
                assert(self.peek_index() == self.pos());
            }
        }
        let kind = self.peek().kind.clone();
        match kind {
            TokenKind::Let | TokenKind::Const | TokenKind::Var => Some(
                self.parse_variable_declaration(),
            ),
            TokenKind::If => Some(self.parse_if_statement()),
            TokenKind::While => Some(self.parse_while_statement()),
            TokenKind::For => Some(self.parse_for_statement()),
            TokenKind::Return => Some(self.parse_return_statement()),
            TokenKind::Function | TokenKind::Async => Some(self.parse_function_declaration()),
            TokenKind::OpenBrace => Some(self.parse_block()),
            TokenKind::Import => Some(self.parse_import_statement()),
            TokenKind::Type => Some(self.parse_type_alias()),
            TokenKind::Export => Some(self.parse_export_declaration()),
            TokenKind::Switch => Some(self.parse_switch_statement()),
            TokenKind::Throw => Some(self.parse_throw_statement()),
            TokenKind::Try => Some(self.parse_try_statement()),
            TokenKind::Break => Some(self.parse_break_statement()),
            TokenKind::Continue => Some(self.parse_continue_statement()),
            TokenKind::Do => Some(self.parse_do_while_statement()),
            TokenKind::Class => Some(self.parse_class_declaration()),
            TokenKind::Enum => Some(self.parse_enum_declaration()),
            TokenKind::Interface => Some(self.parse_interface_declaration()),
            _ => {
                // Labeled statement: identifier followed by ':'
                if matches!(kind, TokenKind::Identifier(_)) && matches!(self.peek_ahead(1).kind, TokenKind::Colon) {
                    let start = self.peek().span.start;
                    let label = match identifier_of(&kind) {
                        Some(n) => n,
                        None => String::new(),
                    };
                    self.advance();
                    self.advance();
                    let body = match self.parse_statement() {
                        Some(b) => b,
                        None => self.placeholder_statement(),
                    };
                    let end = body.span().end;
                    return Some(
                        Statement::LabeledStatement {
                            label,
                            body: Box::new(body),
                            span: Span::new(start, end),
                        },
                    );
                }
                match self.parse_expression(0) {
                    Some(expr) => {
                        let span = expr.span();
                        proof {
                            if crate::parser::expr::chain_expr(old(self).token_seq(), old(self).pos(), 0) is Some {
                                assert(self.peek_index() == self.pos());
                            }
                        }
                        self.maybe_semicolon();
                        Some(Statement::ExpressionStatement { expression: expr, span })
                    },
                    None => {
                        self.report("E002", "Expected expression");
                        None
                    },
                }
            },
        }
    }

    /// Statements after a `{` (the first token is consumed whatever it is)
    /// up to the closing `}`, and the span from the first token through the
    /// `}`.
    pub fn parse_block_body(&mut self) -> (r: (Vec<Statement>, Span))
        requires
            old(self).wf(),
        ensures
            old(self).step(*final(self)),
            !(old(self).spec_peek().kind is Eof) ==> final(self).pos() > old(self).pos(),
        decreases old(self).remaining(), 0int,
    {
        let first = self.advance();
        let start = first.span.start;
        let mut body: Vec<Statement> = Vec::new();
        while !matches!(self.peek().kind, TokenKind::CloseBrace) && !self.is_at_end()
            invariant
                old(self).step(*self),
                self.pos() > old(self).pos() || self.spec_peek().kind is Eof,
                !(old(self).spec_peek().kind is Eof) ==> self.pos() > old(self).pos(),
            decreases self.remaining(),
        {
            match self.parse_statement() {
                Some(stmt) => body.push(stmt),
                None => self.sync(),
            }
        }
        let found = self.expect(TokenKind::CloseBrace);
        let end_pos = if found {
            self.tokens[self.cursor - 1].span.end
        } else {
            self.last_end()
        };
        (body, Span::new(start, end_pos))
    }

    /// A block statement `{ ... }`.
    pub fn parse_block(&mut self) -> (s: Statement)
        requires
            old(self).wf(),
        ensures
            s is BlockStatement,
            old(self).step(*final(self)),
            !(old(self).spec_peek().kind is Eof) ==> final(self).pos() > old(self).pos(),
        decreases old(self).remaining(), 1int,
    {
        let (body, span) = self.parse_block_body();
        Statement::BlockStatement { body, span }
    }

    /// A statement, or a placeholder where none could be parsed.
    fn parse_statement_or_placeholder(&mut self) -> (s: Statement)
        requires
            old(self).wf(),
        ensures
            old(self).step(*final(self)),
            statement_for(old(self).spec_peek().kind, s) || s == (Statement::ExpressionStatement {
                expression: Box::new(Expression::Placeholder { span: final(self).spec_peek().span }),
                span: final(self).spec_peek().span,
            }),
            !starts_keyword_statement(old(self).spec_peek().kind) && !crate::parser::expr::starts_expression(
                old(self).spec_peek().kind,
            ) ==> s == (Statement::ExpressionStatement {
                expression: Box::new(Expression::Placeholder { span: old(self).spec_peek().span }),
                span: old(self).spec_peek().span,
            }) && final(self).pos() == old(self).pos(),
            crate::parser::expr::lone_literal(old(self).token_seq(), old(self).pos()) matches Some(x)
                ==> s == (Statement::ExpressionStatement {
                expression: Box::new(x),
                span: x.spec_span(),
            }),
        decreases old(self).remaining(), 6int,
    {
        match self.parse_statement() {
            Some(s) => s,
            None => self.placeholder_statement(),
        }
    }

    /// An expression, or a placeholder where none could be parsed.
    fn parse_expression_or_placeholder(&mut self) -> (e: Box<Expression>)
        requires
            old(self).wf(),
        ensures
            old(self).step(*final(self)),
            !crate::parser::expr::starts_expression(old(self).spec_peek().kind) ==> *e == (
            Expression::Placeholder { span: old(self).spec_peek().span }) && *final(self) == *old(
                self,
            ),
            crate::parser::expr::lone_literal(old(self).token_seq(), old(self).pos()) matches Some(x)
                ==> *e == x && final(self).pos() == old(self).pos() + 1,
            crate::parser::expr::literal_binary(old(self).token_seq(), old(self).pos(), 0) matches Some(
                x,
            ) ==> *e == x && final(self).pos() == old(self).pos() + 3,
        decreases old(self).remaining(), 4int,
    {
        match self.parse_expression(0) {
            Some(e) => e,
            None => self.placeholder_expression(),
        }
    }

    pub fn parse_if_statement(&mut self) -> (s: Statement)
        requires
            old(self).wf(),
            !(old(self).spec_peek().kind is Eof),
        ensures
            s is IfStatement,
            old(self).step(*final(self)),
            final(self).pos() > old(self).pos(),
        decreases old(self).remaining(), 0int,
    {
        let start = self.advance().span.start;
        self.expect(TokenKind::OpenParen);
        let test = self.parse_expression_or_placeholder();
        self.expect(TokenKind::CloseParen);
        let consequent = self.parse_statement_or_placeholder();
        let alternate = if matches!(self.peek().kind, TokenKind::Else) {
            self.advance();
            match self.parse_statement() {
                Some(s) => Some(Box::new(s)),
                None => None,
            }
        } else {
            None
        };
        let end = match &alternate {
            Some(s) => s.span(),
            None => consequent.span(),
        };
        Statement::IfStatement {
            test,
            consequent: Box::new(consequent),
            alternate,
            span: Span::new(start, end.end),
        }
    }

    pub fn parse_while_statement(&mut self) -> (s: Statement)
        requires
            old(self).wf(),
            !(old(self).spec_peek().kind is Eof),
        ensures
            s is WhileStatement,
            old(self).step(*final(self)),
            final(self).pos() > old(self).pos(),
        decreases old(self).remaining(), 0int,
    {
        let start = self.advance().span.start;
        self.expect(TokenKind::OpenParen);
        let test = self.parse_expression_or_placeholder();
        self.expect(TokenKind::CloseParen);
        let body = self.parse_statement_or_placeholder();
        let end = body.span();
        Statement::WhileStatement { test, body: Box::new(body), span: Span::new(start, end.end) }
    }

    pub fn parse_for_statement(&mut self) -> (s: Statement)
        requires
            old(self).wf(),
            !(old(self).spec_peek().kind is Eof),
        ensures
            s is ForStatement || s is ForInOfStatement,
            old(self).step(*final(self)),
            final(self).pos() > old(self).pos(),
        decreases old(self).remaining(), 0int,
    {
        let start = self.advance().span.start;
        self.expect(TokenKind::OpenParen);
        // for (let x of/in expr)
        if is_declaration_keyword(&self.peek().kind) && (matches!(
            self.peek_ahead(2).kind,
            TokenKind::Of
        ) || matches!(self.peek_ahead(2).kind, TokenKind::In)) {
            let kind = variable_kind_of(&self.peek().kind);
            self.advance();
            let left = match identifier_of(&self.peek().kind) {
                Some(n) => {
                    self.advance();
                    n
                },
                None => {
                    self.report_expected_identifier();
                    String::new()
                },
            };
            let is_of = matches!(self.peek().kind, TokenKind::Of);
            self.advance();
            let right = self.parse_expression_or_placeholder();
            self.expect(TokenKind::CloseParen);
            let body = self.parse_statement_or_placeholder();
            let end = body.span();
            return Statement::ForInOfStatement {
                kind,
                left,
                right,
                body: Box::new(body),
                is_of,
                span: Span::new(start, end.end),
            };
        }
        // for (x of/in expr) — x is an existing identifier

        if matches!(self.peek().kind, TokenKind::Identifier(_)) && (matches!(self.peek_ahead(1).kind, TokenKind::Of)
            || matches!(self.peek_ahead(1).kind, TokenKind::In)) {
            let left = match identifier_of(&self.peek().kind) {
                Some(n) => n,
                None => String::new(),
            };
            self.advance();
            let is_of = matches!(self.peek().kind, TokenKind::Of);
            self.advance();
            let right = self.parse_expression_or_placeholder();
            self.expect(TokenKind::CloseParen);
            let body = self.parse_statement_or_placeholder();
            let end = body.span();
            return Statement::ForInOfStatement {
                kind: VariableKind::Var,
                left,
                right,
                body: Box::new(body),
                is_of,
                span: Span::new(start, end.end),
            };
        }
        // init

        let init = if matches!(self.peek().kind, TokenKind::Semicolon) {
            self.advance();
            None
        } else if is_declaration_keyword(&self.peek().kind) {
            let (kind, declarations) = self.parse_variable_declaration_for_init();
            Some(ForInit::VariableDeclaration { kind, declarations })
        } else {
            let expr = self.parse_expression_or_placeholder();
            self.maybe_semicolon();
            Some(ForInit::Expression(expr))
        };
        // test
        let test = if matches!(self.peek().kind, TokenKind::Semicolon) {
            None
        } else {
            self.parse_expression(0)
        };
        self.maybe_semicolon();
        // update
        let update = if matches!(self.peek().kind, TokenKind::CloseParen) {
            None
        } else {
            self.parse_expression(0)
        };
        self.expect(TokenKind::CloseParen);
        let body = self.parse_statement_or_placeholder();
        let end = body.span();
        Statement::ForStatement {
            init,
            test,
            update,
            body: Box::new(body),
            span: Span::new(start, end.end),
        }
    }

    /// The declarators of `let`/`const`/`var` in a `for` head.
    pub fn parse_variable_declaration_for_init(&mut self) -> (r: (
        VariableKind,
        Vec<VariableDeclarator>,
    ))
        requires
            old(self).wf(),
            !(old(self).spec_peek().kind is Eof),
        ensures
            old(self).step(*final(self)),
            final(self).pos() > old(self).pos(),
        decreases old(self).remaining(), 0int,
    {
        let kind = variable_kind_of(&self.peek().kind);
        self.advance();
        let declarations = self.parse_declarators();
        self.maybe_semicolon();
        (kind, declarations)
    }

    /// `id [: Type] [= init]` separated by commas.
    fn parse_declarators(&mut self) -> (ds: Vec<VariableDeclarator>)
        requires
            old(self).wf(),
        ensures
            old(self).step(*final(self)),
            ds@.len() >= 1,
            !(final(self).spec_peek().kind is Comma),
            forall|i: int| 0 <= i < ds@.len() ==> declarator_spanned(#[trigger] ds@[i]),
        decreases old(self).remaining(), 5int,
    {
        let mut declarations: Vec<VariableDeclarator> = Vec::new();
        loop
            invariant
                old(self).step(*self),
                forall|i: int| 0 <= i < declarations@.len() ==> declarator_spanned(
                    #[trigger] declarations@[i],
                ),
            ensures
                old(self).step(*self),
                declarations@.len() >= 1,
                !(self.spec_peek().kind is Comma),
                forall|i: int| 0 <= i < declarations@.len() ==> declarator_spanned(
                    #[trigger] declarations@[i],
                ),
            decreases self.remaining(),
        {
            let id = self.parse_lvalue();
            let type_ann = if matches!(self.peek().kind, TokenKind::Colon) {
                self.parse_type_annotation()
            } else {
                None
            };
            let init = if matches!(self.peek().kind, TokenKind::Eq) {
                self.advance();
                self.parse_expression(0)
            } else {
                None
            };
            let end = match &init {
                Some(e) => e.span().end,
                None => id.span().end,
            };
            let span = Span::new(id.span().start, end);
            declarations.push(VariableDeclarator { id, type_ann, init, span });
            if matches!(self.peek().kind, TokenKind::Comma) {
                self.advance();
            } else {
                break;
            }
        }
        declarations
    }

    pub fn parse_return_statement(&mut self) -> (s: Statement)
        requires
            old(self).wf(),
            !(old(self).spec_peek().kind is Eof),
        ensures
            s is ReturnStatement,
            old(self).step(*final(self)),
            final(self).pos() > old(self).pos(),
            s->ReturnStatement_span.start == old(self).spec_peek().span.start,
            ({
                let t = old(self).token_seq();
                let o = old(self).pos();
                t[o + 1].kind is Semicolon ==> s == Statement::ReturnStatement {
                    value: None,
                    span: Span { start: t[o].span.start, end: t[o + 1].span.end },
                } && final(self).pos() == o + 2
            }),
            crate::parser::expr::lone_literal(old(self).token_seq(), old(self).pos() + 1) matches Some(
                x,
            ) ==> s->ReturnStatement_value == Some(Box::new(x)) && s->ReturnStatement_span.end
                == x.spec_span().end,
        decreases old(self).remaining(), 0int,
    {
        proof {
            assert(old(self).peek_index() == old(self).pos());
        }
        let start = self.advance().span.start;
        proof {
            if crate::parser::expr::lone_literal(self.token_seq(), self.pos()) is Some {
                assert(self.peek_index() == self.pos());
            }
        }
        let value = if matches!(self.peek().kind, TokenKind::Semicolon) {
            None
        } else {
            self.parse_expression(0)
        };
        self.maybe_semicolon();
        let end = match &value {
            Some(e) => e.span().end,
            None => self.last_end(),
        };
        Statement::ReturnStatement { value, span: Span::new(start, end) }
    }

    pub fn parse_function_declaration(&mut self) -> (s: Statement)
        requires
            old(self).wf(),
            !(old(self).spec_peek().kind is Eof),
        ensures
            s is FunctionDeclaration,
            old(self).step(*final(self)),
            final(self).pos() > old(self).pos(),
        decreases old(self).remaining(), 0int,
    {
        let is_async = matches!(self.peek().kind, TokenKind::Async);
        let start = self.advance().span.start;
        if is_async && matches!(self.peek().kind, TokenKind::Function) {
            self.advance();
        }
        let name = match identifier_of(&self.peek().kind) {
            Some(n) => n,
            None => {
                self.report_expected_identifier();
                String::new()
            },
        };
        if name.as_str().len() != 0 {
            self.advance();
        }
        let type_params = self.parse_type_params();
        self.expect(TokenKind::OpenParen);
        let params = self.parse_function_params();
        self.expect(TokenKind::CloseParen);
        let return_type = if matches!(self.peek().kind, TokenKind::Colon) {
            self.parse_type_annotation()
        } else {
            None
        };
        let body = self.parse_block();
        let end = body.span();
        Statement::FunctionDeclaration {
            name,
            params,
            return_type,
            body: Box::new(body),
            is_async,
            type_params,
            span: Span::new(start, end.end),
        }
    }

    /// Parameters up to (not including) the closing `)`.
    pub fn parse_function_params(&mut self) -> (ps: Vec<Parameter>)
        requires
            old(self).wf(),
        ensures
            old(self).step(*final(self)),
            final(self).spec_peek().kind is CloseParen || final(self).spec_peek().kind is Eof,
            old(self).spec_peek().kind is CloseParen ==> ps@.len() == 0 && *final(self) == *old(self),
        decreases old(self).remaining(), 0int,
    {
        let mut params: Vec<Parameter> = Vec::new();
        while !matches!(self.peek().kind, TokenKind::CloseParen) && !self.is_at_end()
            invariant
                old(self).step(*self),
                old(self).spec_peek().kind is CloseParen ==> params@.len() == 0 && *self == *old(self),
            decreases self.remaining(),
        {
            let start = self.peek().span;
            let is_rest = matches!(self.peek().kind, TokenKind::DotDotDot);
            if is_rest {
                self.advance();
            }
            let name = match identifier_of(&self.peek().kind) {
                Some(n) => n,
                None => {
                    self.advance();
                    continue;
                },
            };
            self.advance();
            let type_ann = if matches!(self.peek().kind, TokenKind::Colon) {
                self.parse_type_annotation()
            } else {
                None
            };
            let default_value = if matches!(self.peek().kind, TokenKind::Eq) {
                self.advance();
                self.parse_expression(0)
            } else {
                None
            };
            let end = self.last_end();
            params.push(
                Parameter { name, type_ann, default_value, is_rest, span: Span::new(start.start, end) },
            );
            if matches!(self.peek().kind, TokenKind::Comma) {
                self.advance();
            }
        }
        params
    }

    /// `<T, U extends V>` if a `<` comes next.
    pub fn parse_type_params(&mut self) -> (ps: Vec<(String, Option<TypeAnn>)>)
        requires
            old(self).wf(),
        ensures
            old(self).step(*final(self)),
            !(old(self).spec_peek().kind is Lt) ==> ps@.len() == 0 && *final(self) == *old(self),
            old(self).spec_peek().kind is Lt ==> final(self).pos() > old(self).pos(),
        decreases old(self).remaining(), 0int,
    {
        let mut params: Vec<(String, Option<TypeAnn>)> = Vec::new();
        if !matches!(self.peek().kind, TokenKind::Lt) {
            return params;
        }
        self.advance();
        while !matches!(self.peek().kind, TokenKind::Gt) && !self.is_at_end()
            invariant
                old(self).step(*self),
                self.pos() > old(self).pos(),
            decreases self.remaining(),
        {
            match identifier_of(&self.peek().kind) {
                Some(name) => {
                    self.advance();
                    let constraint = if matches!(self.peek().kind, TokenKind::Extends) {
                        self.advance();
                        self.parse_type()
                    } else {
                        None
                    };
                    params.push((name, constraint));
                },
                None => {
                    break;
                },
            }
            if matches!(self.peek().kind, TokenKind::Comma) {
                self.advance();
            }
        }
        if matches!(self.peek().kind, TokenKind::Gt) {
            self.advance();
        }
        params
    }

    pub fn parse_variable_declaration(&mut self) -> (s: Statement)
        requires
            old(self).wf(),
            !(old(self).spec_peek().kind is Eof),
        ensures
            s is VariableDeclaration,
            old(self).step(*final(self)),
            final(self).pos() > old(self).pos(),
        decreases old(self).remaining(), 0int,
    {
        let tok = self.advance();
        let start = tok.span.start;
        let kind = variable_kind_of(&tok.kind);
        let declarations = self.parse_declarators();
        self.maybe_semicolon();
        let end = self.last_end();
        Statement::VariableDeclaration { kind, declarations, span: Span::new(start, end) }
    }

    /// `name [as alias]` entries up to the closing `}` (which is consumed).
    fn parse_import_specifiers(&mut self, specifiers: &mut Vec<ImportSpecifier>)
        requires
            old(self).wf(),
        ensures
            old(self).step(*final(self)),
            final(specifiers)@.len() >= old(specifiers)@.len(),
            final(specifiers)@.take(old(specifiers)@.len() as int) == old(specifiers)@,
            forall|i: int|
                old(specifiers)@.len() <= i < final(specifiers)@.len() ==> !(
                #[trigger] final(specifiers)@[i]).is_default,
            old(self).spec_peek().kind is CloseBrace ==> final(specifiers)@ == old(specifiers)@
                && final(self).pos() == old(self).pos() + 1,
    {
        let ghost first = specifiers@;
        while !matches!(self.peek().kind, TokenKind::CloseBrace) && !self.is_at_end()
            invariant
                old(self).step(*self),
                specifiers@.len() >= first.len(),
                specifiers@.take(first.len() as int) == first,
                forall|i: int|
                    first.len() <= i < specifiers@.len() ==> !(#[trigger] specifiers@[i]).is_default,
                old(self).spec_peek().kind is CloseBrace ==> specifiers@ == first && *self == *old(self),
            decreases self.remaining(),
        {
            let local_start = self.peek().span;
            let name = match identifier_of(&self.peek().kind) {
                Some(n) => n,
                None => {
                    self.advance();
                    continue;
                },
            };
            self.advance();
            let (local, imported) = if matches!(self.peek().kind, TokenKind::As) {
                self.advance();
                match identifier_of(&self.peek().kind) {
                    Some(alias) => {
                        self.advance();
                        (alias, Some(name))
                    },
                    None => (name, None),
                }
            } else {
                (name, None)
            };
            let end = self.last_end();
            specifiers.push(
                ImportSpecifier {
                    local,
                    imported,
                    span: Span::new(local_start.start, end),
                    is_default: false,
                },
            );
            if matches!(self.peek().kind, TokenKind::Comma) {
                self.advance();
            }
        }
        self.expect(TokenKind::CloseBrace);
    }

    pub fn parse_import_statement(&mut self) -> (s: Statement)
        requires
            old(self).wf(),
            !(old(self).spec_peek().kind is Eof),
        ensures
            s is ImportDeclaration,
            old(self).step(*final(self)),
            final(self).pos() > old(self).pos(),
    {
        let start = self.advance().span.start;
        let is_type = if matches!(self.peek().kind, TokenKind::Type) {
            self.advance();
            true
        } else {
            false
        };
        let mut specifiers: Vec<ImportSpecifier> = Vec::new();
        if matches!(self.peek().kind, TokenKind::OpenBrace) {
            // import { x, y as z } from "mod"
            self.advance();
            self.parse_import_specifiers(&mut specifiers);
        } else if matches!(self.peek().kind, TokenKind::Star) {
            // import * as x from "mod"
            self.advance();
            self.expect(TokenKind::As);
            let local = match identifier_of(&self.peek().kind) {
                Some(n) => {
                    self.advance();
                    n
                },
                None => String::new(),
            };
            let end = self.last_end();
            specifiers.push(
                ImportSpecifier {
                    local,
                    imported: None,
                    span: Span::new(start, end),
                    is_default: false,
                },
            );
        } else if matches!(self.peek().kind, TokenKind::Identifier(_)) {
            // import x from "mod"  or  import x, { y } from "mod"
            let name = match identifier_of(&self.peek().kind) {
                Some(n) => n,
                None => String::new(),
            };
            self.advance();
            let end = self.last_end();
            specifiers.push(
                ImportSpecifier {
                    local: name,
                    imported: None,
                    span: Span::new(start, end),
                    is_default: true,
                },
            );
            if matches!(self.peek().kind, TokenKind::Comma) {
                self.advance();
                if matches!(self.peek().kind, TokenKind::OpenBrace) {
                    self.advance();
                    self.parse_import_specifiers(&mut specifiers);
                }
            }
        }
        self.expect(TokenKind::From);
        let k = self.peek().kind.clone();
        let source = match k {
            TokenKind::String(s) => {
                self.advance();
                s
            },
            _ => {
                self.report_expected(&TokenKind::String(String::new()));
                String::new()
            },
        };
        self.maybe_semicolon();
        let end = self.last_end();
        Statement::ImportDeclaration { specifiers, source, is_type, span: Span::new(start, end) }
    }

    pub fn parse_type_alias(&mut self) -> (s: Statement)
        requires
            old(self).wf(),
            !(old(self).spec_peek().kind is Eof),
        ensures
            s is TypeAliasDeclaration,
            old(self).step(*final(self)),
            final(self).pos() > old(self).pos(),
        decreases old(self).remaining(), 0int,
    {
        let start = self.advance().span.start;
        let name = match identifier_of(&self.peek().kind) {
            Some(n) => {
                self.advance();
                n
            },
            None => {
                self.report_expected_identifier();
                String::new()
            },
        };
        let type_params = self.parse_type_params();
        self.expect(TokenKind::Eq);
        let type_annotation = match self.parse_type() {
            Some(t) => t,
            None => TypeAnn::Any,
        };
        self.maybe_semicolon();
        let end = self.last_end();
        Statement::TypeAliasDeclaration { name, type_params, type_annotation, span: Span::new(start, end) }
    }

    pub fn parse_export_declaration(&mut self) -> (s: Statement)
        requires
            old(self).wf(),
            !(old(self).spec_peek().kind is Eof),
        ensures
            s is ExportDeclaration,
            old(self).step(*final(self)),
            final(self).pos() > old(self).pos(),
        decreases old(self).remaining(), 0int,
    {
        let start = self.advance().span.start;
        // export type { ... } / export type function/class/const — skip 'type'
        if matches!(self.peek().kind, TokenKind::Type) {
            let next = self.peek_ahead(1).kind.clone();
            if matches!(next, TokenKind::OpenBrace) || matches!(next, TokenKind::Function)
                || matches!(next, TokenKind::Class) || matches!(next, TokenKind::Const) || matches!(
                next,
                TokenKind::Let
            ) || matches!(next, TokenKind::Var) || matches!(next, TokenKind::Default) {
                self.advance();
            }
        }
        if matches!(self.peek().kind, TokenKind::Default) {
            self.advance();
            // export default function() { ... } — anonymous function
            let anon = matches!(self.peek().kind, TokenKind::Function) && self.tokens.len()
                - self.cursor > 1 && matches!(self.tokens[self.cursor + 1].kind, TokenKind::OpenParen);
            if anon {
                let fn_start = self.advance().span.start;
                self.expect(TokenKind::OpenParen);
                let params = self.parse_function_params();
                self.expect(TokenKind::CloseParen);
                let return_type = if matches!(self.peek().kind, TokenKind::Colon) {
                    self.parse_type_annotation()
                } else {
                    None
                };
                let body = self.parse_block();
                let end = body.span();
                let decl = Statement::FunctionDeclaration {
                    name: String::new(),
                    params,
                    return_type,
                    body: Box::new(body),
                    is_async: false,
                    type_params: Vec::new(),
                    span: Span::new(fn_start, end.end),
                };
                return Statement::ExportDeclaration {
                    declaration: Box::new(decl),
                    span: Span::new(start, end.end),
                };
            }
            let decl = self.parse_statement_or_placeholder();
            let end = decl.span();
            return Statement::ExportDeclaration {
                declaration: Box::new(decl),
                span: Span::new(start, end.end),
            };
        }
        if matches!(self.peek().kind, TokenKind::OpenBrace) {
            // export { x, y } — skipped up to the matching brace
            let brace_start = self.peek().span.start;
            self.advance();
            while !matches!(self.peek().kind, TokenKind::CloseBrace) && !self.is_at_end()
                invariant
                    old(self).step(*self),
                    self.pos() > old(self).pos(),
                decreases self.remaining(),
            {
                self.advance();
            }
            self.expect(TokenKind::CloseBrace);
            // optional "from" clause
            if matches!(self.peek().kind, TokenKind::From) {
                self.advance();
                if matches!(self.peek().kind, TokenKind::String(_)) {
                    self.advance();
                }
            }
            self.maybe_semicolon();
            let end = self.last_end();
            let expr = Expression::Placeholder { span: Span::new(start, end) };
            return Statement::ExportDeclaration {
                declaration: Box::new(
                    Statement::ExpressionStatement {
                        expression: Box::new(expr),
                        span: Span::new(brace_start, end),
                    },
                ),
                span: Span::new(start, end),
            };
        }
        // export const/let/var/function/class: the inner declaration, wrapped

        let decl = self.parse_statement_or_placeholder();
        let end = decl.span();
        Statement::ExportDeclaration { declaration: Box::new(decl), span: Span::new(start, end.end) }
    }

    /// Statements of one `case` or `default` clause.
    fn parse_case_body(&mut self) -> (body: Vec<Statement>)
        requires
            old(self).wf(),
        ensures
            old(self).step(*final(self)),
            ends_case(final(self).spec_peek().kind),
            ends_case(old(self).spec_peek().kind) ==> body@.len() == 0 && *final(self) == *old(self),
        decreases old(self).remaining(), 6int,
    {
        let mut body: Vec<Statement> = Vec::new();
        while !matches!(self.peek().kind, TokenKind::Case) && !matches!(
            self.peek().kind,
            TokenKind::Default
        ) && !matches!(self.peek().kind, TokenKind::CloseBrace) && !self.is_at_end()
            invariant
                old(self).step(*self),
                ends_case(old(self).spec_peek().kind) ==> body@.len() == 0 && *self == *old(self),
            decreases self.remaining(),
        {
            match self.parse_statement() {
                Some(stmt) => body.push(stmt),
                None => self.sync(),
            }
        }
        body
    }

    pub fn parse_switch_statement(&mut self) -> (s: Statement)
        requires
            old(self).wf(),
            !(old(self).spec_peek().kind is Eof),
        ensures
            s is SwitchStatement,
            old(self).step(*final(self)),
            final(self).pos() > old(self).pos(),
        decreases old(self).remaining(), 0int,
    {
        let start = self.advance().span.start;
        self.expect(TokenKind::OpenParen);
        let discriminant = self.parse_expression_or_placeholder();
        self.expect(TokenKind::CloseParen);
        self.expect(TokenKind::OpenBrace);
        let mut cases: Vec<SwitchCase> = Vec::new();
        while !matches!(self.peek().kind, TokenKind::CloseBrace) && !self.is_at_end()
            invariant
                old(self).step(*self),
                self.pos() > old(self).pos(),
            decreases self.remaining(),
        {
            let case_start = self.peek().span.start;
            if matches!(self.peek().kind, TokenKind::Case) {
                self.advance();
                let test = Some(self.parse_expression_or_placeholder());
                self.expect(TokenKind::Colon);
                let body = self.parse_case_body();
                let end = if body.len() > 0 {
                    body[body.len() - 1].span().end
                } else {
                    self.last_end()
                };
                cases.push(SwitchCase { test, body, span: Span::new(case_start, end) });
            } else if matches!(self.peek().kind, TokenKind::Default) {
                self.advance();
                self.expect(TokenKind::Colon);
                let body = self.parse_case_body();
                let end = if body.len() > 0 {
                    body[body.len() - 1].span().end
                } else {
                    self.last_end()
                };
                cases.push(SwitchCase { test: None, body, span: Span::new(case_start, end) });
            } else {
                self.advance();
            }
        }
        self.expect(TokenKind::CloseBrace);
        let end = self.last_end();
        Statement::SwitchStatement { discriminant, cases, span: Span::new(start, end) }
    }

    pub fn parse_throw_statement(&mut self) -> (s: Statement)
        requires
            old(self).wf(),
            !(old(self).spec_peek().kind is Eof),
        ensures
            s is ThrowStatement,
            old(self).step(*final(self)),
            final(self).pos() > old(self).pos(),
        decreases old(self).remaining(), 0int,
    {
        let start = self.advance().span.start;
        let argument = self.parse_expression_or_placeholder();
        self.maybe_semicolon();
        let end = argument.span().end;
        Statement::ThrowStatement { argument, span: Span::new(start, end) }
    }

    /// The optional label of `break` or `continue`.
    fn parse_jump_label(&mut self) -> (label: Option<String>)
        requires
            old(self).wf(),
        ensures
            old(self).step(*final(self)),
            match old(self).spec_peek().kind {
                TokenKind::Identifier(n) => label matches Some(l) && l@ == n@,
                _ => label is None,
            },
    {
        let label = match identifier_of(&self.peek().kind) {
            Some(n) => {
                self.advance();
                Some(n)
            },
            None => None,
        };
        self.maybe_semicolon();
        label
    }

    pub fn parse_break_statement(&mut self) -> (s: Statement)
        requires
            old(self).wf(),
            !(old(self).spec_peek().kind is Eof),
        ensures
            s is BreakStatement,
            old(self).step(*final(self)),
            final(self).pos() > old(self).pos(),
    {
        let start = self.advance().span.start;
        let label = self.parse_jump_label();
        Statement::BreakStatement { label, span: Span::new(start, self.last_end()) }
    }

    pub fn parse_continue_statement(&mut self) -> (s: Statement)
        requires
            old(self).wf(),
            !(old(self).spec_peek().kind is Eof),
        ensures
            s is ContinueStatement,
            old(self).step(*final(self)),
            final(self).pos() > old(self).pos(),
    {
        let start = self.advance().span.start;
        let label = self.parse_jump_label();
        Statement::ContinueStatement { label, span: Span::new(start, self.last_end()) }
    }

    pub fn parse_do_while_statement(&mut self) -> (s: Statement)
        requires
            old(self).wf(),
            !(old(self).spec_peek().kind is Eof),
        ensures
            s is DoWhileStatement,
            old(self).step(*final(self)),
            final(self).pos() > old(self).pos(),
        decreases old(self).remaining(), 0int,
    {
        let start = self.advance().span.start;
        let body = self.parse_statement_or_placeholder();
        self.expect(TokenKind::While);
        self.expect(TokenKind::OpenParen);
        let test = self.parse_expression_or_placeholder();
        self.expect(TokenKind::CloseParen);
        self.maybe_semicolon();
        let end = self.last_end();
        Statement::DoWhileStatement { test, body: Box::new(body), span: Span::new(start, end) }
    }

    pub fn parse_try_statement(&mut self) -> (s: Statement)
        requires
            old(self).wf(),
            !(old(self).spec_peek().kind is Eof),
        ensures
            s is TryStatement,
            old(self).step(*final(self)),
            final(self).pos() > old(self).pos(),
        decreases old(self).remaining(), 0int,
    {
        let start = self.advance().span.start;
        let body = self.parse_block();
        let handler = if matches!(self.peek().kind, TokenKind::Catch) {
            let catch_start = self.advance().span.start;
            self.expect(TokenKind::OpenParen);
            let param = match identifier_of(&self.peek().kind) {
                Some(n) => {
                    self.advance();
                    n
                },
                None => String::new(),
            };
            let type_ann = if matches!(self.peek().kind, TokenKind::Colon) {
                self.advance();
                self.parse_type()
            } else {
                None
            };
            self.expect(TokenKind::CloseParen);
            let (block, _span) = self.parse_block_body();
            let end = if block.len() > 0 {
                block[block.len() - 1].span().end
            } else {
                self.last_end()
            };
            Some(CatchClause { param, type_ann, body: block, span: Span::new(catch_start, end) })
        } else {
            None
        };
        let finalizer = if matches!(self.peek().kind, TokenKind::Finally) {
            self.advance();
            let (block, _span) = self.parse_block_body();
            Some(block)
        } else {
            None
        };
        let end = match &finalizer {
            Some(b) if b.len() > 0 => b[b.len() - 1].span().end,
            _ => match &handler {
                Some(h) => h.span.end,
                None => self.last_end(),
            },
        };
        Statement::TryStatement { body: Box::new(body), handler, finalizer, span: Span::new(start, end) }
    }

    pub fn parse_class_declaration(&mut self) -> (s: Statement)
        requires
            old(self).wf(),
            !(old(self).spec_peek().kind is Eof),
        ensures
            s is ClassDeclaration,
            old(self).step(*final(self)),
            final(self).pos() > old(self).pos(),
            s->ClassDeclaration_span.start == old(self).spec_peek().span.start,
            ({
                let t = old(self).token_seq();
                let o = old(self).pos();
                &&& t[o + 1].kind matches TokenKind::Identifier(n) ==> s->ClassDeclaration_name@ == n@
                &&& !(t[o + 1].kind is Identifier) ==> s->ClassDeclaration_name@.len() == 0
                &&& t[o + 1].kind is Identifier && !(t[o + 2].kind is Extends)
                    ==> s->ClassDeclaration_superclass is None
                &&& t[o + 1].kind is Identifier && t[o + 2].kind is OpenBrace && t[o + 3].kind is CloseBrace
                    ==> s->ClassDeclaration_body.methods@.len() == 0
                    && s->ClassDeclaration_body.fields@.len() == 0 && final(self).pos() == o + 4
                    && s->ClassDeclaration_span.end == t[o + 3].span.end
                &&& first_member_field(t, o) ==> {
                    let fs = s->ClassDeclaration_body.fields@;
                    &&& fs.len() >= 1
                    &&& fs[0].key == PropertyKey::Identifier(t[o + 3].kind->Identifier_0)
                    &&& fs[0].type_ann is None
                    &&& fs[0].init is None
                    &&& fs[0].visibility is None
                    &&& !fs[0].is_static
                }
                &&& first_member_method(t, o) ==> {
                    let ms = s->ClassDeclaration_body.methods@;
                    &&& ms.len() >= 1
                    &&& ms[0].key == PropertyKey::Identifier(t[o + 3].kind->Identifier_0)
                    &&& ms[0].visibility is None
                    &&& !ms[0].is_static
                }
            }),
        decreases old(self).remaining(), 0int,
    {
        let ghost t = self.token_seq();
        let ghost o = self.pos();
        proof {
            assert(self.peek_index() == o);
        }
        let start = self.advance().span.start;
        proof {
            assert(self.peek_index() == o + 1);
        }
        let name = match identifier_of(&self.peek().kind) {
            Some(n) => {
                self.advance();
                n
            },
            None => {
                self.report_expected_identifier();
                String::new()
            },
        };
        proof {
            if t[o + 1].kind is Identifier {
                assert(self.pos() == o + 2);
                assert(self.peek_index() == o + 2);
            }
        }
        // Optional: extends Expr
        let superclass = if matches!(self.peek().kind, TokenKind::Extends) {
            self.advance();
            self.parse_expression(0)
        } else {
            None
        };
        self.expect(TokenKind::OpenBrace);
        let ghost empty_body = t[o + 1].kind is Identifier && t[o + 2].kind is OpenBrace && t[o
            + 3].kind is CloseBrace;
        proof {
            if empty_body {
                assert(self.pos() == o + 3);
                assert(self.peek_index() == o + 3);
            }
        }
        let ghost at_body = *self;
        let ghost ff = first_member_field(t, o);
        let ghost fm = first_member_method(t, o);
        proof {
            if ff || fm {
                assert(self.pos() == o + 3);
                assert(self.peek_index() == o + 3);
            }
        }
        let mut methods: Vec<MethodDefinition> = Vec::new();
        let mut fields: Vec<ClassField> = Vec::new();
        while !matches!(self.peek().kind, TokenKind::CloseBrace) && !self.is_at_end()
            invariant
                old(self).step(*self),
                self.pos() > old(self).pos(),
                empty_body ==> *self == at_body && methods@.len() == 0 && fields@.len() == 0
                    && self.spec_peek().kind is CloseBrace,
                t == old(self).token_seq(),
                o == old(self).pos(),
                ff == first_member_field(t, o),
                fm == first_member_method(t, o),
                (ff || fm) && methods@.len() == 0 && fields@.len() == 0 ==> self.pos() == o + 3,
                ff ==> methods@.len() == 0 || fields@.len() >= 1,
                ff ==> (fields@.len() >= 1 ==> {
                    &&& fields@[0].key == PropertyKey::Identifier(t[o + 3].kind->Identifier_0)
                    &&& fields@[0].type_ann is None
                    &&& fields@[0].init is None
                    &&& fields@[0].visibility is None
                    &&& !fields@[0].is_static
                }),
                fm ==> fields@.len() == 0 || methods@.len() >= 1,
                fm ==> (methods@.len() >= 1 ==> {
                    &&& methods@[0].key == PropertyKey::Identifier(t[o + 3].kind->Identifier_0)
                    &&& methods@[0].visibility is None
                    &&& !methods@[0].is_static
                }),
            decreases self.remaining(),
        {
            let ghost iter_start = self.pos();
            let ghost first = (ff || fm) && methods@.len() == 0 && fields@.len() == 0;
            proof {
                if first {
                    assert(self.peek_index() == o + 3);
                }
            }
            // Optional visibility modifier
            let visibility = if matches!(self.peek().kind, TokenKind::Public) {
                self.advance();
                Some(Visibility::Public)
            } else if matches!(self.peek().kind, TokenKind::Private) {
                self.advance();
                Some(Visibility::Private)
            } else if matches!(self.peek().kind, TokenKind::Protected) {
                self.advance();
                Some(Visibility::Protected)
            } else {
                None
            };
            let is_static = if matches!(self.peek().kind, TokenKind::Static) {
                self.advance();
                true
            } else {
                false
            };
            // Key: constructor, method or field name
            let k = self.peek().kind.clone();
            let key = match k {
                TokenKind::Identifier(n) => {
                    self.advance();
                    PropertyKey::Identifier(n)
                },
                TokenKind::String(n) => {
                    self.advance();
                    PropertyKey::String(n)
                },
                TokenKind::OpenBracket => {
                    self.advance();
                    let expr = self.parse_expression(0);
                    self.expect(TokenKind::CloseBracket);
                    match expr {
                        Some(e) => PropertyKey::Expression(e),
                        None => {
                            self.advance();
                            continue;
                        },
                    }
                },
                _ => {
                    self.advance();
                    continue;
                },
            };
            if matches!(self.peek().kind, TokenKind::OpenParen) {
                // Method
                let kind = match &key {
                    PropertyKey::Identifier(n) => if string_is(n, "constructor") {
                        MethodKind::Constructor
                    } else {
                        MethodKind::Method
                    },
                    _ => MethodKind::Method,
                };
                self.expect(TokenKind::OpenParen);
                let params = self.parse_function_params();
                self.expect(TokenKind::CloseParen);
                let return_type = if matches!(self.peek().kind, TokenKind::Colon) {
                    self.parse_type_annotation()
                } else {
                    None
                };
                let body = self.parse_block();
                let body_end = body.span();
                methods.push(
                    MethodDefinition {
                        key,
                        kind,
                        params,
                        return_type,
                        body: Box::new(body),
                        is_static,
                        visibility,
                        span: Span::new(start, body_end.end),
                    },
                );
            } else {
                // Field: optional type annotation, optional initializer, then `;`
                let type_ann = if matches!(self.peek().kind, TokenKind::Colon) {
                    self.advance();
                    self.parse_type()
                } else {
                    None
                };
                let init = if matches!(self.peek().kind, TokenKind::Eq) {
                    self.advance();
                    self.parse_expression(0)
                } else {
                    None
                };
                if matches!(self.peek().kind, TokenKind::Semicolon) {
                    self.advance();
                }
                let field_end = self.last_end();
                fields.push(
                    ClassField {
                        key,
                        type_ann,
                        init,
                        is_static,
                        visibility,
                        span: Span::new(start, field_end),
                    },
                );
            }
        }
        let found = self.expect(TokenKind::CloseBrace);
        let end = if found {
            self.tokens[self.cursor - 1].span.end
        } else {
            self.last_end()
        };
        Statement::ClassDeclaration {
            name,
            superclass,
            body: ClassBody { methods, fields, span: Span::new(start, end) },
            span: Span::new(start, end),
        }
    }

    pub fn parse_enum_declaration(&mut self) -> (s: Statement)
        requires
            old(self).wf(),
            !(old(self).spec_peek().kind is Eof),
        ensures
            s is EnumDeclaration,
            old(self).step(*final(self)),
            final(self).pos() > old(self).pos(),
    {
        let start = self.advance().span.start;
        let name = match identifier_of(&self.peek().kind) {
            Some(n) => {
                self.advance();
                n
            },
            None => String::new(),
        };
        self.expect(TokenKind::OpenBrace);
        let mut members: Vec<EnumMember> = Vec::new();
        while !matches!(self.peek().kind, TokenKind::CloseBrace) && !self.is_at_end()
            invariant
                old(self).step(*self),
                self.pos() > old(self).pos(),
            decreases self.remaining(),
        {
            let member_start = self.peek().span;
            let member_name = match identifier_of(&self.peek().kind) {
                Some(n) => {
                    self.advance();
                    n
                },
                None => {
                    self.advance();
                    continue;
                },
            };
            let value = if matches!(self.peek().kind, TokenKind::Eq) {
                self.advance();
                let k = self.peek().kind.clone();
                match k {
                    TokenKind::String(s) => {
                        self.advance();
                        Some(s)
                    },
                    TokenKind::Number(n) => {
                        let s = crate::lexer::numeral_integer_part(&n);
                        self.advance();
                        Some(s)
                    },
                    _ => None,
                }
            } else {
                None
            };
            let end = self.last_end();
            members.push(
                EnumMember { name: member_name, value, span: Span::new(member_start.start, end) },
            );
            if matches!(self.peek().kind, TokenKind::Comma) {
                self.advance();
            }
        }
        self.expect(TokenKind::CloseBrace);
        let end = self.last_end();
        Statement::EnumDeclaration { name, members, span: Span::new(start, end) }
    }

    pub fn parse_interface_declaration(&mut self) -> (s: Statement)
        requires
            old(self).wf(),
            !(old(self).spec_peek().kind is Eof),
        ensures
            s is InterfaceDeclaration,
            old(self).step(*final(self)),
            final(self).pos() > old(self).pos(),
    {
        let start = self.advance().span.start;
        let name = match identifier_of(&self.peek().kind) {
            Some(n) => {
                self.advance();
                n
            },
            None => String::new(),
        };
        // Skip type params if present: <T, U extends V>
        if matches!(self.peek().kind, TokenKind::Lt) {
            let mut depth: usize = 1;
            self.advance();
            while depth > 0 && !self.is_at_end()
                invariant
                    old(self).step(*self),
                    self.pos() > old(self).pos(),
                    depth <= self.pos(),
                decreases self.remaining(),
            {
                let n = self.tokens.len();
                assert(depth < n);
                if matches!(self.peek().kind, TokenKind::Lt) {
                    depth += 1;
                } else if matches!(self.peek().kind, TokenKind::Gt) {
                    depth -= 1;
                }
                self.advance();
            }
        }
        // Skip extends clause(s)

        while matches!(self.peek().kind, TokenKind::Extends)
            invariant
                old(self).step(*self),
                self.pos() > old(self).pos(),
            decreases self.remaining(),
        {
            let ghost before = self.pos();
            self.advance();
            while !matches!(self.peek().kind, TokenKind::OpenBrace) && !self.is_at_end()
                invariant
                    old(self).step(*self),
                    self.pos() > old(self).pos(),
                    self.pos() > before,
                decreases self.remaining(),
            {
                self.advance();
            }
        }
        // Skip the body `{ ... }` by brace counting

        if matches!(self.peek().kind, TokenKind::OpenBrace) {
            let mut depth: usize = 1;
            self.advance();
            while depth > 0 && !self.is_at_end()
                invariant
                    old(self).step(*self),
                    self.pos() > old(self).pos(),
                    depth <= self.pos(),
                decreases self.remaining(), depth,
            {
                let n = self.tokens.len();
                assert(depth < n);
                if matches!(self.peek().kind, TokenKind::OpenBrace) {
                    depth += 1;
                } else if matches!(self.peek().kind, TokenKind::CloseBrace) {
                    depth -= 1;
                }
                if depth > 0 {
                    self.advance();
                }
            }
            if matches!(self.peek().kind, TokenKind::CloseBrace) {
                self.advance();
            }
        }
        self.maybe_semicolon();
        let end = self.last_end();
        Statement::InterfaceDeclaration { name, span: Span::new(start, end) }
    }

    /// Parse lvalue: identifier, object pattern, or array pattern.
    pub fn parse_lvalue(&mut self) -> (e: Box<Expression>)
        requires
            old(self).wf(),
        ensures
            old(self).step(*final(self)),
            old(self).spec_peek().kind is OpenBrace ==> *e is ObjectPattern,
            old(self).spec_peek().kind is OpenBracket ==> *e is ArrayPattern,
            !crate::parser::expr::starts_expression(old(self).spec_peek().kind) ==> *e == (
            Expression::Identifier {
                name: e->Identifier_name,
                span: old(self).spec_peek().span,
            }) && e->Identifier_name@.len() == 0 && *final(self) == *old(self),
            crate::parser::expr::lone_literal(old(self).token_seq(), old(self).pos()) matches Some(x)
                ==> *e == x,
        decreases old(self).remaining(), 4int,
    {
        if matches!(self.peek().kind, TokenKind::OpenBrace) {
            self.parse_object_pattern()
        } else if matches!(self.peek().kind, TokenKind::OpenBracket) {
            self.parse_array_pattern()
        } else {
            match self.parse_expression(14) {
                Some(e) => e,
                None => Box::new(Expression::Identifier { name: String::new(), span: self.peek().span }),
            }
        }
    }

    pub fn parse_object_pattern(&mut self) -> (e: Box<Expression>)
        requires
            old(self).wf(),
            !(old(self).spec_peek().kind is Eof),
        ensures
            *e is ObjectPattern,
            old(self).step(*final(self)),
            final(self).pos() > old(self).pos(),
        decreases old(self).remaining(), 0int,
    {
        let start = self.advance().span.start;
        let mut properties: Vec<ObjectPatternProperty> = Vec::new();
        while !matches!(self.peek().kind, TokenKind::CloseBrace) && !self.is_at_end()
            invariant
                old(self).step(*self),
                self.pos() > old(self).pos(),
            decreases self.remaining(),
        {
            let prop_start = self.peek().span;
            let computed = matches!(self.peek().kind, TokenKind::OpenBracket);
            let key = if computed {
                self.advance();
                let key_expr = self.parse_expression_or_placeholder();
                self.expect(TokenKind::CloseBracket);
                PropertyKey::Expression(key_expr)
            } else {
                let k = self.peek().kind.clone();
                match k {
                    TokenKind::Identifier(n) => {
                        self.advance();
                        PropertyKey::Identifier(n)
                    },
                    TokenKind::String(s) => {
                        self.advance();
                        PropertyKey::String(s)
                    },
                    _ => {
                        self.advance();
                        continue;
                    },
                }
            };
            // `: pattern` (nested) or shorthand
            let (value, shorthand) = if matches!(self.peek().kind, TokenKind::Colon) {
                self.advance();
                (self.parse_lvalue(), false)
            } else {
                let name = match &key {
                    PropertyKey::Identifier(n) => n.clone(),
                    _ => String::new(),
                };
                (Box::new(Expression::Identifier { name, span: prop_start }), true)
            };
            let end = self.last_end();
            properties.push(
                ObjectPatternProperty { key, value, shorthand, span: Span::new(prop_start.start, end) },
            );
            if matches!(self.peek().kind, TokenKind::Comma) {
                self.advance();
            }
        }
        let found = self.expect(TokenKind::CloseBrace);
        let end_pos = if found {
            self.tokens[self.cursor - 1].span.end
        } else {
            self.last_end()
        };
        Box::new(Expression::ObjectPattern { properties, span: Span::new(start, end_pos) })
    }

    pub fn parse_array_pattern(&mut self) -> (e: Box<Expression>)
        requires
            old(self).wf(),
            !(old(self).spec_peek().kind is Eof),
        ensures
            *e is ArrayPattern,
            old(self).step(*final(self)),
            final(self).pos() > old(self).pos(),
        decreases old(self).remaining(), 0int,
    {
        let start = self.advance().span.start;
        let mut elements: Vec<Option<Box<Expression>>> = Vec::new();
        while !matches!(self.peek().kind, TokenKind::CloseBracket) && !self.is_at_end()
            invariant
                old(self).step(*self),
                self.pos() > old(self).pos(),
            decreases self.remaining(),
        {
            if matches!(self.peek().kind, TokenKind::Comma) {
                elements.push(None);
                self.advance();
            } else {
                let before = self.cursor;
                elements.push(Some(self.parse_lvalue()));
                if matches!(self.peek().kind, TokenKind::Comma) {
                    self.advance();
                }
                if self.cursor == before {
                    // Nothing was consumed: stop here instead of looping forever.
                    break;
                }
            }
        }
        let found = self.expect(TokenKind::CloseBracket);
        let end_pos = if found {
            self.tokens[self.cursor - 1].span.end
        } else {
            self.last_end()
        };
        Box::new(Expression::ArrayPattern { elements, span: Span::new(start, end_pos) })
    }
}

} // verus!
