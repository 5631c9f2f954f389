//! The parser: a recursive-descent parser from tokens to a `Program`.
//!
//! Every parsing function keeps the token list unchanged, never moves the
//! cursor backwards (but for the one function type lookahead, which
//! restores it), and a statement or expression that is produced has consumed
//! at least one token, so that parsing always terminates.
use vstd::prelude::*;

pub mod expr;
pub mod stmt;
pub mod typ;

use crate::ast::{Expression, Program, Statement};
use crate::diagnostic::{Diagnostic, Severity, SourceFile};
use crate::token::{Span, Token, TokenKind};

verus! {

/// A token list the parser accepts: it ends with an `Eof` token.
pub open spec fn eof_terminated(tokens: Seq<Token>) -> bool {
    tokens.len() >= 1 && tokens.last().kind is Eof
}

pub struct Parser {
    pub tokens: Vec<Token>,
    pub cursor: usize,
    pub source_file: SourceFile,
    pub diagnostics: Vec<Diagnostic>,
}

impl Parser {
    pub open spec fn wf(self) -> bool {
        &&& eof_terminated(self.tokens@)
        &&& self.cursor <= self.tokens@.len()
    }

    /// The tokens being parsed.
    pub open spec fn token_seq(self) -> Seq<Token> {
        self.tokens@
    }

    /// Index of the next token to consume.
    pub open spec fn pos(self) -> int {
        self.cursor as int
    }

    /// Number of tokens not yet consumed.
    pub open spec fn remaining(self) -> int {
        self.token_seq().len() - self.pos()
    }

    /// The index `peek` reads: the cursor, clamped to the last token.
    pub open spec fn peek_index(self) -> int {
        if self.pos() < self.token_seq().len() - 1 {
            self.pos()
        } else {
            self.token_seq().len() - 1
        }
    }

    /// The token `peek` returns.
    pub open spec fn spec_peek(self) -> Token {
        self.token_seq()[self.peek_index()]
    }

    /// What every parsing step keeps: a well-formed parser over the same
    /// tokens, with the cursor not moved backwards.
    pub open spec fn step(self, next: Self) -> bool {
        &&& next.wf()
        &&& next.token_seq() == self.token_seq()
        &&& next.pos() >= self.pos()
    }

    pub fn new(tokens: Vec<Token>, source_file: SourceFile) -> (p: Self)
        requires
            eof_terminated(tokens@),
        ensures
            p.wf(),
            p.token_seq() == tokens@,
            p.pos() == 0,
            p.diagnostics@.len() == 0,
    {
        Parser { tokens, cursor: 0, source_file, diagnostics: Vec::new() }
    }

    /// Parses statements until `Eof`. A statement that cannot be parsed is
    /// reported and skipped up to the next `;` or `}`.
    pub fn parse(&mut self) -> (program: Program)
        requires
            old(self).wf(),
        ensures
            old(self).step(*final(self)),
            final(self).spec_peek().kind is Eof,
            old(self).spec_peek().kind is Eof ==> program.body@.len() == 0 && *final(self) == *old(
                self,
            ),
            stmt::starts_keyword_statement(old(self).spec_peek().kind) ==> program.body@.len() >= 1
                && stmt::statement_for(old(self).spec_peek().kind, program.body@[0]),
            expr::lone_literal(old(self).token_seq(), old(self).pos()) matches Some(x) ==> (
            program.body@.len() >= 1 && program.body@[0] == (Statement::ExpressionStatement {
                expression: Box::new(x),
                span: x.spec_span(),
            })),
            expr::chain_expr(old(self).token_seq(), old(self).pos(), 0) matches Some(x) ==> (
            program.body@.len() >= 1 && program.body@[0] == (Statement::ExpressionStatement {
                expression: Box::new(x),
                span: x.spec_span(),
            })),
            expr::chain_program(old(self).token_seq(), old(self).pos()) matches Some(ss)
                ==> program.body@ == ss,
    {
        let ghost t = self.token_seq();
        let ghost full = expr::chain_program(self.token_seq(), self.pos());
        let ghost kw = stmt::starts_keyword_statement(self.spec_peek().kind);
        let ghost lone = expr::lone_literal(self.token_seq(), self.pos());
        let ghost chain = expr::chain_expr(self.token_seq(), self.pos(), 0);
        proof {
            if lone is Some || chain is Some {
                assert(self.peek_index() == self.pos());
            }
        }
        let mut body: Vec<Statement> = Vec::new();
        while !self.is_at_end()
            invariant
                old(self).step(*self),
                old(self).spec_peek().kind is Eof ==> *self == *old(self) && body@.len() == 0,
                kw == stmt::starts_keyword_statement(old(self).spec_peek().kind),
                lone == expr::lone_literal(old(self).token_seq(), old(self).pos()),
                (kw || lone is Some) && body@.len() == 0 ==> *self == *old(self),
                kw && body@.len() >= 1 ==> stmt::statement_for(old(self).spec_peek().kind, body@[0]),
                lone matches Some(x) ==> (body@.len() >= 1 ==> body@[0] == (
                Statement::ExpressionStatement { expression: Box::new(x), span: x.spec_span() })),
                chain == expr::chain_expr(old(self).token_seq(), old(self).pos(), 0),
                chain is Some && body@.len() == 0 ==> *self == *old(self),
                chain matches Some(x) ==> (body@.len() >= 1 ==> body@[0] == (
                Statement::ExpressionStatement { expression: Box::new(x), span: x.spec_span() })),
                t == old(self).token_seq(),
                full == expr::chain_program(t, old(self).pos()),
                full matches Some(ss) ==> (expr::chain_program(t, self.pos()) matches Some(rest)
                    && ss == body@ + rest),
            decreases self.remaining(),
        {
            proof {
                if full is Some {
                    assert(self.peek_index() == self.pos());
                }
            }
            let ghost b0 = body@;
            match self.parse_statement() {
                Some(stmt) => body.push(stmt),
                None => self.sync(),
            }
            proof {
                if full is Some {
                    assert(body@ =~= b0.push(body@.last()));
                }
            }
        }
        proof {
            if full is Some {
                assert(self.peek_index() == self.pos());
            }
        }
        Program { body }
    }

    pub fn diagnostics(&self) -> (d: &[Diagnostic])
        ensures
            d@ == self.diagnostics@,
    {
        self.diagnostics.as_slice()
    }

    /// Skips tokens up to and including the next `;`, `}` or `Eof`.
    pub fn sync(&mut self)
        requires
            old(self).wf(),
        ensures
            old(self).step(*final(self)),
            !(old(self).spec_peek().kind is Eof) ==> final(self).pos() > old(self).pos(),
    {
        while !self.is_at_end()
            invariant
                old(self).step(*self),
                !(old(self).spec_peek().kind is Eof) ==> self.pos() > old(self).pos() || self.pos()
                    == old(self).pos(),
                self.pos() == old(self).pos() ==> self.spec_peek() == old(self).spec_peek(),
            decreases self.remaining(),
        {
            let stop = match &self.peek().kind {
                TokenKind::Semicolon | TokenKind::CloseBrace | TokenKind::Eof => true,
                _ => false,
            };
            self.advance();
            if stop {
                return;
            }
        }
    }

    pub fn is_at_end(&self) -> (r: bool)
        requires
            self.wf(),
        ensures
            r == (self.spec_peek().kind is Eof),
    {
        matches!(self.peek().kind, TokenKind::Eof)
    }

    pub fn peek(&self) -> (t: &Token)
        requires
            self.wf(),
        ensures
            *t == self.spec_peek(),
    {
        let last = self.tokens.len() - 1;
        let idx = if self.cursor < last {
            self.cursor
        } else {
            last
        };
        &self.tokens[idx]
    }

    /// The token `n` places after the next one, clamped to the last token.
    pub fn peek_ahead(&self, n: usize) -> (t: &Token)
        requires
            self.wf(),
        ensures
            *t == self.token_seq()[if self.pos() + n < self.token_seq().len() - 1 {
                self.pos() + n
            } else {
                self.token_seq().len() - 1
            }],
    {
        let last = self.tokens.len() - 1;
        let idx = if self.cursor < last && last - self.cursor > n {
            self.cursor + n
        } else {
            last
        };
        &self.tokens[idx]
    }

    /// Consumes the next token and returns it. The cursor moves unless it
    /// is already past the last token; it moves past any token that is not
    /// `Eof`.
    pub fn advance(&mut self) -> (t: Token)
        requires
            old(self).wf(),
        ensures
            old(self).step(*final(self)),
            t == old(self).spec_peek(),
            final(self).pos() == (if old(self).pos() < old(self).token_seq().len() {
                old(self).pos() + 1
            } else {
                old(self).pos()
            }),
            !(t.kind is Eof) ==> final(self).pos() == old(self).pos() + 1 && final(self).pos()
                < final(self).token_seq().len(),
            final(self).diagnostics == old(self).diagnostics,
    {
        let t = self.peek().clone();
        if self.cursor < self.tokens.len() {
            self.cursor += 1;
        }
        t
    }

    /// Index of the last consumed token, clamped to the token list: the
    /// first token before anything is consumed.
    pub open spec fn last_index(self) -> int {
        if self.pos() == 0 {
            0
        } else if self.pos() - 1 < self.token_seq().len() - 1 {
            self.pos() - 1
        } else {
            self.token_seq().len() - 1
        }
    }

    /// End offset of the last consumed token.
    pub fn last_end(&self) -> (e: usize)
        requires
            self.wf(),
        ensures
            e == self.token_seq()[self.last_index()].span.end,
    {
        let idx = if self.cursor == 0 {
            0
        } else if self.cursor - 1 < self.tokens.len() - 1 {
            self.cursor - 1
        } else {
            self.tokens.len() - 1
        };
        self.tokens[idx].span.end
    }

    /// Start offset of the last consumed token.
    pub fn last_start(&self) -> (s: usize)
        requires
            self.wf(),
        ensures
            s == self.token_seq()[self.last_index()].span.start,
    {
        let idx = if self.cursor == 0 {
            0
        } else if self.cursor - 1 < self.tokens.len() - 1 {
            self.cursor - 1
        } else {
            self.tokens.len() - 1
        };
        self.tokens[idx].span.start
    }

    /// Consumes a `;` if one comes next.
    pub fn maybe_semicolon(&mut self)
        requires
            old(self).wf(),
        ensures
            old(self).step(*final(self)),
            old(self).spec_peek().kind is Semicolon ==> final(self).pos() == old(self).pos() + 1
                && final(self).diagnostics == old(self).diagnostics,
            !(old(self).spec_peek().kind is Semicolon) ==> *final(self) == *old(self),
    {
        if matches!(self.peek().kind, TokenKind::Semicolon) {
            self.advance();
        }
    }

    /// Records that `kind` was expected where the next token stands.
    pub fn report_expected(&mut self, kind: &TokenKind)
        requires
            old(self).wf(),
        ensures
            old(self).step(*final(self)),
            final(self).pos() == old(self).pos(),
            final(self).diagnostics@.len() == old(self).diagnostics@.len() + 1,
            final(self).diagnostics@.drop_last() == old(self).diagnostics@,
            final(self).diagnostics@.last().severity == Severity::Error,
            final(self).diagnostics@.last().code@ == "E001"@,
            final(self).diagnostics@.last().message@ == "Expected '"@ + kind.spec_text()
                + "', found '"@ + old(self).spec_peek().kind.spec_text() + "'"@,
            final(self).diagnostics@.last().span == old(self).spec_peek().span,
    {
        let span = self.peek().span;
        let mut msg = String::new();
        msg.push_str("Expected '");
        let k = kind.text();
        msg.push_str(k.as_str());
        msg.push_str("', found '");
        let f = self.peek().kind.text();
        msg.push_str(f.as_str());
        msg.push_str("'");
        self.diagnostics.push(Diagnostic::error("E001", msg.as_str(), span));
    }

    /// Records an error at the next token.
    pub fn report(&mut self, code: &str, message: &str)
        requires
            old(self).wf(),
        ensures
            old(self).step(*final(self)),
            final(self).pos() == old(self).pos(),
            final(self).diagnostics@.len() == old(self).diagnostics@.len() + 1,
            final(self).diagnostics@.drop_last() == old(self).diagnostics@,
            final(self).diagnostics@.last().severity == Severity::Error,
            final(self).diagnostics@.last().code@ == code@,
            final(self).diagnostics@.last().message@ == message@,
            final(self).diagnostics@.last().span == old(self).spec_peek().span,
    {
        let span = self.peek().span;
        self.diagnostics.push(Diagnostic::error(code, message, span));
    }

    /// Consumes the next token if it is `kind`; otherwise records an error.
    pub fn expect(&mut self, kind: TokenKind) -> (found: bool)
        requires
            old(self).wf(),
            kind.is_simple(),
        ensures
            old(self).step(*final(self)),
            found == (old(self).spec_peek().kind == kind),
            found && !(kind is Eof) ==> final(self).pos() == old(self).pos() + 1,
            !found ==> final(self).pos() == old(self).pos(),
    {
        if self.peek().kind.same_kind(&kind) {
            self.advance();
            true
        } else {
            self.report_expected(&kind);
            false
        }
    }

    /// Parses an expression whose operators bind at least as tightly as
    /// `precedence`.
    pub fn parse_expression(&mut self, precedence: u8) -> (e: Option<Box<Expression>>)
        requires
            old(self).wf(),
        ensures
            old(self).step(*final(self)),
            e is Some ==> final(self).pos() > old(self).pos(),
            !expr::starts_expression(old(self).spec_peek().kind) ==> e is None && *final(self)
                == *old(self),
            expr::lone_literal(old(self).token_seq(), old(self).pos()) matches Some(x) ==> e == Some(
                Box::new(x),
            ) && final(self).pos() == old(self).pos() + 1,
            expr::literal_binary(old(self).token_seq(), old(self).pos(), precedence) matches Some(
                x,
            ) ==> e == Some(Box::new(x)) && final(self).pos() == old(self).pos() + 3,
            expr::chain_expr(old(self).token_seq(), old(self).pos(), precedence) matches Some(x)
                ==> e == Some(Box::new(x)) && final(self).pos() == expr::climb(
                old(self).token_seq(),
                expr::atom_expr(old(self).token_seq()[old(self).pos()]).unwrap(),
                old(self).pos() + 1,
                precedence,
            ).1 && expr::chain_rest(old(self).token_seq(), final(self).pos()),
        decreases old(self).remaining(), 3int,
    {
        expr::parse_expression(self, precedence)
    }
}

} // verus!
