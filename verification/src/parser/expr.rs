//! Expressions: a precedence-climbing parser over prefix expressions.
use vstd::prelude::*;

use crate::ast::{
    ArrowFunctionBody, AssignmentOp, BinaryOp, Expression, Parameter, Property, PropertyKey,
    Statement, TypeAnn, UnaryOp,
};
use crate::parser::Parser;
use crate::token::{Span, Token, TokenKind};

verus! {

/// Binding strength of an infix operator token, and whether it associates
/// to the right.
pub open spec fn spec_infix_led(kind: TokenKind) -> Option<(u8, bool)> {
    match kind {
        TokenKind::QuestionQuestion => Some((1, true)),
        TokenKind::PipePipe => Some((2, false)),
        TokenKind::AmpAmp => Some((3, false)),
        TokenKind::Pipe => Some((4, false)),
        TokenKind::Caret => Some((5, false)),
        TokenKind::Amp => Some((6, false)),
        TokenKind::EqEq | TokenKind::NotEq | TokenKind::EqEqEq | TokenKind::NotEqEq => Some(
            (7, false),
        ),
        TokenKind::Instanceof => Some((7, false)),
        TokenKind::Lt | TokenKind::Gt | TokenKind::LtEq | TokenKind::GtEq => Some((8, false)),
        TokenKind::LtLt | TokenKind::GtGt | TokenKind::GtGtGt => Some((9, false)),
        TokenKind::Plus | TokenKind::Minus => Some((10, false)),
        TokenKind::Star | TokenKind::Slash | TokenKind::Percent => Some((11, false)),
        TokenKind::StarStar => Some((12, true)),
        TokenKind::Eq | TokenKind::PlusEq | TokenKind::MinusEq | TokenKind::StarEq
        | TokenKind::SlashEq | TokenKind::PercentEq | TokenKind::AmpEq | TokenKind::PipeEq => Some(
            (1, true),
        ),
        _ => None,
    }
}

pub fn get_infix_led(kind: &TokenKind) -> (r: Option<(u8, bool)>)
    ensures
        r == spec_infix_led(*kind),
{
    match kind {
        TokenKind::QuestionQuestion => Some((1, true)),
        TokenKind::PipePipe => Some((2, false)),
        TokenKind::AmpAmp => Some((3, false)),
        TokenKind::Pipe => Some((4, false)),
        TokenKind::Caret => Some((5, false)),
        TokenKind::Amp => Some((6, false)),
        TokenKind::EqEq | TokenKind::NotEq | TokenKind::EqEqEq | TokenKind::NotEqEq => Some(
            (7, false),
        ),
        TokenKind::Instanceof => Some((7, false)),
        TokenKind::Lt | TokenKind::Gt | TokenKind::LtEq | TokenKind::GtEq => Some((8, false)),
        TokenKind::LtLt | TokenKind::GtGt | TokenKind::GtGtGt => Some((9, false)),
        TokenKind::Plus | TokenKind::Minus => Some((10, false)),
        TokenKind::Star | TokenKind::Slash | TokenKind::Percent => Some((11, false)),
        TokenKind::StarStar => Some((12, true)),
        TokenKind::Eq | TokenKind::PlusEq | TokenKind::MinusEq | TokenKind::StarEq
        | TokenKind::SlashEq | TokenKind::PercentEq | TokenKind::AmpEq | TokenKind::PipeEq => Some(
            (1, true),
        ),
        _ => None,
    }
}

/// The assignment operator a token stands for, if any.
pub fn assignment_op_from_token(kind: &TokenKind) -> (r: Option<AssignmentOp>)
    ensures
        r is Some <==> (*kind is Eq || *kind is PlusEq || *kind is MinusEq || *kind is StarEq
            || *kind is SlashEq || *kind is PercentEq || *kind is AmpEq || *kind is PipeEq),
{
    match kind {
        TokenKind::Eq => Some(AssignmentOp::Assign),
        TokenKind::PlusEq => Some(AssignmentOp::AddAssign),
        TokenKind::MinusEq => Some(AssignmentOp::SubAssign),
        TokenKind::StarEq => Some(AssignmentOp::MulAssign),
        TokenKind::SlashEq => Some(AssignmentOp::DivAssign),
        TokenKind::PercentEq => Some(AssignmentOp::ModAssign),
        TokenKind::AmpEq => Some(AssignmentOp::BitAndAssign),
        TokenKind::PipeEq => Some(AssignmentOp::BitOrAssign),
        _ => None,
    }
}

/// The binary operator that an infix token denotes, for the tokens that
/// denote one.
pub open spec fn token_binary_op(kind: TokenKind) -> Option<BinaryOp> {
    match kind {
        TokenKind::QuestionQuestion => Some(BinaryOp::NullishCoalescing),
        TokenKind::PipePipe => Some(BinaryOp::LogicalOr),
        TokenKind::AmpAmp => Some(BinaryOp::LogicalAnd),
        TokenKind::Pipe => Some(BinaryOp::BitwiseOr),
        TokenKind::Caret => Some(BinaryOp::BitwiseXor),
        TokenKind::Amp => Some(BinaryOp::BitwiseAnd),
        TokenKind::EqEq => Some(BinaryOp::Eq),
        TokenKind::NotEq => Some(BinaryOp::NotEq),
        TokenKind::EqEqEq => Some(BinaryOp::StrictEq),
        TokenKind::NotEqEq => Some(BinaryOp::StrictNotEq),
        TokenKind::Lt => Some(BinaryOp::Lt),
        TokenKind::Gt => Some(BinaryOp::Gt),
        TokenKind::LtEq => Some(BinaryOp::LtEq),
        TokenKind::GtEq => Some(BinaryOp::GtEq),
        TokenKind::LtLt => Some(BinaryOp::Lsh),
        TokenKind::GtGt => Some(BinaryOp::Rsh),
        TokenKind::GtGtGt => Some(BinaryOp::ZeroFillRsh),
        TokenKind::Plus => Some(BinaryOp::Add),
        TokenKind::Minus => Some(BinaryOp::Sub),
        TokenKind::Star => Some(BinaryOp::Mul),
        TokenKind::Slash => Some(BinaryOp::Div),
        TokenKind::Percent => Some(BinaryOp::Rem),
        TokenKind::StarStar => Some(BinaryOp::Exp),
        TokenKind::Instanceof => Some(BinaryOp::Instanceof),
        _ => None,
    }
}

/// The binary operator of an infix token that is not an assignment.
pub fn binary_op_from_token(kind: &TokenKind) -> (op: BinaryOp)
    requires
        spec_infix_led(*kind) is Some,
        !(*kind is Eq || *kind is PlusEq || *kind is MinusEq || *kind is StarEq
            || *kind is SlashEq || *kind is PercentEq || *kind is AmpEq || *kind is PipeEq),
    ensures
        token_binary_op(*kind) == Some(op),
{
    match kind {
        TokenKind::QuestionQuestion => BinaryOp::NullishCoalescing,
        TokenKind::PipePipe => BinaryOp::LogicalOr,
        TokenKind::AmpAmp => BinaryOp::LogicalAnd,
        TokenKind::Pipe => BinaryOp::BitwiseOr,
        TokenKind::Caret => BinaryOp::BitwiseXor,
        TokenKind::Amp => BinaryOp::BitwiseAnd,
        TokenKind::EqEq => BinaryOp::Eq,
        TokenKind::NotEq => BinaryOp::NotEq,
        TokenKind::EqEqEq => BinaryOp::StrictEq,
        TokenKind::NotEqEq => BinaryOp::StrictNotEq,
        TokenKind::Lt => BinaryOp::Lt,
        TokenKind::Gt => BinaryOp::Gt,
        TokenKind::LtEq => BinaryOp::LtEq,
        TokenKind::GtEq => BinaryOp::GtEq,
        TokenKind::LtLt => BinaryOp::Lsh,
        TokenKind::GtGt => BinaryOp::Rsh,
        TokenKind::GtGtGt => BinaryOp::ZeroFillRsh,
        TokenKind::Plus => BinaryOp::Add,
        TokenKind::Minus => BinaryOp::Sub,
        TokenKind::Star => BinaryOp::Mul,
        TokenKind::Slash => BinaryOp::Div,
        TokenKind::Percent => BinaryOp::Rem,
        TokenKind::StarStar => BinaryOp::Exp,
        _ => BinaryOp::Instanceof,
    }
}

/// The prefix operator a token stands for, if any.
pub open spec fn token_unary_op(kind: TokenKind) -> Option<UnaryOp> {
    match kind {
        TokenKind::Plus => Some(UnaryOp::Plus),
        TokenKind::Minus => Some(UnaryOp::Minus),
        TokenKind::Bang => Some(UnaryOp::Not),
        TokenKind::Tilde => Some(UnaryOp::BitwiseNot),
        TokenKind::PlusPlus => Some(UnaryOp::PlusPlus),
        TokenKind::MinusMinus => Some(UnaryOp::MinusMinus),
        TokenKind::TypeOf => Some(UnaryOp::TypeOf),
        TokenKind::Void => Some(UnaryOp::Void),
        TokenKind::Delete => Some(UnaryOp::Delete),
        _ => None,
    }
}

fn unary_op_from_token(kind: &TokenKind) -> (r: Option<UnaryOp>)
    ensures
        r == token_unary_op(*kind),
{
    match kind {
        TokenKind::Plus => Some(UnaryOp::Plus),
        TokenKind::Minus => Some(UnaryOp::Minus),
        TokenKind::Bang => Some(UnaryOp::Not),
        TokenKind::Tilde => Some(UnaryOp::BitwiseNot),
        TokenKind::PlusPlus => Some(UnaryOp::PlusPlus),
        TokenKind::MinusMinus => Some(UnaryOp::MinusMinus),
        TokenKind::TypeOf => Some(UnaryOp::TypeOf),
        TokenKind::Void => Some(UnaryOp::Void),
        TokenKind::Delete => Some(UnaryOp::Delete),
        _ => None,
    }
}

/// The name of an identifier token, or the empty string.
fn identifier_name(kind: &TokenKind) -> (s: String)
    ensures
        s@ == (match *kind {
            TokenKind::Identifier(n) => n@,
            _ => Seq::<char>::empty(),
        }),
{
    match kind {
        TokenKind::Identifier(n) => n.clone(),
        _ => String::new(),
    }
}

/// An expression that stands where none could be parsed.
pub fn placeholder_at(p: &Parser) -> (e: Box<Expression>)
    requires
        p.wf(),
    ensures
        *e == (Expression::Placeholder { span: p.spec_peek().span }),
{
    Box::new(Expression::Placeholder { span: p.peek().span })
}

/// A token after which an operand is complete: no postfix, call, member,
/// conditional, infix or `as` continues it.
pub open spec fn ends_operand(kind: TokenKind) -> bool {
    &&& !(kind is PlusPlus || kind is MinusMinus || kind is OpenParen || kind is Dot
        || kind is OpenBracket || kind is QuestionDot || kind is Question || kind is As
        || kind is Arrow || kind is Colon)
    &&& spec_infix_led(kind) is None
}

/// The tokens from `o` are a literal or a name and then a token that ends
/// it: its expression.
pub open spec fn lone_literal(t: Seq<Token>, o: int) -> Option<Expression> {
    if 0 <= o && o + 1 < t.len() && ends_operand(t[o + 1].kind) {
        atom_expr(t[o])
    } else {
        None
    }
}

/// The tokens from `o` are a literal or name, a binary operator that binds
/// at least as tightly as `min_prec`, a literal or name, and a token that
/// ends the operand: the binary expression of the two.
pub open spec fn literal_binary(t: Seq<Token>, o: int, min_prec: u8) -> Option<Expression> {
    if 0 <= o && o + 3 < t.len() && ends_operand(t[o + 3].kind) {
        match (atom_expr(t[o]), spec_infix_led(t[o + 1].kind), token_binary_op(t[o + 1].kind), atom_expr(t[o + 2])) {
            (Some(x), Some((prec, _)), Some(op), Some(y)) => if prec >= min_prec {
                Some(
                    Expression::BinaryExpression {
                        left: Box::new(x),
                        operator: op,
                        right: Box::new(y),
                        span: Span { start: t[o].span.start, end: t[o + 2].span.end },
                    },
                )
            } else {
                None
            },
            _ => None,
        }
    } else {
        None
    }
}

/// Parses an expression whose operators bind at least as tightly as
/// `min_prec`.
pub fn parse_expression(p: &mut Parser, min_prec: u8) -> (e: Option<Box<Expression>>)
    requires
        old(p).wf(),
    ensures
        old(p).step(*final(p)),
        e is Some ==> final(p).pos() > old(p).pos(),
        !starts_expression(old(p).spec_peek().kind) ==> e is None && *final(p) == *old(p),
        lone_literal(old(p).token_seq(), old(p).pos()) matches Some(x) ==> e == Some(Box::new(x))
            && final(p).pos() == old(p).pos() + 1,
        literal_binary(old(p).token_seq(), old(p).pos(), min_prec) matches Some(x) ==> e == Some(
            Box::new(x),
        ) && final(p).pos() == old(p).pos() + 3,
        simple_chain(old(p).token_seq(), old(p).pos()) ==> {
            let t = old(p).token_seq();
            let o = old(p).pos();
            let r = climb(t, atom_expr(t[o]).unwrap(), o + 1, min_prec);
            &&& e == Some(Box::new(r.0))
            &&& final(p).pos() == r.1
            &&& chain_rest(t, r.1)
        },
    decreases old(p).remaining(), 2int,
{
    let ghost t = p.token_seq();
    let ghost o = p.pos();
    let ghost sc = simple_chain(t, o);
    let ghost target = climb(t, atom_expr(t[o]).unwrap(), o + 1, min_prec);
    let ghost single = lone_literal(t, o);
    let ghost binary = literal_binary(t, o, min_prec);
    proof {
        if atom_expr(p.spec_peek()) is Some {
            assert(p.peek_index() == o);
        }
        if single is Some || binary is Some {
            assert(p.spec_peek() == t[o]);
        }
    }
    let mut left = match parse_prefix(p) {
        Some(l) => l,
        None => {
            return None;
        },
    };
    proof {
        if sc {
            assert(chain_rest(t, o + 1));
            assert(*left == atom_expr(t[o]).unwrap());
        }
    }
    let ghost mut stage: int = 0;
    loop
        invariant
            old(p).step(*p),
            p.pos() > old(p).pos(),
            t == old(p).token_seq(),
            o == old(p).pos(),
            single == lone_literal(t, o),
            binary == literal_binary(t, o, min_prec),
            single is Some || binary is Some ==> atom_expr(t[o]) is Some,
            (single is Some || binary is Some) && stage == 0 ==> p.pos() == o + 1 && Some(*left)
                == atom_expr(t[o]),
            stage == 1 ==> (binary matches Some(x) ==> p.pos() == o + 3 && *left == x),
            binary is Some ==> stage == 0 || stage == 1,
            single is Some ==> stage == 0,
            starts_expression(old(p).spec_peek().kind),
            sc == simple_chain(t, o),
            target == climb(t, atom_expr(t[o]).unwrap(), o + 1, min_prec),
            sc ==> chain_rest(t, p.pos()) && climb(t, *left, p.pos(), min_prec) == target,
        ensures
            binary is Some ==> stage == 1,
            single is Some ==> stage == 0,
            sc ==> target == (*left, p.pos()) && chain_rest(t, p.pos()),
        decreases p.remaining(),
    {
        proof {
            if sc {
                assert(p.spec_peek() == t[p.pos()]);
            }
            if single is Some && stage == 0 {
                assert(p.spec_peek() == t[o + 1]);
            }
            if binary is Some && stage == 0 {
                assert(p.spec_peek() == t[o + 1]);
            }
            if binary is Some && stage == 1 {
                assert(p.spec_peek() == t[o + 3]);
            }
        }
        if p.is_at_end() {
            break;
        }
        let kind = p.peek().kind.clone();
        // Postfix operators
        if matches!(kind, TokenKind::PlusPlus) || matches!(kind, TokenKind::MinusMinus) {
            if 16 >= min_prec {
                p.advance();
                let span = Span::new(left.span().start, p.last_end());
                let op = if matches!(kind, TokenKind::PlusPlus) {
                    UnaryOp::PlusPlus
                } else {
                    UnaryOp::MinusMinus
                };
                left = Box::new(Expression::UnaryExpression { operator: op, operand: left, span });
                continue;
            }
            break;
        }
        // Calls

        if matches!(kind, TokenKind::OpenParen) {
            if 17 >= min_prec {
                p.advance();
                let args = parse_arguments(p);
                let span = Span::new(left.span().start, p.last_end());
                left = Box::new(
                    Expression::CallExpression { callee: left, arguments: args, optional: false, span },
                );
                continue;
            }
            break;
        }
        // Member access

        if matches!(kind, TokenKind::Dot) || matches!(kind, TokenKind::OpenBracket) {
            if 18 >= min_prec {
                let computed = matches!(kind, TokenKind::OpenBracket);
                p.advance();
                let (property, span) = if computed {
                    let expr = match parse_expression(p, 0) {
                        Some(e) => e,
                        None => {
                            return None;
                        },
                    };
                    p.expect(TokenKind::CloseBracket);
                    let end = p.last_end();
                    (expr, Span::new(left.span().start, end))
                } else {
                    let name = identifier_name(&p.peek().kind);
                    p.advance();
                    let end = p.last_end();
                    (
                        Box::new(Expression::Identifier { name, span: Span::new(end, end) }),
                        Span::new(left.span().start, end),
                    )
                };
                left = Box::new(
                    Expression::MemberExpression {
                        object: left,
                        property,
                        computed,
                        optional: false,
                        span,
                    },
                );
                continue;
            }
            break;
        }
        // Optional chaining: ?.prop, ?.[expr], ?.(args)

        if matches!(kind, TokenKind::QuestionDot) {
            let next_is_bracket = matches!(p.peek_ahead(1).kind, TokenKind::OpenBracket);
            let next_is_paren = matches!(p.peek_ahead(1).kind, TokenKind::OpenParen);
            if next_is_bracket {
                if 18 >= min_prec {
                    p.advance();
                    p.advance();
                    let prop = match parse_expression(p, 0) {
                        Some(e) => e,
                        None => {
                            return None;
                        },
                    };
                    p.expect(TokenKind::CloseBracket);
                    let end = p.last_end();
                    let span = Span::new(left.span().start, end);
                    left = Box::new(
                        Expression::MemberExpression {
                            object: left,
                            property: prop,
                            computed: true,
                            optional: true,
                            span,
                        },
                    );
                    continue;
                }
                break;
            } else if next_is_paren {
                if 17 >= min_prec {
                    p.advance();
                    p.advance();
                    let args = parse_arguments(p);
                    let span = Span::new(left.span().start, p.last_end());
                    left = Box::new(
                        Expression::CallExpression {
                            callee: left,
                            arguments: args,
                            optional: true,
                            span,
                        },
                    );
                    continue;
                }
                break;
            }
            if 18 >= min_prec {
                p.advance();
                let name = identifier_name(&p.peek().kind);
                p.advance();
                let end = p.last_end();
                let property = Box::new(Expression::Identifier { name, span: Span::new(end, end) });
                let span = Span::new(left.span().start, end);
                left = Box::new(
                    Expression::MemberExpression {
                        object: left,
                        property,
                        computed: false,
                        optional: true,
                        span,
                    },
                );
                continue;
            }
            break;
        }
        // Conditional (?:)

        if matches!(kind, TokenKind::Question) && !matches!(
            p.peek_ahead(1).kind,
            TokenKind::Question
        ) {
            if 1 >= min_prec {
                p.advance();
                let consequent = match parse_expression(p, 0) {
                    Some(e) => e,
                    None => {
                        return None;
                    },
                };
                p.expect(TokenKind::Colon);
                let alternate = match parse_expression(p, 1) {
                    Some(e) => e,
                    None => {
                        return None;
                    },
                };
                let span = Span::new(left.span().start, alternate.span().end);
                left = Box::new(
                    Expression::ConditionalExpression { test: left, consequent, alternate, span },
                );
                continue;
            }
            break;
        }
        // Infix operators

        match get_infix_led(&kind) {
            Some((prec, is_right)) => {
                if prec < min_prec {
                    break;
                }
                let next_prec = if is_right {
                    prec
                } else {
                    prec + 1
                };
                match assignment_op_from_token(&kind) {
                    Some(op) => {
                        p.advance();
                        let right = match parse_expression(p, next_prec) {
                            Some(e) => e,
                            None => {
                                return None;
                            },
                        };
                        let span = Span::new(left.span().start, right.span().end);
                        left = Box::new(
                            Expression::AssignmentExpression { left, operator: op, right, span },
                        );
                        continue;
                    },
                    None => {
                        let ghost op_i = p.pos();
                        let ghost left0 = *left;
                        p.advance();
                        let op = binary_op_from_token(&kind);
                        proof {
                            if binary is Some && stage == 0 {
                                assert(p.pos() == o + 2);
                                assert(p.spec_peek() == t[o + 2]);
                                assert(lone_literal(p.token_seq(), p.pos()) == atom_expr(t[o + 2]));
                            }
                        }
                        let right = match parse_expression(p, next_prec) {
                            Some(e) => e,
                            None => {
                                return None;
                            },
                        };
                        let span = Span::new(left.span().start, right.span().end);
                        left = Box::new(
                            Expression::BinaryExpression { left, operator: op, right, span },
                        );
                        proof {
                            stage = 1;
                            if sc {
                                assert(simple_chain(t, op_i + 1));
                                assert(climb(t, left0, op_i, min_prec) == climb(
                                    t,
                                    *left,
                                    p.pos(),
                                    min_prec,
                                ));
                            }
                        }
                        continue;
                    },
                }
            },
            None => {
                break;
            },
        }
    }
    // `x as Type` type assertion
    if matches!(p.peek().kind, TokenKind::As) {
        let start = left.span().start;
        p.advance();
        let type_ann = match p.parse_type() {
            Some(t) => t,
            None => TypeAnn::Any,
        };
        let end = p.last_end();
        left = Box::new(
            Expression::AsExpression { expression: left, type_ann, span: Span::new(start, end) },
        );
    }
    Some(left)
}

/// The tokens from `i` are a chain of literals and names joined by binary
/// operators, ended by a token that ends an operand.
pub open spec fn simple_chain(t: Seq<Token>, i: int) -> bool
    decreases t.len() - i,
{
    if 0 <= i && i + 1 < t.len() {
        atom_expr(t[i]) is Some && chain_rest(t, i + 1)
    } else {
        false
    }
}

/// The tokens from `i` end an operand, or are a binary operator and then a
/// simple chain.
pub open spec fn chain_rest(t: Seq<Token>, i: int) -> bool
    decreases t.len() - i,
{
    if 0 <= i < t.len() {
        ||| ends_operand(t[i].kind)
        ||| (spec_infix_led(t[i].kind) is Some && token_binary_op(t[i].kind) is Some
            && simple_chain(t, i + 1))
    } else {
        false
    }
}

/// Precedence climbing over a simple chain: with `left` parsed and the
/// next token at `i`, each binary operator that binds at least as tightly
/// as `min_prec` takes as its right operand the chain parsed at the
/// precedence above its own (its own, for right-associative operators);
/// the result and the index after it.
pub open spec fn climb(t: Seq<Token>, left: Expression, i: int, min_prec: u8) -> (Expression, int)
    decreases t.len() - i,
{
    if 0 <= i && i + 1 < t.len() && atom_expr(t[i + 1]) is Some {
        match (spec_infix_led(t[i].kind), token_binary_op(t[i].kind)) {
            (Some((prec, is_right)), Some(op)) => if prec >= min_prec && prec < 255 {
                let next = if is_right {
                    prec
                } else {
                    (prec + 1) as u8
                };
                let x = atom_expr(t[i + 1]).unwrap();
                let (right, j) = climb(t, x, i + 2, next);
                if i + 2 <= j <= t.len() {
                    climb(
                        t,
                        Expression::BinaryExpression {
                            left: Box::new(left),
                            operator: op,
                            right: Box::new(right),
                            span: Span { start: left.spec_span().start, end: right.spec_span().end },
                        },
                        j,
                        min_prec,
                    )
                } else {
                    (left, i)
                }
            } else {
                (left, i)
            },
            _ => (left, i),
        }
    } else {
        (left, i)
    }
}

/// The expression a simple chain from `o` parses to at `min_prec`.
pub open spec fn chain_expr(t: Seq<Token>, o: int, min_prec: u8) -> Option<Expression> {
    if simple_chain(t, o) {
        Some(climb(t, atom_expr(t[o]).unwrap(), o + 1, min_prec).0)
    } else {
        None
    }
}

/// Where the expression statement of a simple chain from `o` ends: after
/// the chain, and after a `;` that follows it.
pub open spec fn chain_statement_end(t: Seq<Token>, o: int) -> int {
    let e = climb(t, atom_expr(t[o]).unwrap(), o + 1, 0).1;
    if 0 <= e < t.len() && t[e].kind is Semicolon {
        e + 1
    } else {
        e
    }
}

/// The statements of a program from `o` that is made of simple chains,
/// each an expression statement ended by `;` or by where the next starts,
/// up to the end of input.
pub open spec fn chain_program(t: Seq<Token>, o: int) -> Option<Seq<Statement>>
    decreases t.len() - o,
{
    if 0 <= o < t.len() && t[o].kind is Eof {
        Some(Seq::empty())
    } else {
        match chain_expr(t, o, 0) {
            Some(x) => {
                let e = chain_statement_end(t, o);
                if o < e <= t.len() {
                    match chain_program(t, e) {
                        Some(rest) => Some(
                            seq![Statement::ExpressionStatement { expression: Box::new(x), span: x.spec_span() }]
                                + rest,
                        ),
                        None => None,
                    }
                } else {
                    None
                }
            },
            None => None,
        }
    }
}

/// The literal expression a single token is.
pub open spec fn literal_expr(t: Token) -> Option<Expression> {
    match t.kind {
        TokenKind::Number(n) => Some(Expression::NumberLiteral { value: n, span: t.span }),
        TokenKind::String(s) => Some(Expression::StringLiteral { value: s, span: t.span }),
        TokenKind::True => Some(Expression::BooleanLiteral { value: true, span: t.span }),
        TokenKind::False => Some(Expression::BooleanLiteral { value: false, span: t.span }),
        TokenKind::Null => Some(Expression::NullLiteral { span: t.span }),
        TokenKind::Undefined => Some(Expression::UndefinedLiteral { span: t.span }),
        _ => None,
    }
}

/// The name a name token stands for, as an expression.
pub open spec fn name_expr(t: Token) -> Option<Expression> {
    match t.kind {
        TokenKind::Identifier(n) => Some(Expression::Identifier { name: n, span: t.span }),
        _ => None,
    }
}

/// A literal or a name, as an expression.
pub open spec fn atom_expr(t: Token) -> Option<Expression> {
    match literal_expr(t) {
        Some(x) => Some(x),
        None => name_expr(t),
    }
}

/// The tokens a prefix expression can start with.
pub open spec fn starts_expression(kind: TokenKind) -> bool {
    ||| kind is Number
    ||| kind is String
    ||| kind is True
    ||| kind is False
    ||| kind is Null
    ||| kind is Undefined
    ||| kind is Identifier
    ||| kind is OpenParen
    ||| kind is DotDotDot
    ||| kind is OpenBracket
    ||| kind is OpenBrace
    ||| kind is NoSubstitutionTemplate
    ||| kind is TemplateHead
    ||| kind is Plus
    ||| kind is Minus
    ||| kind is Bang
    ||| kind is Tilde
    ||| kind is PlusPlus
    ||| kind is MinusMinus
    ||| kind is TypeOf
    ||| kind is Void
    ||| kind is Delete
    ||| kind is This
    ||| kind is Super
    ||| kind is Async
    ||| kind is Await
    ||| kind is New
}

/// Parses a prefix expression: a literal, name, parenthesized or arrow
/// function, array, object, template, unary, `await`, `new` and the like.
pub fn parse_prefix(p: &mut Parser) -> (e: Option<Box<Expression>>)
    requires
        old(p).wf(),
    ensures
        old(p).step(*final(p)),
        e is Some ==> final(p).pos() > old(p).pos(),
        literal_expr(old(p).spec_peek()) matches Some(x) ==> e == Some(Box::new(x))
            && final(p).pos() == old(p).pos() + 1,
        name_expr(old(p).spec_peek()) matches Some(x) ==> (!(old(p).token_seq()[old(p).pos()
            + 1].kind is Arrow) ==> e == Some(Box::new(x)) && final(p).pos() == old(p).pos() + 1),
        !starts_expression(old(p).spec_peek().kind) ==> e is None && *final(p) == *old(p),
        token_unary_op(old(p).spec_peek().kind) matches Some(op) ==> (e matches Some(u) ==> (
        *u matches Expression::UnaryExpression { operator, .. } && operator == op)),
        token_unary_op(old(p).spec_peek().kind) matches Some(op) ==> (lone_literal(
            old(p).token_seq(),
            old(p).pos() + 1,
        ) matches Some(x) ==> (e matches Some(u) && *u matches Expression::UnaryExpression {
            operator,
            operand,
            span,
        } && operator == op && *operand == x && span.end == x.spec_span().end)),
    decreases old(p).remaining(), 1int,
{
    proof {
        if token_unary_op(p.spec_peek().kind) is Some {
            assert(p.peek_index() == p.pos());
        }
    }
    let kind = p.peek().kind.clone();
    match kind {
        TokenKind::Number(n) => {
            let tok = p.advance();
            Some(Box::new(Expression::NumberLiteral { value: n, span: tok.span }))
        },
        TokenKind::String(s) => {
            let tok = p.advance();
            Some(Box::new(Expression::StringLiteral { value: s, span: tok.span }))
        },
        TokenKind::True => {
            let tok = p.advance();
            Some(Box::new(Expression::BooleanLiteral { value: true, span: tok.span }))
        },
        TokenKind::False => {
            let tok = p.advance();
            Some(Box::new(Expression::BooleanLiteral { value: false, span: tok.span }))
        },
        TokenKind::Null => {
            let tok = p.advance();
            Some(Box::new(Expression::NullLiteral { span: tok.span }))
        },
        TokenKind::Undefined => {
            let tok = p.advance();
            Some(Box::new(Expression::UndefinedLiteral { span: tok.span }))
        },
        TokenKind::Identifier(name) => {
            let tok = p.advance();
            let span = tok.span;
            // Single-param arrow: x => ...
            if matches!(p.peek().kind, TokenKind::Arrow) {
                let mut params: Vec<Parameter> = Vec::new();
                params.push(
                    Parameter {
                        name,
                        type_ann: None,
                        default_value: None,
                        is_rest: false,
                        span,
                    },
                );
                p.advance();
                let (body, end) = parse_arrow_body(p);
                return Some(
                    Box::new(
                        Expression::ArrowFunction {
                            params,
                            return_type: None,
                            body,
                            is_async: false,
                            span: Span::new(span.start, end),
                        },
                    ),
                );
            }
            Some(Box::new(Expression::Identifier { name, span }))
        },
        TokenKind::OpenParen => {
            let open = p.advance().span;
            // Arrow function: (params) => ... or (params): RetType => ...
            if is_arrow_after_paren(&p.tokens, p.cursor - 1) {
                let params = p.parse_function_params();
                p.expect(TokenKind::CloseParen);
                let return_type = if matches!(p.peek().kind, TokenKind::Colon) {
                    p.parse_type_annotation()
                } else {
                    None
                };
                p.expect(TokenKind::Arrow);
                let (body, body_end) = parse_arrow_body(p);
                return Some(
                    Box::new(
                        Expression::ArrowFunction {
                            params,
                            return_type,
                            body,
                            is_async: false,
                            span: Span::new(open.start, body_end),
                        },
                    ),
                );
            }
            let expr = match parse_expression(p, 0) {
                Some(e) => e,
                None => {
                    return None;
                },
            };
            p.expect(TokenKind::CloseParen);
            let end = p.last_end();
            Some(
                Box::new(
                    Expression::ParenthesizedExpression {
                        expression: expr,
                        span: Span::new(open.start, end),
                    },
                ),
            )
        },
        TokenKind::DotDotDot => {
            let start = p.advance().span.start;
            let argument = match parse_expression(p, 1) {
                Some(e) => e,
                None => {
                    return None;
                },
            };
            let span = Span::new(start, argument.span().end);
            Some(Box::new(Expression::SpreadElement { argument, span }))
        },
        TokenKind::OpenBracket => {
            let open = p.advance().span;
            let mut elements: Vec<Option<Box<Expression>>> = Vec::new();
            while !matches!(p.peek().kind, TokenKind::CloseBracket) && !p.is_at_end()
                invariant
                    old(p).step(*p),
                    p.pos() > old(p).pos(),
                    old(p).spec_peek().kind is OpenBracket,
                decreases p.remaining(),
            {
                if matches!(p.peek().kind, TokenKind::Comma) {
                    elements.push(None);
                    p.advance();
                } else {
                    let e = match parse_expression(p, 0) {
                        Some(e) => e,
                        None => {
                            return None;
                        },
                    };
                    elements.push(Some(e));
                    if matches!(p.peek().kind, TokenKind::Comma) {
                        p.advance();
                    }
                }
            }
            p.expect(TokenKind::CloseBracket);
            let end = p.last_end();
            Some(
                Box::new(Expression::ArrayExpression { elements, span: Span::new(open.start, end) }),
            )
        },
        TokenKind::OpenBrace => {
            let open = p.advance().span;
            match parse_object_properties(p) {
                Some(properties) => {
                    p.expect(TokenKind::CloseBrace);
                    let end = p.last_end();
                    Some(
                        Box::new(
                            Expression::ObjectExpression {
                                properties,
                                span: Span::new(open.start, end),
                            },
                        ),
                    )
                },
                None => None,
            }
        },
        TokenKind::NoSubstitutionTemplate(text) => {
            let tok = p.advance();
            let mut quasis: Vec<String> = Vec::new();
            quasis.push(text);
            Some(
                Box::new(
                    Expression::TemplateLiteral { quasis, expressions: Vec::new(), span: tok.span },
                ),
            )
        },
        TokenKind::TemplateHead(text) => {
            let start = p.peek().span;
            let mut quasis: Vec<String> = Vec::new();
            quasis.push(text);
            let mut expressions: Vec<Box<Expression>> = Vec::new();
            p.advance();
            match parse_expression(p, 0) {
                Some(e) => expressions.push(e),
                None => {},
            }
            loop
                invariant
                    old(p).step(*p),
                    p.pos() > old(p).pos(),
                    old(p).spec_peek().kind is TemplateHead,
                decreases p.remaining(),
            {
                let k = p.peek().kind.clone();
                match k {
                    TokenKind::TemplateMiddle(t) => {
                        quasis.push(t);
                        p.advance();
                        match parse_expression(p, 0) {
                            Some(e) => expressions.push(e),
                            None => {},
                        }
                    },
                    TokenKind::TemplateTail(t) => {
                        quasis.push(t);
                        let tok = p.advance();
                        return Some(
                            Box::new(
                                Expression::TemplateLiteral {
                                    quasis,
                                    expressions,
                                    span: Span::new(start.start, tok.span.end),
                                },
                            ),
                        );
                    },
                    _ => {
                        return Some(
                            Box::new(
                                Expression::TemplateLiteral {
                                    quasis,
                                    expressions,
                                    span: Span::new(start.start, p.peek().span.start),
                                },
                            ),
                        );
                    },
                }
            }
        },
        TokenKind::Plus | TokenKind::Minus | TokenKind::Bang | TokenKind::Tilde
        | TokenKind::PlusPlus | TokenKind::MinusMinus | TokenKind::TypeOf | TokenKind::Void
        | TokenKind::Delete => {
            let tok = p.advance();
            let op = match unary_op_from_token(&tok.kind) {
                Some(op) => op,
                None => UnaryOp::Plus,
            };
            let operand = match parse_expression(p, 15) {
                Some(e) => e,
                None => {
                    return None;
                },
            };
            let start = p.last_start();
            let span = Span::new(start, operand.span().end);
            Some(Box::new(Expression::UnaryExpression { operator: op, operand, span }))
        },
        TokenKind::This => {
            let tok = p.advance();
            Some(Box::new(Expression::ThisExpression { span: tok.span }))
        },
        TokenKind::Super => {
            let tok = p.advance();
            Some(Box::new(Expression::SuperExpression { span: tok.span }))
        },
        TokenKind::Async => {
            let start = p.advance().span.start;
            let k = p.peek().kind.clone();
            match k {
                TokenKind::OpenParen => {
                    let open = p.advance().span;
                    if is_arrow_after_paren(&p.tokens, p.cursor - 1) {
                        let params = p.parse_function_params();
                        p.expect(TokenKind::CloseParen);
                        let return_type = if matches!(p.peek().kind, TokenKind::Colon) {
                            p.parse_type_annotation()
                        } else {
                            None
                        };
                        p.expect(TokenKind::Arrow);
                        let (body, body_end) = parse_arrow_body(p);
                        Some(
                            Box::new(
                                Expression::ArrowFunction {
                                    params,
                                    return_type,
                                    body,
                                    is_async: true,
                                    span: Span::new(start, body_end),
                                },
                            ),
                        )
                    } else {
                        let expr = match parse_expression(p, 0) {
                            Some(e) => e,
                            None => {
                                return None;
                            },
                        };
                        p.expect(TokenKind::CloseParen);
                        let end = p.last_end();
                        Some(
                            Box::new(
                                Expression::ParenthesizedExpression {
                                    expression: expr,
                                    span: Span::new(open.start, end),
                                },
                            ),
                        )
                    }
                },
                TokenKind::Identifier(name) => {
                    let tok = p.advance();
                    let span = tok.span;
                    if matches!(p.peek().kind, TokenKind::Arrow) {
                        let mut params: Vec<Parameter> = Vec::new();
                        params.push(
                            Parameter {
                                name,
                                type_ann: None,
                                default_value: None,
                                is_rest: false,
                                span,
                            },
                        );
                        p.advance();
                        let (body, body_end) = parse_arrow_body(p);
                        return Some(
                            Box::new(
                                Expression::ArrowFunction {
                                    params,
                                    return_type: None,
                                    body,
                                    is_async: true,
                                    span: Span::new(start, body_end),
                                },
                            ),
                        );
                    }
                    Some(Box::new(Expression::Identifier { name, span }))
                },
                _ => None,
            }
        },
        TokenKind::Await => {
            let start = p.advance().span.start;
            let argument = match parse_expression(p, 15) {
                Some(e) => e,
                None => {
                    return None;
                },
            };
            let span = Span::new(start, argument.span().end);
            Some(Box::new(Expression::AwaitExpression { argument, span }))
        },
        TokenKind::New => {
            let start = p.advance().span.start;
            // Callee: a name, possibly dotted (new Error, new foo.Bar)
            let k = p.peek().kind.clone();
            let callee = match k {
                TokenKind::Identifier(name) => {
                    let tok = p.advance();
                    let mut n = Box::new(Expression::Identifier { name, span: tok.span });
                    while matches!(p.peek().kind, TokenKind::Dot)
                        invariant
                            old(p).step(*p),
                            p.pos() > old(p).pos(),
                        decreases p.remaining(),
                    {
                        p.advance();
                        let k2 = p.peek().kind.clone();
                        match k2 {
                            TokenKind::Identifier(prop_name) => {
                                let prop_span = p.advance().span;
                                let prev_span = n.span();
                                n = Box::new(
                                    Expression::MemberExpression {
                                        object: n,
                                        property: Box::new(
                                            Expression::Identifier {
                                                name: prop_name,
                                                span: prop_span,
                                            },
                                        ),
                                        computed: false,
                                        optional: false,
                                        span: Span::new(prev_span.start, prop_span.end),
                                    },
                                );
                            },
                            _ => {},
                        }
                    }
                    n
                },
                _ => {
                    return None;
                },
            };
            let args = if matches!(p.peek().kind, TokenKind::OpenParen) {
                p.advance();
                parse_arguments(p)
            } else {
                Vec::new()
            };
            let end = if args.len() == 0 {
                callee.span().end
            } else {
                p.last_end()
            };
            Some(
                Box::new(
                    Expression::NewExpression { callee, arguments: args, span: Span::new(start, end) },
                ),
            )
        },
        _ => None,
    }
}

/// The properties of an object literal, after its `{`, up to (not
/// including) the closing `}`.
/// A shorthand property `{ x }` stands for `{ x: x }`.
pub open spec fn shorthand_formed(pr: Property) -> bool {
    pr.shorthand ==> (pr.key matches PropertyKey::Identifier(k) && *pr.value matches Expression::Identifier {
        name,
        ..
    } && name@ == k@)
}

fn parse_object_properties(p: &mut Parser) -> (r: Option<Vec<Property>>)
    requires
        old(p).wf(),
    ensures
        old(p).step(*final(p)),
        old(p).spec_peek().kind is CloseBrace ==> (r matches Some(v) && v@.len() == 0) && *final(p)
            == *old(p),
        r is Some ==> final(p).spec_peek().kind is CloseBrace || final(p).spec_peek().kind is Eof,
        r matches Some(v) ==> forall|i: int| 0 <= i < v@.len() ==> shorthand_formed(#[trigger] v@[i]),
    decreases old(p).remaining(), 3int,
{
    let mut properties: Vec<Property> = Vec::new();
    while !matches!(p.peek().kind, TokenKind::CloseBrace) && !p.is_at_end()
        invariant
            old(p).step(*p),
            old(p).spec_peek().kind is CloseBrace ==> properties@.len() == 0 && *p == *old(p),
            forall|i: int| 0 <= i < properties@.len() ==> shorthand_formed(#[trigger] properties@[i]),
        decreases p.remaining(),
    {
        let prop_start = p.peek().span;
        // Spread element: { ...expr }
        if matches!(p.peek().kind, TokenKind::DotDotDot) {
            p.advance();
            let argument = match parse_expression(p, 0) {
                Some(e) => e,
                None => {
                    return None;
                },
            };
            let end = argument.span().end;
            properties.push(
                Property {
                    key: PropertyKey::Identifier(String::new()),
                    value: argument,
                    shorthand: false,
                    is_spread: true,
                    span: Span::new(prop_start.start, end),
                },
            );
            if matches!(p.peek().kind, TokenKind::Comma) {
                p.advance();
            }
            continue;
        }
        let computed = matches!(p.peek().kind, TokenKind::OpenBracket);
        if computed {
            p.advance();
            let key_expr = match parse_expression(p, 0) {
                Some(e) => e,
                None => {
                    return None;
                },
            };
            p.expect(TokenKind::CloseBracket);
            if matches!(p.peek().kind, TokenKind::Colon) {
                p.advance();
                let value = match parse_expression(p, 0) {
                    Some(e) => e,
                    None => {
                        return None;
                    },
                };
                let end = value.span().end;
                properties.push(
                    Property {
                        key: PropertyKey::Expression(key_expr),
                        value,
                        shorthand: false,
                        is_spread: false,
                        span: Span::new(prop_start.start, end),
                    },
                );
            }
        } else {
            let kind = p.peek().kind.clone();
            match kind {
                TokenKind::Identifier(name) => {
                    p.advance();
                    if matches!(p.peek().kind, TokenKind::Colon) {
                        p.advance();
                        let value = match parse_expression(p, 0) {
                            Some(e) => e,
                            None => {
                                return None;
                            },
                        };
                        let end = value.span().end;
                        properties.push(
                            Property {
                                key: PropertyKey::Identifier(name),
                                value,
                                shorthand: false,
                                is_spread: false,
                                span: Span::new(prop_start.start, end),
                            },
                        );
                    } else {
                        let value_name = name.clone();
                        properties.push(
                            Property {
                                key: PropertyKey::Identifier(name),
                                value: Box::new(
                                    Expression::Identifier { name: value_name, span: prop_start },
                                ),
                                shorthand: true,
                                is_spread: false,
                                span: prop_start,
                            },
                        );
                    }
                },
                TokenKind::String(name) => {
                    p.advance();
                    if matches!(p.peek().kind, TokenKind::Colon) {
                        p.advance();
                        let value = match parse_expression(p, 0) {
                            Some(e) => e,
                            None => {
                                return None;
                            },
                        };
                        let end = value.span().end;
                        properties.push(
                            Property {
                                key: PropertyKey::String(name),
                                value,
                                shorthand: false,
                                is_spread: false,
                                span: Span::new(prop_start.start, end),
                            },
                        );
                    } else {
                        let value_name = name.clone();
                        properties.push(
                            Property {
                                key: PropertyKey::String(name),
                                value: Box::new(
                                    Expression::Identifier { name: value_name, span: prop_start },
                                ),
                                shorthand: false,
                                is_spread: false,
                                span: prop_start,
                            },
                        );
                    }
                },
                _ => {
                    p.advance();
                    continue;
                },
            }
        }
        if matches!(p.peek().kind, TokenKind::Comma) {
            p.advance();
        }
    }
    Some(properties)
}

/// Call arguments after the `(`, through the closing `)`.
pub fn parse_arguments(p: &mut Parser) -> (args: Vec<Box<Expression>>)
    requires
        old(p).wf(),
    ensures
        old(p).step(*final(p)),
        old(p).spec_peek().kind is CloseParen ==> args@.len() == 0 && final(p).pos() == old(p).pos()
            + 1,
        lone_literal(old(p).token_seq(), old(p).pos()) matches Some(x) ==> (old(p).token_seq()[old(
            p,
        ).pos() + 1].kind is CloseParen ==> args@ == seq![Box::new(x)] && final(p).pos() == old(
            p,
        ).pos() + 2),
    decreases old(p).remaining(), 3int,
{
    let ghost t = p.token_seq();
    let ghost o = p.pos();
    let ghost single = lone_literal(t, o) is Some && t[o + 1].kind is CloseParen;
    proof {
        if single {
            assert(p.peek_index() == o);
        }
    }
    let mut args: Vec<Box<Expression>> = Vec::new();
    while !matches!(p.peek().kind, TokenKind::CloseParen) && !p.is_at_end()
        invariant_except_break
            (single || old(p).spec_peek().kind is CloseParen) ==> args@.len() == 0 && *p == *old(p),
        invariant
            old(p).step(*p),
            t == old(p).token_seq(),
            o == old(p).pos(),
            single == (lone_literal(t, o) is Some && t[o + 1].kind is CloseParen),
        ensures
            old(p).step(*p),
            old(p).spec_peek().kind is CloseParen ==> args@.len() == 0 && *p == *old(p),
            single ==> (lone_literal(t, o) matches Some(x) && args@ == seq![Box::new(x)]) && p.pos()
                == o + 1,
            p.spec_peek().kind is CloseParen || p.spec_peek().kind is Eof || !single,
        decreases p.remaining(),
    {
        match parse_expression(p, 0) {
            Some(arg) => args.push(arg),
            None => {},
        }
        if matches!(p.peek().kind, TokenKind::Comma) {
            p.advance();
        } else {
            break;
        }
    }
    p.expect(TokenKind::CloseParen);
    args
}

/// How many `(` are still open after the tokens `from..to`.
pub open spec fn paren_nesting(t: Seq<Token>, from: int, to: int) -> int
    decreases to - from,
{
    if to <= from {
        0
    } else {
        paren_nesting(t, from, to - 1) + (if t[to - 1].kind is OpenParen {
            1int
        } else if t[to - 1].kind is CloseParen {
            -1int
        } else {
            0int
        })
    }
}

/// The `)` at `j` matches the `(` at `open`.
pub open spec fn closes_at(t: Seq<Token>, open: int, j: int) -> bool {
    &&& open < j < t.len()
    &&& t[j].kind is CloseParen
    &&& paren_nesting(t, open, j + 1) == 0
    &&& forall|k: int| open < k <= j ==> #[trigger] paren_nesting(t, open, k) > 0
}

/// Tokens that end the search for `=>` after a return type annotation.
pub open spec fn stops_return_type(kind: TokenKind) -> bool {
    kind is Semicolon || kind is OpenBrace || kind is Return || kind is If || kind is While
        || kind is For
}

/// An `=>` stands at `m`, at or after `from`, with no stopping token
/// between `from` and it.
pub open spec fn arrow_before_stop(t: Seq<Token>, from: int, m: int) -> bool {
    &&& from <= m < t.len()
    &&& t[m].kind is Arrow
    &&& forall|k: int| from <= k < m ==> !stops_return_type(#[trigger] t[k].kind)
}

/// The `)` at `j` is followed by `=>`, or by `:` and a return type that
/// reaches `=>`.
pub open spec fn arrow_follows(t: Seq<Token>, j: int) -> bool {
    &&& j + 1 < t.len()
    &&& (t[j + 1].kind is Arrow || (t[j + 1].kind is Colon && exists|m: int|
        #[trigger] arrow_before_stop(t, j + 2, m)))
}

proof fn lemma_close_unique(t: Seq<Token>, open: int, a: int, b: int)
    requires
        closes_at(t, open, a),
        closes_at(t, open, b),
    ensures
        a == b,
{
    if a < b {
        assert(paren_nesting(t, open, a + 1) > 0);
    } else if b < a {
        assert(paren_nesting(t, open, b + 1) > 0);
    }
}

/// Whether the `(` at `paren_idx` opens the parameter list of an arrow
/// function: its matching `)` is followed by `=>`, or by `:` and a return
/// type that reaches `=>` before a `;`, `{`, `return`, `if`, `while` or
/// `for`.
pub fn is_arrow_after_paren(tokens: &Vec<Token>, paren_idx: usize) -> (r: bool)
    requires
        paren_idx < tokens@.len(),
        tokens@[paren_idx as int].kind is OpenParen,
    ensures
        r <==> exists|j: int|
            closes_at(tokens@, paren_idx as int, j) && arrow_follows(tokens@, j),
{
    let ghost t = tokens@;
    let ghost p = paren_idx as int;
    let mut depth: usize = 0;
    let mut close_idx: usize = 0;
    let mut found = false;
    let mut i = paren_idx;
    while i < tokens.len()
        invariant_except_break
            depth <= i - paren_idx,
            depth == paren_nesting(t, p, i as int),
            forall|k: int| p < k <= i ==> #[trigger] paren_nesting(t, p, k) > 0,
            !found,
        invariant
            t == tokens@,
            p == paren_idx,
            paren_idx <= i <= tokens@.len(),
            tokens@[paren_idx as int].kind is OpenParen,
        ensures
            found ==> closes_at(t, p, close_idx as int),
            !found ==> forall|j: int| !closes_at(t, p, j),
        decreases tokens@.len() - i,
    {
        assert(paren_nesting(t, p, i + 1) == paren_nesting(t, p, i as int) + (if t[i as int].kind is OpenParen {
            1int
        } else if t[i as int].kind is CloseParen {
            -1int
        } else {
            0int
        }));
        match tokens[i].kind {
            TokenKind::OpenParen => {
                depth += 1;
            },
            TokenKind::CloseParen => {
                if i == paren_idx {
                    assert(false);
                }
                assert(paren_nesting(t, p, i as int) > 0);
                depth -= 1;
                if depth == 0 {
                    close_idx = i;
                    found = true;
                    break;
                }
            },
            _ => {
                if i == paren_idx {
                    assert(false);
                }
                assert(paren_nesting(t, p, i as int) > 0);
            },
        }
        i += 1;
    }
    if !found {
        return false;
    }
    let ci = close_idx;
    proof {
        assert forall|j: int| closes_at(t, p, j) implies j == ci by {
            lemma_close_unique(t, p, j, ci as int);
        }
    }
    let n = tokens.len();
    if ci + 1 < n && matches!(tokens[ci + 1].kind, TokenKind::Arrow) {
        assert(closes_at(t, p, ci as int) && arrow_follows(t, ci as int));
        return true;
    }
    if ci + 1 < n && matches!(tokens[ci + 1].kind, TokenKind::Colon) {
        let mut j = ci + 2;
        while j < tokens.len()
            invariant
                t == tokens@,
                p == paren_idx,
                closes_at(t, p, ci as int),
                forall|q: int| closes_at(t, p, q) ==> q == ci,
                ci + 1 < tokens@.len(),
                t[ci + 1].kind is Colon,
                ci + 2 <= j <= tokens@.len(),
                forall|k: int| ci + 2 <= k < j ==> !stops_return_type(#[trigger] t[k].kind) && !(
                t[k].kind is Arrow),
            decreases tokens@.len() - j,
        {
            match tokens[j].kind {
                TokenKind::Arrow => {
                    assert(arrow_before_stop(t, ci + 2, j as int));
                    assert(closes_at(t, p, ci as int) && arrow_follows(t, ci as int));
                    return true;
                },
                TokenKind::Semicolon | TokenKind::OpenBrace | TokenKind::Return | TokenKind::If
                | TokenKind::While | TokenKind::For => {
                    assert forall|m: int| !#[trigger] arrow_before_stop(t, ci + 2, m) by {
                        if arrow_before_stop(t, ci + 2, m) && m > j {
                            assert(!stops_return_type(t[j as int].kind));
                        }
                    }
                    return false;
                },
                _ => {},
            }
            j += 1;
        }
        assert forall|m: int| !#[trigger] arrow_before_stop(t, ci + 2, m) by {
            if arrow_before_stop(t, ci + 2, m) {
                assert(!(t[m].kind is Arrow));
            }
        }
    }
    false
}

/// The body of an arrow function: a block, or an expression.
pub fn parse_arrow_body(p: &mut Parser) -> (r: (ArrowFunctionBody, usize))
    requires
        old(p).wf(),
    ensures
        old(p).step(*final(p)),
        old(p).spec_peek().kind is OpenBrace ==> r.0 is Block,
        !(old(p).spec_peek().kind is OpenBrace) ==> (r.0 matches ArrowFunctionBody::Expression(e)
            && r.1 == e.spec_span().end),
        !starts_expression(old(p).spec_peek().kind) ==> r.0 == ArrowFunctionBody::Expression(
            Box::new(Expression::Placeholder { span: old(p).spec_peek().span }),
        ) && r.1 == old(p).spec_peek().span.end && *final(p) == *old(p),
        lone_literal(old(p).token_seq(), old(p).pos()) matches Some(x) ==> r.0
            == ArrowFunctionBody::Expression(Box::new(x)) && r.1 == x.spec_span().end,
    decreases old(p).remaining(), 4int,
{
    proof {
        if lone_literal(p.token_seq(), p.pos()) is Some {
            assert(p.peek_index() == p.pos());
        }
    }
    if matches!(p.peek().kind, TokenKind::OpenBrace) {
        let (body, span) = p.parse_block_body();
        (ArrowFunctionBody::Block(body), span.end)
    } else {
        match parse_expression(p, 1) {
            Some(expr) => {
                let end = expr.span().end;
                (ArrowFunctionBody::Expression(expr), end)
            },
            None => {
                let span = p.peek().span;
                (ArrowFunctionBody::Expression(Box::new(Expression::Placeholder { span })), span.end)
            },
        }
    }
}

} // verus!
