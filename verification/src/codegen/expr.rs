//! Printing of expressions.
use vstd::prelude::*;

use crate::ast::{
    ArrowFunctionBody, Expression, ObjectPatternProperty, Parameter, Property, PropertyKey, UnaryOp,
};
use crate::codegen::ops::{assign_op_str, op_str, spec_op_str, unary_op_str};
use crate::codegen::printed::{
    parenthesized, arrow_body_text, arrow_params_text, opt_after, quoted, exprs_text, expr_text, holes_text, param_text, params_text, pattern_prop_text,
    pattern_props_text, prop_text, props_text, template_text,
};
use crate::codegen::{map_grows, operand_parens, Codegen};

verus! {

/// Appends `prefix` and the expression, if there is one.
#[verifier::rlimit(50)]
pub fn gen_opt_after(cg: &mut Codegen, prefix: &str, o: &Option<Box<Expression>>)
    requires
        old(cg).wf(),
    ensures
        final(cg).wf(),
        final(cg).output@ == old(cg).output@ + opt_after(prefix@, *o, old(cg).indent as nat),
        final(cg).indent == old(cg).indent,
        map_grows(old(cg).source_map_of(), final(cg).source_map_of()),
    decreases o, 0nat,
{
    match o {
        Some(x) => {
            cg.emit(prefix);
            gen_expression(cg, x);
        },
        None => {},
    }
}

/// Appends one parameter.
#[verifier::rlimit(50)]
pub fn gen_param(cg: &mut Codegen, p: &Parameter)
    requires
        old(cg).wf(),
    ensures
        final(cg).wf(),
        final(cg).output@ == old(cg).output@ + param_text(*p, old(cg).indent as nat),
        final(cg).indent == old(cg).indent,
        map_grows(old(cg).source_map_of(), final(cg).source_map_of()),
    decreases p, 0nat,
{
    if p.is_rest {
        cg.emit("...");
    }
    cg.emit(p.name.as_str());
    gen_opt_after(cg, " = ", &p.default_value);
}

/// Appends the parameters `ps`, separated by `, `.
#[verifier::rlimit(50)]
pub fn gen_params(cg: &mut Codegen, ps: &Vec<Parameter>)
    requires
        old(cg).wf(),
    ensures
        final(cg).wf(),
        final(cg).output@ == old(cg).output@ + params_text(ps@, old(cg).indent as nat),
        final(cg).indent == old(cg).indent,
        map_grows(old(cg).source_map_of(), final(cg).source_map_of()),
    decreases ps@, 0nat,
{
    let ghost ind = cg.indent as nat;
    let mut i: usize = 0;
    while i < ps.len()
        invariant
            i <= ps.len(),
            cg.wf(),
            cg.output@ == old(cg).output@ + params_text(ps@.subrange(0, i as int), ind),
            cg.indent == old(cg).indent,
            ind == cg.indent as nat,
            map_grows(old(cg).source_map_of(), cg.source_map_of()),
        decreases ps.len() - i,
    {
        if i > 0 {
            cg.emit(", ");
        }
        gen_param(cg, &ps[i]);
        assert(ps@.subrange(0, i + 1).drop_last() =~= ps@.subrange(0, i as int));
        i += 1;
    }
    assert(ps@.subrange(0, ps@.len() as int) =~= ps@);
}

/// Appends the expressions `es`, separated by `, `.
#[verifier::rlimit(50)]
pub fn gen_expressions(cg: &mut Codegen, es: &Vec<Box<Expression>>)
    requires
        old(cg).wf(),
    ensures
        final(cg).wf(),
        final(cg).output@ == old(cg).output@ + exprs_text(es@, old(cg).indent as nat),
        final(cg).indent == old(cg).indent,
        map_grows(old(cg).source_map_of(), final(cg).source_map_of()),
    decreases es@, 0nat,
{
    let ghost ind = cg.indent as nat;
    let mut i: usize = 0;
    while i < es.len()
        invariant
            i <= es.len(),
            cg.wf(),
            cg.output@ == old(cg).output@ + exprs_text(es@.subrange(0, i as int), ind),
            cg.indent == old(cg).indent,
            ind == cg.indent as nat,
            map_grows(old(cg).source_map_of(), cg.source_map_of()),
        decreases es.len() - i,
    {
        if i > 0 {
            cg.emit(", ");
        }
        gen_expression(cg, &es[i]);
        assert(es@.subrange(0, i + 1).drop_last() =~= es@.subrange(0, i as int));
        i += 1;
    }
    assert(es@.subrange(0, es@.len() as int) =~= es@);
}

/// Appends array elements; a hole prints as nothing.
#[verifier::rlimit(50)]
pub fn gen_holes(cg: &mut Codegen, es: &Vec<Option<Box<Expression>>>)
    requires
        old(cg).wf(),
    ensures
        final(cg).wf(),
        final(cg).output@ == old(cg).output@ + holes_text(es@, old(cg).indent as nat),
        final(cg).indent == old(cg).indent,
        map_grows(old(cg).source_map_of(), final(cg).source_map_of()),
    decreases es@, 0nat,
{
    let ghost ind = cg.indent as nat;
    let mut i: usize = 0;
    while i < es.len()
        invariant
            i <= es.len(),
            cg.wf(),
            cg.output@ == old(cg).output@ + holes_text(es@.subrange(0, i as int), ind),
            cg.indent == old(cg).indent,
            ind == cg.indent as nat,
            map_grows(old(cg).source_map_of(), cg.source_map_of()),
        decreases es.len() - i,
    {
        if i > 0 {
            cg.emit(", ");
        }
        match &es[i] {
            Some(x) => gen_expression(cg, x),
            None => {},
        }
        assert(es@.subrange(0, i + 1).drop_last() =~= es@.subrange(0, i as int));
        i += 1;
    }
    assert(es@.subrange(0, es@.len() as int) =~= es@);
}

/// Appends one object literal property.
#[verifier::rlimit(50)]
pub fn gen_prop(cg: &mut Codegen, p: &Property)
    requires
        old(cg).wf(),
    ensures
        final(cg).wf(),
        final(cg).output@ == old(cg).output@ + prop_text(*p, old(cg).indent as nat),
        final(cg).indent == old(cg).indent,
        map_grows(old(cg).source_map_of(), final(cg).source_map_of()),
    decreases p, 0nat,
{
    let ghost ind = cg.indent as nat;
    let ghost o = cg.output@;
    if p.is_spread {
        cg.emit("...");
        gen_expression(cg, &p.value);
        assert(cg.output@ =~= o + ("..."@ + expr_text(*p.value, ind)));
    } else {
        match &p.key {
            PropertyKey::Identifier(n) => {
                cg.emit(n.as_str());
                if !p.shorthand {
                    cg.emit(": ");
                }
            },
            PropertyKey::String(n) => {
                cg.emit_quoted(n.as_str());
                cg.emit(": ");
                assert(cg.output@ =~= o + (quoted(n@) + ": "@));
            },
            PropertyKey::Expression(k) => {
                cg.emit("[");
                gen_expression(cg, k);
                cg.emit("]: ");
                assert(cg.output@ =~= o + ("["@ + expr_text(**k, ind) + "]: "@));
            },
        }
        let ghost o2 = cg.output@;
        if !p.shorthand {
            gen_expression(cg, &p.value);
        }
        assert(cg.output@ =~= o2 + (if p.shorthand {
            Seq::empty()
        } else {
            expr_text(*p.value, ind)
        }));
    }
}

/// Appends object literal properties.
#[verifier::rlimit(50)]
pub fn gen_props(cg: &mut Codegen, ps: &Vec<Property>)
    requires
        old(cg).wf(),
    ensures
        final(cg).wf(),
        final(cg).output@ == old(cg).output@ + props_text(ps@, old(cg).indent as nat),
        final(cg).indent == old(cg).indent,
        map_grows(old(cg).source_map_of(), final(cg).source_map_of()),
    decreases ps@, 0nat,
{
    let ghost ind = cg.indent as nat;
    let mut i: usize = 0;
    while i < ps.len()
        invariant
            i <= ps.len(),
            cg.wf(),
            cg.output@ == old(cg).output@ + props_text(ps@.subrange(0, i as int), ind),
            cg.indent == old(cg).indent,
            ind == cg.indent as nat,
            map_grows(old(cg).source_map_of(), cg.source_map_of()),
        decreases ps.len() - i,
    {
        if i > 0 {
            cg.emit(", ");
        }
        gen_prop(cg, &ps[i]);
        assert(ps@.subrange(0, i + 1).drop_last() =~= ps@.subrange(0, i as int));
        i += 1;
    }
    assert(ps@.subrange(0, ps@.len() as int) =~= ps@);
}

/// Appends one destructuring pattern property.
#[verifier::rlimit(50)]
pub fn gen_pattern_prop(cg: &mut Codegen, p: &ObjectPatternProperty)
    requires
        old(cg).wf(),
    ensures
        final(cg).wf(),
        final(cg).output@ == old(cg).output@ + pattern_prop_text(*p, old(cg).indent as nat),
        final(cg).indent == old(cg).indent,
        map_grows(old(cg).source_map_of(), final(cg).source_map_of()),
    decreases p, 0nat,
{
    let ghost ind = cg.indent as nat;
    let ghost o = cg.output@;
    match &p.key {
        PropertyKey::Identifier(n) => {
            cg.emit(n.as_str());
            if !p.shorthand {
                cg.emit(": ");
                gen_expression(cg, &p.value);
                assert(cg.output@ =~= o + (n@ + ": "@ + expr_text(*p.value, ind)));
            }
        },
        PropertyKey::String(n) => {
            cg.emit_quoted(n.as_str());
            cg.emit(": ");
            gen_expression(cg, &p.value);
            assert(cg.output@ =~= o + (quoted(n@) + ": "@ + expr_text(*p.value, ind)));
        },
        PropertyKey::Expression(k) => {
            cg.emit("[");
            gen_expression(cg, k);
            cg.emit("]: ");
            gen_expression(cg, &p.value);
            assert(cg.output@ =~= o + ("["@ + expr_text(**k, ind) + "]: "@ + expr_text(
                *p.value,
                ind,
            )));
        },
    }
}

/// Appends destructuring pattern properties.
#[verifier::rlimit(50)]
pub fn gen_pattern_props(cg: &mut Codegen, ps: &Vec<ObjectPatternProperty>)
    requires
        old(cg).wf(),
    ensures
        final(cg).wf(),
        final(cg).output@ == old(cg).output@ + pattern_props_text(ps@, old(cg).indent as nat),
        final(cg).indent == old(cg).indent,
        map_grows(old(cg).source_map_of(), final(cg).source_map_of()),
    decreases ps@, 0nat,
{
    let ghost ind = cg.indent as nat;
    let mut i: usize = 0;
    while i < ps.len()
        invariant
            i <= ps.len(),
            cg.wf(),
            cg.output@ == old(cg).output@ + pattern_props_text(ps@.subrange(0, i as int), ind),
            cg.indent == old(cg).indent,
            ind == cg.indent as nat,
            map_grows(old(cg).source_map_of(), cg.source_map_of()),
        decreases ps.len() - i,
    {
        if i > 0 {
            cg.emit(", ");
        }
        gen_pattern_prop(cg, &ps[i]);
        assert(ps@.subrange(0, i + 1).drop_last() =~= ps@.subrange(0, i as int));
        i += 1;
    }
    assert(ps@.subrange(0, ps@.len() as int) =~= ps@);
}

/// Appends the inside of a template literal.
#[verifier::rlimit(50)]
pub fn gen_template(cg: &mut Codegen, qs: &Vec<String>, es: &Vec<Box<Expression>>)
    requires
        old(cg).wf(),
    ensures
        final(cg).wf(),
        final(cg).output@ == old(cg).output@ + template_text(qs@, es@, old(cg).indent as nat),
        final(cg).indent == old(cg).indent,
        map_grows(old(cg).source_map_of(), final(cg).source_map_of()),
    decreases es@, 0nat,
{
    let ghost ind = cg.indent as nat;
    let mut i: usize = 0;
    while i < qs.len()
        invariant
            i <= qs.len(),
            cg.wf(),
            cg.output@ == old(cg).output@ + template_text(qs@.subrange(0, i as int), es@, ind),
            cg.indent == old(cg).indent,
            ind == cg.indent as nat,
            map_grows(old(cg).source_map_of(), cg.source_map_of()),
        decreases qs.len() - i,
    {
        cg.emit(qs[i].as_str());
        if i < es.len() {
            cg.emit("${");
            gen_expression(cg, &es[i]);
            cg.emit("}");
        }
        assert(qs@.subrange(0, i + 1).drop_last() =~= qs@.subrange(0, i as int));
        i += 1;
    }
    assert(qs@.subrange(0, qs@.len() as int) =~= qs@);
}

/// Appends a binary expression, with parentheses around an operand that
/// binds more loosely.
#[verifier::rlimit(50)]
fn gen_binary(cg: &mut Codegen, e: &Expression)
    requires
        old(cg).wf(),
        e is BinaryExpression,
    ensures
        final(cg).wf(),
        final(cg).output@ == old(cg).output@ + expr_text(*e, old(cg).indent as nat),
        final(cg).indent == old(cg).indent,
        map_grows(old(cg).source_map_of(), final(cg).source_map_of()),
    decreases e, 1nat,
{
    match e {
        Expression::BinaryExpression { left, operator, right, .. } => {
            let ghost o = cg.output@;
            let ghost ind = cg.indent as nat;
            let needs_l = operand_parens(e, left, false);
            let needs_r = operand_parens(e, right, true);
            if needs_l {
                cg.emit("(");
            }
            gen_expression(cg, left);
            if needs_l {
                cg.emit(")");
            }
            let ghost lhs = parenthesized(needs_l, expr_text(**left, ind));
            assert(cg.output@ =~= o + lhs);
            let ghost o1 = cg.output@;
            cg.emit(" ");
            cg.emit(op_str(*operator));
            cg.emit(" ");
            let ghost o2 = cg.output@;
            if needs_r {
                cg.emit("(");
            }
            gen_expression(cg, right);
            if needs_r {
                cg.emit(")");
            }
            let ghost rhs = parenthesized(needs_r, expr_text(**right, ind));
            assert(cg.output@ =~= o2 + rhs);
            assert(cg.output@ =~= o + (lhs + " "@ + spec_op_str(*operator) + " "@ + rhs));
        },
        _ => {},
    }
}

/// Appends a unary, conditional or assignment expression.
#[verifier::rlimit(50)]
fn gen_operation(cg: &mut Codegen, e: &Expression)
    requires
        old(cg).wf(),
        e is UnaryExpression || e is ConditionalExpression || e is AssignmentExpression,
    ensures
        final(cg).wf(),
        final(cg).output@ == old(cg).output@ + expr_text(*e, old(cg).indent as nat),
        final(cg).indent == old(cg).indent,
        map_grows(old(cg).source_map_of(), final(cg).source_map_of()),
    decreases e, 1nat,
{
    match e {
        Expression::UnaryExpression { operator, operand, span } => {
            if matches!(operator, UnaryOp::PlusPlus) || matches!(operator, UnaryOp::MinusMinus) {
                if span.start < operand.span().start {
                    cg.emit(unary_op_str(*operator));
                    gen_expression(cg, operand);
                } else {
                    gen_expression(cg, operand);
                    cg.emit(unary_op_str(*operator));
                }
            } else {
                let ghost o = cg.output@;
                cg.emit(unary_op_str(*operator));
                let clash = match &**operand {
                    Expression::UnaryExpression { operator: inner, .. } => (matches!(
                        operator,
                        UnaryOp::Minus
                    ) && matches!(inner, UnaryOp::Minus)) || (matches!(operator, UnaryOp::Plus)
                        && matches!(inner, UnaryOp::Plus)),
                    _ => false,
                };
                if clash {
                    cg.emit(" ");
                }
                let ghost o1 = cg.output@;
                gen_expression(cg, operand);
                assert(cg.output@ =~= o1 + expr_text(**operand, cg.indent as nat));
            }
        },
        Expression::ConditionalExpression { test, consequent, alternate, .. } => {
            gen_expression(cg, test);
            cg.emit(" ? ");
            gen_expression(cg, consequent);
            cg.emit(" : ");
            gen_expression(cg, alternate);
        },
        Expression::AssignmentExpression { left, operator, right, .. } => {
            gen_expression(cg, left);
            cg.emit(" ");
            cg.emit(assign_op_str(*operator));
            cg.emit(" ");
            gen_expression(cg, right);
        },
        _ => {},
    }
}

/// Appends a call, member access, `new`, or an expression with a prefix.
#[verifier::rlimit(50)]
fn gen_access(cg: &mut Codegen, e: &Expression)
    requires
        old(cg).wf(),
        e is CallExpression || e is MemberExpression || e is NewExpression
            || e is ParenthesizedExpression || e is SpreadElement || e is AwaitExpression
            || e is AsExpression,
    ensures
        final(cg).wf(),
        final(cg).output@ == old(cg).output@ + expr_text(*e, old(cg).indent as nat),
        final(cg).indent == old(cg).indent,
        map_grows(old(cg).source_map_of(), final(cg).source_map_of()),
    decreases e, 1nat,
{
    match e {
        Expression::CallExpression { callee, arguments, optional, .. } => {
            gen_expression(cg, callee);
            if *optional {
                cg.emit("?.(");
            } else {
                cg.emit("(");
            }
            gen_expressions(cg, arguments);
            cg.emit(")");
        },
        Expression::MemberExpression { object, property, computed, optional, .. } => {
            gen_expression(cg, object);
            if *computed {
                if *optional {
                    cg.emit("?.[");
                } else {
                    cg.emit("[");
                }
                gen_expression(cg, property);
                cg.emit("]");
            } else {
                if *optional {
                    cg.emit("?.");
                } else {
                    cg.emit(".");
                }
                gen_expression(cg, property);
            }
        },
        Expression::NewExpression { callee, arguments, .. } => {
            cg.emit("new ");
            gen_expression(cg, callee);
            cg.emit("(");
            gen_expressions(cg, arguments);
            cg.emit(")");
        },
        Expression::ParenthesizedExpression { expression, .. } => {
            cg.emit("(");
            gen_expression(cg, expression);
            cg.emit(")");
        },
        Expression::SpreadElement { argument, .. } => {
            cg.emit("...");
            gen_expression(cg, argument);
        },
        Expression::AwaitExpression { argument, .. } => {
            cg.emit("await ");
            gen_expression(cg, argument);
        },
        Expression::AsExpression { expression, .. } => gen_expression(cg, expression),
        _ => {},
    }
}

/// Appends the parameters of an arrow function.
#[verifier::rlimit(50)]
fn gen_arrow_params(cg: &mut Codegen, ps: &Vec<Parameter>)
    requires
        old(cg).wf(),
    ensures
        final(cg).wf(),
        final(cg).output@ == old(cg).output@ + arrow_params_text(ps@, old(cg).indent as nat),
        final(cg).indent == old(cg).indent,
        map_grows(old(cg).source_map_of(), final(cg).source_map_of()),
    decreases ps@, 1nat,
{
    if ps.len() == 1 && ps[0].type_ann.is_none() && ps[0].default_value.is_none()
        && !ps[0].is_rest {
        cg.emit(ps[0].name.as_str());
    } else {
        cg.emit("(");
        gen_params(cg, ps);
        cg.emit(")");
    }
}

/// Appends the body of an arrow function.
#[verifier::rlimit(50)]
fn gen_arrow_body(cg: &mut Codegen, b: &ArrowFunctionBody)
    requires
        old(cg).wf(),
    ensures
        final(cg).wf(),
        final(cg).output@ == old(cg).output@ + arrow_body_text(*b, old(cg).indent as nat),
        final(cg).indent == old(cg).indent,
        map_grows(old(cg).source_map_of(), final(cg).source_map_of()),
    decreases b, 0nat,
{
    match b {
        ArrowFunctionBody::Expression(x) => gen_expression(cg, x),
        ArrowFunctionBody::Block(stmts) => {
            cg.emit("{\n");
            cg.gen_nested(stmts);
            cg.emit("}");
        },
    }
}

/// Appends an arrow function.
#[verifier::rlimit(50)]
fn gen_arrow(cg: &mut Codegen, e: &Expression)
    requires
        old(cg).wf(),
        e is ArrowFunction,
    ensures
        final(cg).wf(),
        final(cg).output@ == old(cg).output@ + expr_text(*e, old(cg).indent as nat),
        final(cg).indent == old(cg).indent,
        map_grows(old(cg).source_map_of(), final(cg).source_map_of()),
    decreases e, 1nat,
{
    match e {
        Expression::ArrowFunction { params, body, is_async, .. } => {
            if *is_async {
                cg.emit("async ");
            }
            gen_arrow_params(cg, params);
            cg.emit(" => ");
            gen_arrow_body(cg, body);
        },
        _ => {},
    }
}

/// Appends the text of an expression.
#[verifier::rlimit(50)]
pub fn gen_expression(cg: &mut Codegen, e: &Expression)
    requires
        old(cg).wf(),
    ensures
        final(cg).wf(),
        final(cg).output@ == old(cg).output@ + expr_text(*e, old(cg).indent as nat),
        final(cg).indent == old(cg).indent,
        map_grows(old(cg).source_map_of(), final(cg).source_map_of()),
    decreases e, 2nat,
{
    match e {
        Expression::NumberLiteral { value, .. } => cg.emit(value.as_str()),
        Expression::StringLiteral { value, .. } => {
            cg.emit_quoted(value.as_str());
        },
        Expression::BooleanLiteral { value, .. } => {
            if *value {
                cg.emit("true");
            } else {
                cg.emit("false");
            }
        },
        Expression::NullLiteral { .. } => cg.emit("null"),
        Expression::UndefinedLiteral { .. } => cg.emit("undefined"),
        Expression::Identifier { name, .. } => cg.emit(name.as_str()),
        Expression::ThisExpression { .. } => cg.emit("this"),
        Expression::SuperExpression { .. } => cg.emit("super"),
        Expression::Placeholder { .. } => {},
        Expression::ArrayExpression { elements, .. } => {
            cg.emit("[");
            gen_holes(cg, elements);
            cg.emit("]");
        },
        Expression::ArrayPattern { elements, .. } => {
            cg.emit("[");
            gen_holes(cg, elements);
            cg.emit("]");
        },
        Expression::ObjectExpression { properties, .. } => {
            cg.emit("{");
            gen_props(cg, properties);
            cg.emit("}");
        },
        Expression::ObjectPattern { properties, .. } => {
            cg.emit("{");
            gen_pattern_props(cg, properties);
            cg.emit("}");
        },
        Expression::TemplateLiteral { quasis, expressions, .. } => {
            cg.emit("`");
            gen_template(cg, quasis, expressions);
            cg.emit("`");
        },
        Expression::ArrowFunction { .. } => gen_arrow(cg, e),
        Expression::BinaryExpression { .. } => gen_binary(cg, e),
        Expression::UnaryExpression { .. } => gen_operation(cg, e),
        Expression::ConditionalExpression { .. } => gen_operation(cg, e),
        Expression::AssignmentExpression { .. } => gen_operation(cg, e),
        _ => gen_access(cg, e),
    }
}

} // verus!
