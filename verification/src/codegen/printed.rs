//! What the code generator prints for each node of the syntax tree: the
//! JavaScript text of an expression or statement at a given indentation
//! level. Types are erased; an indentation level is two spaces.
use vstd::prelude::*;

use crate::ast::{
    ArrowFunctionBody, CatchClause, ClassField, EnumMember, Expression, ForInit, ImportSpecifier,
    MethodDefinition, MethodKind, ObjectPatternProperty, Parameter, Property, PropertyKey,
    Statement, SwitchCase, TypeAnn, VariableDeclarator, VariableKind, Visibility,
};
use crate::codegen::ops::{spec_assign_op_str, spec_op_str, spec_unary_op_str};
use crate::decl_emit::type_ann_text;

verus! {

/// The leading spaces of a line at indentation level `n`.
pub open spec fn indent_text(n: nat) -> Seq<char>
    decreases n,
{
    if n == 0 {
        Seq::empty()
    } else {
        indent_text((n - 1) as nat) + "  "@
    }
}

/// One level deeper; the level cannot grow past `usize::MAX`.
pub open spec fn deeper(n: nat) -> nat {
    if n < usize::MAX {
        n + 1
    } else {
        n
    }
}

/// `", "` before every item but the first.
pub open spec fn sep(len: nat) -> Seq<char> {
    if len > 1 {
        ", "@
    } else {
        Seq::empty()
    }
}

pub open spec fn keyword_text(k: VariableKind) -> Seq<char> {
    match k {
        VariableKind::Let => "let"@,
        VariableKind::Const => "const"@,
        VariableKind::Var => "var"@,
    }
}

pub open spec fn visibility_text(v: Option<Visibility>) -> Seq<char> {
    match v {
        Some(Visibility::Public) => "public "@,
        Some(Visibility::Private) => "private "@,
        Some(Visibility::Protected) => "protected "@,
        None => ""@,
    }
}

pub open spec fn quoted(s: Seq<char>) -> Seq<char> {
    "\""@ + escaped(s) + (if escape_pending(s) {
        "\\"@
    } else {
        Seq::empty()
    }) + "\""@
}

/// After the text `s`, a backslash is waiting for the character it
/// escapes.
pub open spec fn escape_pending(s: Seq<char>) -> bool
    decreases s.len(),
{
    if s.len() == 0 {
        false
    } else {
        !escape_pending(s.drop_last()) && s.last() == '\\'
    }
}

/// The text `s`, already escaped as source text, with the double quotes
/// that nothing escapes escaped, so that it can stand between double
/// quotes.
pub open spec fn escaped(s: Seq<char>) -> Seq<char>
    decreases s.len(),
{
    if s.len() == 0 {
        Seq::empty()
    } else {
        escaped(s.drop_last()) + (if !escape_pending(s.drop_last()) && s.last() == '"' {
            seq!['\\', '"']
        } else {
            seq![s.last()]
        })
    }
}

/// Binding strength of an expression as the outer side of a parenthesis
/// decision, if it has one.
pub open spec fn outer_precedence(e: Expression) -> Option<int> {
    match e {
        Expression::BinaryExpression { operator, .. } => Some(
            crate::codegen::ops::spec_binary_precedence(operator) as int,
        ),
        Expression::UnaryExpression { .. } => Some(15),
        Expression::CallExpression { .. } => Some(17),
        Expression::MemberExpression { .. } => Some(18),
        Expression::ConditionalExpression { .. } => Some(1),
        Expression::AssignmentExpression { .. } => Some(1),
        _ => None,
    }
}

/// Binding strength of an expression as the inner side.
pub open spec fn inner_precedence(e: Expression) -> Option<int> {
    match e {
        Expression::BinaryExpression { operator, .. } => Some(
            crate::codegen::ops::spec_binary_precedence(operator) as int,
        ),
        Expression::UnaryExpression { .. } => Some(15),
        Expression::ConditionalExpression { .. } => Some(1),
        Expression::AssignmentExpression { .. } => Some(1),
        _ => None,
    }
}

/// Whether `inner`, printed inside `outer`, binds more loosely and must be
/// put in parentheses.
pub open spec fn spec_needs_parens(outer: Expression, inner: Expression) -> bool {
    match (outer_precedence(outer), inner_precedence(inner)) {
        (Some(o), Some(i)) => i < o,
        _ => false,
    }
}

/// Operators that group to the right: `**` and `??`.
pub open spec fn right_assoc(op: crate::ast::BinaryOp) -> bool {
    op is Exp || op is NullishCoalescing
}

/// Whether an operand of a binary expression `outer` needs parentheses:
/// when it binds more loosely, or equally on the side the operator does
/// not group towards (`a - (b - c)`, `(a ** b) ** c`).
pub open spec fn operand_needs_parens(outer: Expression, inner: Expression, right: bool) -> bool {
    ||| spec_needs_parens(outer, inner)
    ||| match (outer, outer_precedence(outer), inner_precedence(inner)) {
        (Expression::BinaryExpression { operator, .. }, Some(o), Some(i)) => i == o && (if right {
            !right_assoc(operator)
        } else {
            right_assoc(operator)
        }),
        _ => false,
    }
}

/// A prefix `-` or `+` before an operand that begins with the same sign
/// is set apart by a space (`- -x`, not `--x`).
pub open spec fn sign_clash(op: crate::ast::UnaryOp, operand: Expression) -> bool {
    match operand {
        Expression::UnaryExpression { operator, .. } => (op is Minus && operator is Minus) || (
        op is Plus && operator is Plus),
        _ => false,
    }
}

/// An increment or decrement is a prefix one when its operator comes
/// before its operand in the source: its span starts before the operand's.
pub open spec fn is_prefix_update(span: crate::token::Span, operand: Expression) -> bool {
    span.start < operand.spec_span().start
}

pub open spec fn parenthesized(b: bool, s: Seq<char>) -> Seq<char> {
    if b {
        "("@ + s + ")"@
    } else {
        s
    }
}

/// One import specifier: `local` or `imported as local`.
pub open spec fn import_item(s: ImportSpecifier) -> Seq<char> {
    match s.imported {
        Some(im) => im@ + " as "@ + s.local@,
        None => s.local@,
    }
}

/// Whether an import specifier is listed: every one, or only the named ones.
pub open spec fn import_listed(s: ImportSpecifier, named_only: bool) -> bool {
    !named_only || !s.is_default
}

pub open spec fn any_listed(ss: Seq<ImportSpecifier>, named_only: bool) -> bool {
    exists|i: int| 0 <= i < ss.len() && import_listed(#[trigger] ss[i], named_only)
}

/// The listed import specifiers, separated by `, `.
pub open spec fn import_items(ss: Seq<ImportSpecifier>, named_only: bool) -> Seq<char>
    decreases ss.len(),
{
    if ss.len() == 0 {
        Seq::empty()
    } else if !import_listed(ss.last(), named_only) {
        import_items(ss.drop_last(), named_only)
    } else {
        import_items(ss.drop_last(), named_only) + (if any_listed(ss.drop_last(), named_only) {
            ", "@
        } else {
            Seq::empty()
        }) + import_item(ss.last())
    }
}

pub open spec fn has_default(ss: Seq<ImportSpecifier>) -> bool {
    exists|i: int| 0 <= i < ss.len() && (#[trigger] ss[i]).is_default
}

/// The local name of the first default import.
pub open spec fn first_default_local(ss: Seq<ImportSpecifier>) -> Seq<char>
    decreases ss.len(),
{
    if ss.len() == 0 {
        Seq::empty()
    } else if ss[0].is_default {
        ss[0].local@
    } else {
        first_default_local(ss.drop_first())
    }
}

/// What stands between `import ` and ` from`.
pub open spec fn import_clause(ss: Seq<ImportSpecifier>) -> Seq<char> {
    let named = any_listed(ss, true);
    if has_default(ss) && !named {
        ss[0].local@
    } else if has_default(ss) && named {
        first_default_local(ss) + ", "@ + "{ "@ + import_items(ss, true) + " }"@
    } else {
        "{ "@ + import_items(ss, false) + " }"@
    }
}

/// How many of the members `ms` have no value.
pub open spec fn unvalued(ms: Seq<EnumMember>) -> nat
    decreases ms.len(),
{
    if ms.len() == 0 {
        0
    } else {
        unvalued(ms.drop_last()) + (if ms.last().value is None {
            1nat
        } else {
            0nat
        })
    }
}

/// One enum member as an object property: `"name": "value"` for a member
/// with a value, `"name": k` for the member that is the `k`-th (from 0)
/// without one.
pub open spec fn enum_member_text(m: EnumMember, k: nat) -> Seq<char> {
    quoted(m.name@) + ": "@ + match m.value {
        Some(v) => quoted(v@),
        None => crate::text::decimal(k),
    }
}

/// The members of an enum object, separated by `, `.
pub open spec fn enum_members_text(ms: Seq<EnumMember>) -> Seq<char>
    decreases ms.len(),
{
    if ms.len() == 0 {
        Seq::empty()
    } else {
        enum_members_text(ms.drop_last()) + sep(ms.len()) + enum_member_text(
            ms.last(),
            unvalued(ms.drop_last()),
        )
    }
}

/// The text of an expression; `ind` is the indentation level of the
/// statement it stands in (it matters for the block body of an arrow
/// function).
pub open spec fn expr_text(e: Expression, ind: nat) -> Seq<char>
    decreases e, 0nat,
{
    match e {
        Expression::NumberLiteral { value, .. } => value@,
        Expression::StringLiteral { value, .. } => quoted(value@),
        Expression::BooleanLiteral { value, .. } => if value {
            "true"@
        } else {
            "false"@
        },
        Expression::NullLiteral { .. } => "null"@,
        Expression::UndefinedLiteral { .. } => "undefined"@,
        Expression::Identifier { name, .. } => name@,
        Expression::ArrayExpression { elements, .. } => "["@ + holes_text(elements@, ind) + "]"@,
        Expression::ObjectExpression { properties, .. } => "{"@ + props_text(properties@, ind)
            + "}"@,
        Expression::BinaryExpression { left, operator, right, .. } => parenthesized(
            operand_needs_parens(e, *left, false),
            expr_text(*left, ind),
        ) + " "@ + spec_op_str(operator) + " "@ + parenthesized(
            operand_needs_parens(e, *right, true),
            expr_text(*right, ind),
        ),
        Expression::UnaryExpression { operator, operand, span } => match operator {
            crate::ast::UnaryOp::PlusPlus => if is_prefix_update(span, *operand) {
                "++"@ + expr_text(*operand, ind)
            } else {
                expr_text(*operand, ind) + "++"@
            },
            crate::ast::UnaryOp::MinusMinus => if is_prefix_update(span, *operand) {
                "--"@ + expr_text(*operand, ind)
            } else {
                expr_text(*operand, ind) + "--"@
            },
            _ => spec_unary_op_str(operator) + (if sign_clash(operator, *operand) {
                " "@
            } else {
                Seq::empty()
            }) + expr_text(*operand, ind),
        },
        Expression::ConditionalExpression { test, consequent, alternate, .. } => expr_text(
            *test,
            ind,
        ) + " ? "@ + expr_text(*consequent, ind) + " : "@ + expr_text(*alternate, ind),
        Expression::CallExpression { callee, arguments, optional, .. } => expr_text(*callee, ind)
            + (if optional {
            "?.("@
        } else {
            "("@
        }) + exprs_text(arguments@, ind) + ")"@,
        Expression::MemberExpression { object, property, computed, optional, .. } => expr_text(
            *object,
            ind,
        ) + if computed {
            (if optional {
                "?.["@
            } else {
                "["@
            }) + expr_text(*property, ind) + "]"@
        } else {
            (if optional {
                "?."@
            } else {
                "."@
            }) + expr_text(*property, ind)
        },
        Expression::AssignmentExpression { left, operator, right, .. } => expr_text(*left, ind)
            + " "@ + spec_assign_op_str(operator) + " "@ + expr_text(*right, ind),
        Expression::ParenthesizedExpression { expression, .. } => "("@ + expr_text(
            *expression,
            ind,
        ) + ")"@,
        Expression::Placeholder { .. } => Seq::empty(),
        Expression::ArrowFunction { params, body, is_async, .. } => async_text(is_async)
            + arrow_params_text(params@, ind) + " => "@ + arrow_body_text(body, ind),
        Expression::TemplateLiteral { quasis, expressions, .. } => "`"@ + template_text(
            quasis@,
            expressions@,
            ind,
        ) + "`"@,
        Expression::NewExpression { callee, arguments, .. } => "new "@ + expr_text(*callee, ind)
            + "("@ + exprs_text(arguments@, ind) + ")"@,
        Expression::SpreadElement { argument, .. } => "..."@ + expr_text(*argument, ind),
        Expression::ThisExpression { .. } => "this"@,
        Expression::SuperExpression { .. } => "super"@,
        Expression::ObjectPattern { properties, .. } => "{"@ + pattern_props_text(
            properties@,
            ind,
        ) + "}"@,
        Expression::ArrayPattern { elements, .. } => "["@ + holes_text(elements@, ind) + "]"@,
        Expression::AwaitExpression { argument, .. } => "await "@ + expr_text(*argument, ind),
        Expression::AsExpression { expression, .. } => expr_text(*expression, ind),
    }
}

/// The parameters of an arrow function: a lone plain parameter as is,
/// otherwise in parentheses.
pub open spec fn arrow_params_text(ps: Seq<Parameter>, ind: nat) -> Seq<char>
    decreases ps, 1nat,
{
    if ps.len() == 1 && ps[0].type_ann is None && ps[0].default_value is None && !ps[0].is_rest {
        ps[0].name@
    } else {
        "("@ + params_text(ps, ind) + ")"@
    }
}

/// The body of an arrow function: an expression, or a block whose
/// statements stand one level deeper.
pub open spec fn arrow_body_text(b: ArrowFunctionBody, ind: nat) -> Seq<char>
    decreases b, 0nat,
{
    match b {
        ArrowFunctionBody::Expression(x) => expr_text(*x, ind),
        ArrowFunctionBody::Block(stmts) => "{\n"@ + stmts_text(stmts@, deeper(ind)) + "}"@,
    }
}

/// Array elements, holes printed as nothing, separated by `, `.
pub open spec fn holes_text(es: Seq<Option<Box<Expression>>>, ind: nat) -> Seq<char>
    decreases es, 0nat,
{
    if es.len() == 0 {
        Seq::empty()
    } else {
        holes_text(es.drop_last(), ind) + sep(es.len()) + match es.last() {
            Some(x) => expr_text(*x, ind),
            None => Seq::empty(),
        }
    }
}

/// Expressions separated by `, `.
pub open spec fn exprs_text(es: Seq<Box<Expression>>, ind: nat) -> Seq<char>
    decreases es, 0nat,
{
    if es.len() == 0 {
        Seq::empty()
    } else {
        exprs_text(es.drop_last(), ind) + sep(es.len()) + expr_text(*es.last(), ind)
    }
}

/// One object literal property.
pub open spec fn prop_text(p: Property, ind: nat) -> Seq<char>
    decreases p, 0nat,
{
    if p.is_spread {
        "..."@ + expr_text(*p.value, ind)
    } else {
        (match p.key {
            PropertyKey::Identifier(n) => if p.shorthand {
                n@
            } else {
                n@ + ": "@
            },
            PropertyKey::String(n) => quoted(n@) + ": "@,
            PropertyKey::Expression(k) => "["@ + expr_text(*k, ind) + "]: "@,
        }) + if p.shorthand {
            Seq::empty()
        } else {
            expr_text(*p.value, ind)
        }
    }
}

/// Object literal properties separated by `, `.
pub open spec fn props_text(ps: Seq<Property>, ind: nat) -> Seq<char>
    decreases ps, 0nat,
{
    if ps.len() == 0 {
        Seq::empty()
    } else {
        props_text(ps.drop_last(), ind) + sep(ps.len()) + prop_text(ps.last(), ind)
    }
}

/// One destructuring pattern property.
pub open spec fn pattern_prop_text(p: ObjectPatternProperty, ind: nat) -> Seq<char>
    decreases p, 0nat,
{
    match p.key {
        PropertyKey::Identifier(n) => if p.shorthand {
            n@
        } else {
            n@ + ": "@ + expr_text(*p.value, ind)
        },
        PropertyKey::String(n) => quoted(n@) + ": "@ + expr_text(*p.value, ind),
        PropertyKey::Expression(k) => "["@ + expr_text(*k, ind) + "]: "@ + expr_text(
            *p.value,
            ind,
        ),
    }
}

/// Destructuring pattern properties separated by `, `.
pub open spec fn pattern_props_text(ps: Seq<ObjectPatternProperty>, ind: nat) -> Seq<char>
    decreases ps, 0nat,
{
    if ps.len() == 0 {
        Seq::empty()
    } else {
        pattern_props_text(ps.drop_last(), ind) + sep(ps.len()) + pattern_prop_text(
            ps.last(),
            ind,
        )
    }
}

/// `prefix` and the expression, if there is one.
pub open spec fn opt_after(prefix: Seq<char>, o: Option<Box<Expression>>, ind: nat) -> Seq<char>
    decreases o, 0nat,
{
    match o {
        Some(x) => prefix + expr_text(*x, ind),
        None => Seq::empty(),
    }
}

pub open spec fn rest_text(is_rest: bool) -> Seq<char> {
    if is_rest {
        "..."@
    } else {
        Seq::empty()
    }
}

pub open spec fn static_text(is_static: bool) -> Seq<char> {
    if is_static {
        "static "@
    } else {
        Seq::empty()
    }
}

/// One parameter: `...` for a rest parameter, the name, `= default`.
pub open spec fn param_text(p: Parameter, ind: nat) -> Seq<char>
    decreases p, 0nat,
{
    rest_text(p.is_rest) + p.name@ + opt_after(" = "@, p.default_value, ind)
}

/// Parameters separated by `, `.
pub open spec fn params_text(ps: Seq<Parameter>, ind: nat) -> Seq<char>
    decreases ps, 0nat,
{
    if ps.len() == 0 {
        Seq::empty()
    } else {
        params_text(ps.drop_last(), ind) + sep(ps.len()) + param_text(ps.last(), ind)
    }
}

/// The inside of a template literal: each text part, then `${expr}` for
/// the expression of the same index, if there is one.
pub open spec fn template_text(qs: Seq<String>, es: Seq<Box<Expression>>, ind: nat) -> Seq<
    char,
>
    decreases es, qs.len(),
{
    if qs.len() == 0 {
        Seq::empty()
    } else {
        let k = qs.len() - 1;
        template_text(qs.drop_last(), es, ind) + qs.last()@ + if k < es.len() {
            "${"@ + expr_text(*es[k], ind) + "}"@
        } else {
            Seq::empty()
        }
    }
}

/// Statements, one after another.
pub open spec fn stmts_text(ss: Seq<Statement>, ind: nat) -> Seq<char>
    decreases ss, 0nat,
{
    if ss.len() == 0 {
        Seq::empty()
    } else {
        stmts_text(ss.drop_last(), ind) + stmt_text(ss.last(), ind)
    }
}

/// One declarator: the target, then `= init`.
pub open spec fn decl_text(d: VariableDeclarator, ind: nat) -> Seq<char>
    decreases d, 0nat,
{
    expr_text(*d.id, ind) + opt_after(" = "@, d.init, ind)
}

/// Declarators separated by `, `.
pub open spec fn decls_text(ds: Seq<VariableDeclarator>, ind: nat) -> Seq<char>
    decreases ds, 0nat,
{
    if ds.len() == 0 {
        Seq::empty()
    } else {
        decls_text(ds.drop_last(), ind) + sep(ds.len()) + decl_text(ds.last(), ind)
    }
}

/// The head line of a switch case.
pub open spec fn case_head(test: Option<Box<Expression>>, ind: nat) -> Seq<char>
    decreases test, 0nat,
{
    match test {
        Some(t) => "case "@ + expr_text(*t, ind) + ":\n"@,
        None => "default:\n"@,
    }
}

/// One switch case at level `ind`, its body one level deeper.
pub open spec fn case_text(c: SwitchCase, ind: nat) -> Seq<char>
    decreases c, 0nat,
{
    indent_text(ind) + case_head(c.test, ind) + stmts_text(c.body@, deeper(ind))
}

/// Switch cases, one after another.
pub open spec fn cases_text(cs: Seq<SwitchCase>, ind: nat) -> Seq<char>
    decreases cs, 0nat,
{
    if cs.len() == 0 {
        Seq::empty()
    } else {
        cases_text(cs.drop_last(), ind) + case_text(cs.last(), ind)
    }
}

/// A class member name as a field is written.
pub open spec fn field_key_text(k: PropertyKey, ind: nat) -> Seq<char>
    decreases k, 0nat,
{
    match k {
        PropertyKey::Identifier(n) => n@,
        PropertyKey::String(n) => quoted(n@),
        PropertyKey::Expression(x) => "["@ + expr_text(*x, ind) + "]"@,
    }
}

/// One class field line.
pub open spec fn field_text(f: ClassField, ind: nat) -> Seq<char>
    decreases f, 0nat,
{
    indent_text(ind) + visibility_text(f.visibility) + static_text(f.is_static) + field_key_text(
        f.key,
        ind,
    ) + opt_after(" = "@, f.init, ind) + ";\n"@
}

/// Class fields, one line each.
pub open spec fn fields_text(fs: Seq<ClassField>, ind: nat) -> Seq<char>
    decreases fs, 0nat,
{
    if fs.len() == 0 {
        Seq::empty()
    } else {
        fields_text(fs.drop_last(), ind) + field_text(fs.last(), ind)
    }
}

/// A class method name and the opening parenthesis of its parameters.
pub open spec fn method_key_text(k: PropertyKey, kind: MethodKind, ind: nat) -> Seq<char>
    decreases k, 0nat,
{
    match k {
        PropertyKey::Identifier(n) => if kind == MethodKind::Constructor {
            "constructor("@
        } else {
            n@ + "("@
        },
        PropertyKey::String(n) => quoted(n@) + "("@,
        PropertyKey::Expression(x) => "["@ + expr_text(*x, ind) + "]("@,
    }
}

/// One class method: head, parameters, then the body statement.
pub open spec fn method_text(m: MethodDefinition, ind: nat) -> Seq<char>
    decreases m, 0nat,
{
    indent_text(ind) + visibility_text(m.visibility) + static_text(m.is_static) + method_key_text(
        m.key,
        m.kind,
        ind,
    ) + params_text(m.params@, ind) + ") "@ + stmt_text(*m.body, ind)
}

/// Class methods, one after another.
pub open spec fn methods_text(ms: Seq<MethodDefinition>, ind: nat) -> Seq<char>
    decreases ms, 0nat,
{
    if ms.len() == 0 {
        Seq::empty()
    } else {
        methods_text(ms.drop_last(), ind) + method_text(ms.last(), ind)
    }
}

/// `else` and the alternative, if there is one.
pub open spec fn else_text(alt: Option<Box<Statement>>, ind: nat) -> Seq<char>
    decreases alt, 0nat,
{
    match alt {
        Some(a) => "else "@ + stmt_text(*a, ind),
        None => Seq::empty(),
    }
}

/// The initializer part of a `for` head.
pub open spec fn for_init_text(init: Option<ForInit>, ind: nat) -> Seq<char>
    decreases init, 0nat,
{
    match init {
        Some(ForInit::Expression(x)) => expr_text(*x, ind),
        Some(ForInit::VariableDeclaration { kind, declarations }) => keyword_text(kind) + " "@
            + decls_text(declarations@, ind),
        None => Seq::empty(),
    }
}

/// The catch clause of a try statement at level `ind`, if there is one;
/// the parameter's type annotation is erased.
pub open spec fn catch_text(h: Option<CatchClause>, ind: nat) -> Seq<char>
    decreases h, 0nat,
{
    match h {
        Some(c) => " catch ("@ + c.param@ + ")"@ + " {\n"@
            + stmts_text(c.body@, deeper(ind)) + indent_text(ind) + "}\n"@,
        None => Seq::empty(),
    }
}

/// The finally clause of a try statement at level `ind`, if there is one.
pub open spec fn finally_text(f: Option<Vec<Statement>>, ind: nat) -> Seq<char>
    decreases f, 0nat,
{
    match f {
        Some(b) => " finally {\n"@ + stmts_text(b@, deeper(ind)) + indent_text(ind) + "}\n"@,
        None => Seq::empty(),
    }
}

/// A `break` or `continue` line.
pub open spec fn jump_text(keyword: Seq<char>, label: Option<String>) -> Seq<char> {
    match label {
        Some(l) => keyword + " "@ + l@ + ";\n"@,
        None => keyword + ";\n"@,
    }
}

pub open spec fn async_text(is_async: bool) -> Seq<char> {
    if is_async {
        "async "@
    } else {
        Seq::empty()
    }
}

/// The text of a statement at indentation level `ind`.
pub open spec fn stmt_text(s: Statement, ind: nat) -> Seq<char>
    decreases s, 0nat,
{
    let pad = indent_text(ind);
    match s {
        Statement::ExpressionStatement { expression, .. } => expr_text(*expression, ind) + ";\n"@,
        Statement::VariableDeclaration { kind, declarations, .. } => keyword_text(kind) + " "@
            + decls_text(declarations@, ind) + ";\n"@,
        Statement::BlockStatement { body, .. } => "{\n"@ + stmts_text(body@, deeper(ind)) + pad
            + "}\n"@,
        Statement::IfStatement { test, consequent, alternate, .. } => pad + "if ("@ + expr_text(
            *test,
            ind,
        ) + ") "@ + stmt_text(*consequent, ind) + else_text(alternate, ind),
        Statement::WhileStatement { test, body, .. } => pad + "while ("@ + expr_text(*test, ind)
            + ") "@ + stmt_text(*body, ind),
        Statement::ForStatement { init, test, update, body, .. } => pad + "for ("@
            + for_init_text(init, ind) + "; "@ + opt_after(""@, test, ind) + "; "@
            + opt_after(""@, update, ind) + ") "@ + stmt_text(*body, ind),
        Statement::ReturnStatement { value, .. } => pad + "return"@ + opt_after(" "@, value, ind)
            + ";\n"@,
        Statement::FunctionDeclaration { name, params, body, is_async, .. } => pad
            + async_text(is_async) + "function "@ + name@ + "("@
            + params_text(params@, ind) + ") "@ + stmt_text(*body, ind),
        Statement::ImportDeclaration { specifiers, source, is_type, .. } => if is_type {
            Seq::empty()
        } else {
            pad + "import "@ + import_clause(specifiers@) + " from "@ + quoted(source@) + ";\n"@
        },
        Statement::TypeAliasDeclaration { .. } => Seq::empty(),
        Statement::InterfaceDeclaration { .. } => Seq::empty(),
        Statement::ExportDeclaration { declaration, .. } => pad + "export "@ + stmt_text(
            *declaration,
            ind,
        ),
        Statement::ForInOfStatement { kind, left, right, body, is_of, .. } => pad + "for ("@
            + keyword_text(kind) + " "@ + left@ + (if is_of {
            " of "@
        } else {
            " in "@
        }) + expr_text(*right, ind) + ") "@ + stmt_text(*body, ind),
        Statement::SwitchStatement { discriminant, cases, .. } => pad + "switch ("@ + expr_text(
            *discriminant,
            ind,
        ) + ") {\n"@ + cases_text(cases@, deeper(ind)) + pad + "}\n"@,
        Statement::ThrowStatement { argument, .. } => pad + "throw "@ + expr_text(*argument, ind)
            + ";\n"@,
        Statement::TryStatement { body, handler, finalizer, .. } => pad + "try \n"@ + stmt_text(
            *body,
            ind,
        ) + catch_text(handler, ind) + finally_text(finalizer, ind),
        Statement::BreakStatement { label, .. } => pad + jump_text("break"@, label),
        Statement::ContinueStatement { label, .. } => pad + jump_text("continue"@, label),
        Statement::LabeledStatement { label, body, .. } => pad + label@ + ": "@ + stmt_text(
            *body,
            ind,
        ),
        Statement::DoWhileStatement { test, body, .. } => pad + "do "@ + stmt_text(*body, ind)
            + "while ("@ + expr_text(*test, ind) + ");\n"@,
        Statement::ClassDeclaration { name, superclass, body, .. } => pad + "class "@ + name@
            + opt_after(" extends "@, superclass, ind) + " {\n"@ + fields_text(
            body.fields@,
            deeper(ind),
        ) + methods_text(body.methods@, deeper(ind)) + pad + "}\n"@,
        Statement::EnumDeclaration { name, members, .. } => pad + "const "@ + name@ + " = {"@
            + enum_members_text(members@) + "};\n"@,
    }
}

/// A member access prints its object and then its accessor: an optional
/// access (and only an optional one) continues with `?.`, a computed one
/// opens `[` right after that, and a computed one closes with `]`. So the
/// printed access is optional and computed exactly as the tree says.
pub proof fn law_member_access_keeps_its_kind(e: Expression, ind: nat)
    requires
        e is MemberExpression,
    ensures
        ({
            let o = expr_text(*e->MemberExpression_object, ind);
            let t = expr_text(e, ind);
            let n = o.len() as int;
            &&& t.len() > n
            &&& t.subrange(0, n) == o
            &&& (t[n] == '?' <==> e->MemberExpression_optional)
            &&& e->MemberExpression_optional ==> t.len() > n + 1 && t[n + 1] == '.'
            &&& e->MemberExpression_computed ==> {
                let k = if e->MemberExpression_optional {
                    n + 2
                } else {
                    n
                };
                &&& t.len() > k
                &&& t[k] == '['
                &&& t.last() == ']'
            }
            &&& !e->MemberExpression_computed ==> {
                let k = if e->MemberExpression_optional {
                    n + 1
                } else {
                    n
                };
                &&& t.len() > k
                &&& t[k] == '.'
            }
        }),
{
    reveal_strlit("?.[");
    reveal_strlit("[");
    reveal_strlit("]");
    reveal_strlit("?.");
    reveal_strlit(".");
    let o = expr_text(*e->MemberExpression_object, ind);
    let t = expr_text(e, ind);
    assert(t.subrange(0, o.len() as int) =~= o);
}

/// A call prints its callee and then opens its arguments: with `?.(` when
/// (and only when) the call is optional, with `(` otherwise, and closes
/// with `)`.
pub proof fn law_call_keeps_its_kind(e: Expression, ind: nat)
    requires
        e is CallExpression,
    ensures
        ({
            let c = expr_text(*e->CallExpression_callee, ind);
            let t = expr_text(e, ind);
            let n = c.len() as int;
            &&& t.len() > n
            &&& t.subrange(0, n) == c
            &&& (t[n] == '?' <==> e->CallExpression_optional)
            &&& e->CallExpression_optional ==> t.len() > n + 2 && t[n + 1] == '.' && t[n + 2]
                == '('
            &&& !e->CallExpression_optional ==> t[n] == '('
            &&& t.last() == ')'
        }),
{
    reveal_strlit("?.(");
    reveal_strlit("(");
    reveal_strlit(")");
    let c = expr_text(*e->CallExpression_callee, ind);
    let t = expr_text(e, ind);
    assert(t.subrange(0, c.len() as int) =~= c);
}

} // verus!
