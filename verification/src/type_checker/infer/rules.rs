//! The rules the checker applies to the types it has found: what an
//! operator gives, when a value is refused where a type is expected, and
//! which type a declared name gets.
use vstd::prelude::*;

use crate::ast::{BinaryOp, LiteralValue};
use crate::token::Span;
use crate::type_checker::error::TypeError;
use crate::type_checker::ty::{assignable, ty_eq, type_eq, type_text, Type};

verus! {

/// A string or a string literal.
pub open spec fn stringy(t: Type) -> bool {
    t is String || t matches Type::Literal(LiteralValue::String(_))
}

/// The type of a binary expression from the types of its operands: `+`
/// gives a string when either side is one, arithmetic and bitwise
/// operators a number, `??` its left side's type, comparisons and logical
/// operators a boolean.
pub open spec fn binary_result(op: BinaryOp, lt: Type, rt: Type) -> Type {
    match op {
        BinaryOp::Add => if stringy(lt) || stringy(rt) {
            Type::String
        } else {
            Type::Number
        },
        BinaryOp::Sub | BinaryOp::Mul | BinaryOp::Div | BinaryOp::Rem | BinaryOp::Exp
        | BinaryOp::BitwiseOr | BinaryOp::BitwiseXor | BinaryOp::BitwiseAnd | BinaryOp::Lsh
        | BinaryOp::Rsh | BinaryOp::ZeroFillRsh => Type::Number,
        BinaryOp::NullishCoalescing => lt,
        _ => Type::Boolean,
    }
}

/// `e` is the refusal of a value of type `value` where `target` is
/// expected, at `span`.
pub open spec fn is_refusal(e: TypeError, value: Type, target: Type, span: Span) -> bool {
    e matches TypeError::NotAssignable { target: t, value: v, span: s } && t@ == type_text(target)
        && v@ == type_text(value) && s == span
}

/// Whether a type is a string or a string literal.
pub fn is_stringy(t: &Type) -> (r: bool)
    ensures
        r == stringy(*t),
{
    match t {
        Type::String => true,
        Type::Literal(LiteralValue::String(_)) => true,
        _ => false,
    }
}

/// The type of a binary expression from the types of its operands.
pub fn binary_type(op: BinaryOp, lt: Type, rt: Type) -> (r: Type)
    ensures
        r == binary_result(op, lt, rt),
{
    match op {
        BinaryOp::Add => {
            if is_stringy(&lt) || is_stringy(&rt) {
                Type::String
            } else {
                Type::Number
            }
        },
        BinaryOp::Sub | BinaryOp::Mul | BinaryOp::Div | BinaryOp::Rem | BinaryOp::Exp
        | BinaryOp::BitwiseOr | BinaryOp::BitwiseXor | BinaryOp::BitwiseAnd | BinaryOp::Lsh
        | BinaryOp::Rsh | BinaryOp::ZeroFillRsh => Type::Number,
        BinaryOp::NullishCoalescing => lt,
        _ => Type::Boolean,
    }
}

/// The type of `c ? a : b` from those of its branches: one of them when
/// they are structurally equal, else their union.
pub fn conditional_type(ct: Type, at: Type) -> (r: Type)
    ensures
        ty_eq(ct, at) ==> r == ct,
        !ty_eq(ct, at) ==> (r matches Type::Union(v) && v@ == seq![ct, at]),
{
    if type_eq(&ct, &at) {
        ct
    } else {
        let mut v = Vec::new();
        v.push(ct);
        v.push(at);
        Type::Union(v)
    }
}

/// The type of an optional call or access: `undefined` is added to the
/// type of the result unless it is `undefined` already.
pub fn optional_type(result: Type, optional: bool) -> (r: Type)
    ensures
        !optional ==> r == result,
        optional && result is Undefined ==> r == result,
        optional && !(result is Undefined) ==> (r matches Type::Union(v) && v@ == seq![
            result,
            Type::Undefined,
        ]),
{
    if !optional || matches!(result, Type::Undefined) {
        result
    } else {
        let mut v = Vec::new();
        v.push(result);
        v.push(Type::Undefined);
        Type::Union(v)
    }
}

/// The refusal of a value of type `value` where `target` is expected, if
/// it is not assignable.
pub fn check_assignable(value: &Type, target: &Type, span: Span) -> (r: Option<TypeError>)
    ensures
        assignable(*value, *target) ==> r is None,
        !assignable(*value, *target) ==> (r matches Some(e) && is_refusal(e, *value, *target, span)),
{
    if value.is_assignable_to(target) {
        None
    } else {
        let target_text = target.to_text();
        let value_text = value.to_text();
        Some(TypeError::NotAssignable { target: target_text, value: value_text, span })
    }
}

/// The refusal of a bare `return` where a type other than `void` or `any`
/// is expected.
pub fn bare_return_error(expected: &Option<Type>, span: Span) -> (r: Option<TypeError>)
    ensures
        match *expected {
            Some(e) => if e is Void || e is Any {
                r is None
            } else {
                r matches Some(TypeError::NotAssignable { target: t, value: v, span: s })
                    && t@ == type_text(e) && v@ == "void"@ && s == span
            },
            None => r is None,
        },
{
    match expected {
        Some(e) => {
            if matches!(e, Type::Void) || matches!(e, Type::Any) {
                None
            } else {
                let target = e.to_text();
                let value = crate::text::string_of_str("void");
                Some(TypeError::NotAssignable { target, value, span })
            }
        },
        None => None,
    }
}

/// The type a declared name gets: its annotation's, else its initializer's,
/// else `any`.
pub fn declared_type(annotated: Option<Type>, inferred: Option<Type>) -> (r: Type)
    ensures
        r == (match annotated {
            Some(t) => t,
            None => match inferred {
                Some(t) => t,
                None => Type::Any,
            },
        }),
{
    match annotated {
        Some(t) => t,
        None => match inferred {
            Some(t) => t,
            None => Type::Any,
        },
    }
}

/// The report of a call with a number of arguments other than the number
/// of parameters.
pub fn argument_count_error(expected: usize, found: usize, span: Span) -> (r: Option<TypeError>)
    ensures
        expected == found ==> r is None,
        expected != found ==> r == Some(
            TypeError::ArgumentCountMismatch { expected, found, span },
        ),
{
    if expected != found {
        Some(TypeError::ArgumentCountMismatch { expected, found, span })
    } else {
        None
    }
}

} // verus!
