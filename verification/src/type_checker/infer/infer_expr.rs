//! The type of an expression, and the type guards of `if` conditions.
use vstd::prelude::*;

use crate::ast::{
    ArrowFunctionBody, BinaryOp, Expression, LiteralValue, Parameter, PropertyKey, UnaryOp,
};
use crate::type_checker::env::{keeps_bound, TypeEnv};
use crate::type_checker::error::TypeError;
use crate::type_checker::infer::narrow::substitute_type_params;
use crate::type_checker::infer::rules::{
    argument_count_error, binary_result, binary_type, check_assignable, conditional_type,
    optional_type,
};
use crate::type_checker::ty::{field_index, find_field, ty_eq, tys_eq, type_eq, Type};
use crate::token::Span;
use crate::type_checker::{errors_grow, TypeChecker};

verus! {

/// The type of a literal expression: the literal type of its value,
/// `null` or `undefined`.
pub open spec fn literal_type(e: Expression) -> Option<Type> {
    match e {
        Expression::NumberLiteral { value, .. } => Some(Type::Literal(LiteralValue::Number(value))),
        Expression::StringLiteral { value, .. } => Some(Type::Literal(LiteralValue::String(value))),
        Expression::BooleanLiteral { value, .. } => Some(Type::Literal(LiteralValue::Boolean(value))),
        Expression::NullLiteral { .. } => Some(Type::Null),
        Expression::UndefinedLiteral { .. } => Some(Type::Undefined),
        _ => None,
    }
}

/// The type of an expression built from literals by parentheses, binary
/// operators and assignments, where the type follows from the expression
/// alone.
pub open spec fn simple_type(e: Expression) -> Option<Type>
    decreases e,
{
    match e {
        Expression::ParenthesizedExpression { expression, .. } => simple_type(*expression),
        Expression::AssignmentExpression { right, .. } => simple_type(*right),
        Expression::BinaryExpression { operator, left, right, .. } => match (
            simple_type(*left),
            simple_type(*right),
        ) {
            (Some(lt), Some(rt)) => Some(binary_result(operator, lt, rt)),
            _ => None,
        },
        _ => literal_type(e),
    }
}

/// `ts` with `t` added unless a structurally equal type is among them.
pub open spec fn add_distinct(ts: Seq<Type>, t: Type) -> Seq<Type> {
    if exists|k: int| 0 <= k < ts.len() && ty_eq(#[trigger] ts[k], t) {
        ts
    } else {
        ts.push(t)
    }
}

/// The distinct types of the elements of an array literal, in order of
/// first appearance (holes skipped), when each element has a type that
/// needs no environment.
pub open spec fn element_types(elems: Seq<Option<Box<Expression>>>) -> Option<Seq<Type>>
    decreases elems.len(),
{
    if elems.len() == 0 {
        Some(Seq::empty())
    } else {
        match element_types(elems.drop_last()) {
            Some(ts) => match elems.last() {
                Some(x) => match simple_type(*x) {
                    Some(t) => Some(add_distinct(ts, t)),
                    None => None,
                },
                None => Some(ts),
            },
            None => None,
        }
    }
}

/// `r` is the array type of distinct element types `ts`: `any[]` for
/// none, `T[]` for one, and an array of their union for more.
pub open spec fn is_array_of(r: Type, ts: Seq<Type>) -> bool {
    r matches Type::Array(e) && (if ts.len() == 0 {
        *e == Type::Any
    } else if ts.len() == 1 {
        *e == ts[0]
    } else {
        *e matches Type::Union(v) && v@ == ts
    })
}

/// The type of an identifier: its entry among the narrowed names, else its
/// binding in the environment (both up to structural equality, with no
/// error); an unbound name is `any`, reported as not found.
pub open spec fn identifier_typed(
    narrowed: Seq<(String, Type)>,
    env: TypeEnv,
    name: String,
    span: Span,
    errors_before: Seq<TypeError>,
    errors_after: Seq<TypeError>,
    r: Type,
) -> bool {
    let k = field_index(narrowed, name@);
    if k >= 0 {
        ty_eq(r, narrowed[k].1) && errors_after == errors_before
    } else {
        match env.binding(name@) {
            Some(t) => ty_eq(r, t) && errors_after == errors_before,
            None => r is Any && errors_after == errors_before.push(
                TypeError::CannotFindName(name, span),
            ),
        }
    }
}

/// The type of a unary expression, which depends on its operator alone.
pub open spec fn unary_type(op: UnaryOp, r: Type) -> bool {
    match op {
        UnaryOp::Not => r is Boolean,
        UnaryOp::Delete => r is Boolean,
        UnaryOp::Void => r is Undefined,
        UnaryOp::TypeOf => r matches Type::Literal(LiteralValue::String(s)) && s@ == "string"@,
        _ => r is Number,
    }
}

/// What the type of an expression is, as far as it does not depend on the
/// environment: literals give their literal type, comparisons and logical
/// operators `boolean`, arithmetic `number` (`+` also `string`), templates
/// `string`, and what cannot be inferred `any`.
pub open spec fn infers_simply(e: Expression, r: Type) -> bool {
    match e {
        Expression::NumberLiteral { value, .. } => r matches Type::Literal(
            LiteralValue::Number(v),
        ) && v@ == value@,
        Expression::StringLiteral { value, .. } => r matches Type::Literal(
            LiteralValue::String(v),
        ) && v@ == value@,
        Expression::BooleanLiteral { value, .. } => r == Type::Literal(
            LiteralValue::Boolean(value),
        ),
        Expression::NullLiteral { .. } => r is Null,
        Expression::UndefinedLiteral { .. } => r is Undefined,
        Expression::UnaryExpression { operator, .. } => unary_type(operator, r),
        Expression::BinaryExpression { operator, .. } => match operator {
            BinaryOp::Add => r is Number || r is String,
            BinaryOp::NullishCoalescing => true,
            BinaryOp::Eq | BinaryOp::NotEq | BinaryOp::StrictEq | BinaryOp::StrictNotEq
            | BinaryOp::Lt | BinaryOp::Gt | BinaryOp::LtEq | BinaryOp::GtEq | BinaryOp::LogicalOr
            | BinaryOp::LogicalAnd | BinaryOp::Instanceof => r is Boolean,
            _ => r is Number,
        },
        Expression::TemplateLiteral { .. } => r is String,
        Expression::ArrayExpression { .. } => r is Array,
        Expression::ObjectExpression { .. } => r is Object,
        Expression::Placeholder { .. } => r is Any,
        Expression::NewExpression { .. } => r is Any,
        Expression::SpreadElement { .. } => r is Any,
        Expression::SuperExpression { .. } => r is Any,
        Expression::ObjectPattern { .. } => r is Any,
        Expression::ArrayPattern { .. } => r is Any,
        _ => true,
    }
}


/// `r` is `result`, or for an optional access or call, `result | undefined`.
pub open spec fn optional_of(result: Type, optional: bool, r: Type) -> bool {
    if !optional || result is Undefined {
        r == result
    } else {
        r matches Type::Union(v) && v@ == seq![result, Type::Undefined]
    }
}

/// The key a member access names statically: the string of `o["k"]`, the
/// name of `o.k`.
pub open spec fn member_key(e: Expression) -> Option<Seq<char>> {
    match e {
        Expression::MemberExpression { property, computed, .. } => if computed {
            match *property {
                Expression::StringLiteral { value, .. } => Some(value@),
                _ => None,
            }
        } else {
            match *property {
                Expression::Identifier { name, .. } => Some(name@),
                _ => None,
            }
        },
        _ => None,
    }
}

/// A type that follows from the expression alone is never a function,
/// object, enum or union type.
pub proof fn lemma_simple_type_plain(e: Expression)
    ensures
        simple_type(e) matches Some(t) ==> !(t is Function || t is Object || t is Enum
            || t is Union),
    decreases e,
{
    match e {
        Expression::ParenthesizedExpression { expression, .. } => lemma_simple_type_plain(*expression),
        Expression::AssignmentExpression { right, .. } => lemma_simple_type_plain(*right),
        Expression::BinaryExpression { left, right, .. } => {
            lemma_simple_type_plain(*left);
            lemma_simple_type_plain(*right);
        },
        _ => {},
    }
}

/// The first error a call of a name reports, when the name is bound (and
/// not narrowed): a function type called with another number of arguments
/// than it has parameters reports the mismatch; a primitive or array type
/// reports that the name is not a function.
pub open spec fn call_checked(
    callee: Expression,
    found: nat,
    span: Span,
    narrowed: Seq<(String, Type)>,
    env: TypeEnv,
    before: Seq<TypeError>,
    after: Seq<TypeError>,
) -> bool {
    callee matches Expression::Identifier { name, .. } ==> (field_index(narrowed, name@) < 0 ==> (
    match env.binding(name@) {
        Some(Type::Function { params, .. }) => params@.len() != found ==> (after.len() > before.len()
            && (after[before.len() as int] matches TypeError::ArgumentCountMismatch {
            expected,
            found: f,
            span: sp,
        } && expected == params@.len() && f == found && sp == span)),
        Some(t) => (t is Number || t is String || t is Boolean || t is Null || t is Undefined
            || t is Array) ==> (after.len() > before.len() && (after[before.len() as int] matches TypeError::NotAFunction {
            name: n,
            span: sp,
        } && n@ == name@ && sp == span)),
        None => true,
    }))
}

/// `after` holds, past the first `before.len()` errors, an `ImplicitAny`
/// report for the parameter `p`.
pub open spec fn implicit_any_reported(p: Parameter, before: Seq<TypeError>, after: Seq<TypeError>) -> bool {
    exists|k: int|
        before.len() <= k < after.len() && (#[trigger] after[k] matches TypeError::ImplicitAny {
            name,
            span,
        } && name@ == p.name@ && span == p.span)
}

/// In strict mode, each of the first `n` parameters without an annotation
/// is reported as implicitly `any`.
pub open spec fn implicit_anys_reported(
    params: Seq<Parameter>,
    n: int,
    strict: bool,
    before: Seq<TypeError>,
    after: Seq<TypeError>,
) -> bool {
    strict ==> forall|j: int|
        0 <= j < n && params[j].type_ann is None ==> implicit_any_reported(
            #[trigger] params[j],
            before,
            after,
        )
}

/// A report stays among the errors as more errors are added.
pub proof fn lemma_implicit_anys_kept(
    params: Seq<Parameter>,
    n: int,
    strict: bool,
    a: Seq<TypeError>,
    b: Seq<TypeError>,
    c: Seq<TypeError>,
)
    requires
        implicit_anys_reported(params, n, strict, a, b),
        errors_grow(b, c),
    ensures
        implicit_anys_reported(params, n, strict, a, c),
{
    if strict {
        assert forall|j: int|
            0 <= j < n && params[j].type_ann is None implies implicit_any_reported(
            #[trigger] params[j],
            a,
            c,
        ) by {
            let k = choose|k: int|
                a.len() <= k < b.len() && (#[trigger] b[k] matches TypeError::ImplicitAny {
                    name,
                    span,
                } && name@ == params[j].name@ && span == params[j].span);
            assert(c[k] == b[k]);
        }
    }
}

/// Reports made after `b` are also reports made after any earlier `a`.
pub proof fn lemma_implicit_anys_from(
    params: Seq<Parameter>,
    n: int,
    strict: bool,
    a: Seq<TypeError>,
    b: Seq<TypeError>,
    c: Seq<TypeError>,
)
    requires
        implicit_anys_reported(params, n, strict, b, c),
        a.len() <= b.len(),
    ensures
        implicit_anys_reported(params, n, strict, a, c),
{
    if strict {
        assert forall|j: int|
            0 <= j < n && params[j].type_ann is None implies implicit_any_reported(
            #[trigger] params[j],
            a,
            c,
        ) by {
            let k = choose|k: int|
                b.len() <= k < c.len() && (#[trigger] c[k] matches TypeError::ImplicitAny {
                    name,
                    span,
                } && name@ == params[j].name@ && span == params[j].span);
            assert(c[k] == c[k]);
        }
    }
}

/// What inferring the type of `e` reports, as far as it depends on `e`,
/// the narrowed names and the environment alone: nothing for a literal or
/// an operation on literals, the lookup of a name, the check of a call.
pub open spec fn inference_reported(
    e: Expression,
    narrowed: Seq<(String, Type)>,
    env: TypeEnv,
    before: Seq<TypeError>,
    after: Seq<TypeError>,
) -> bool {
    &&& simple_type(e) is Some ==> after == before
    &&& e matches Expression::Identifier { name, span } ==> exists|r: Type|
        identifier_typed(narrowed, env, name, span, before, after, r)
    &&& e matches Expression::CallExpression { callee, arguments, span, .. } ==> call_checked(
        *callee,
        arguments@.len(),
        span,
        narrowed,
        env,
        before,
        after,
    )
}

impl TypeChecker {
    /// The types of parameters: their annotations, or `any` (reported as
    /// implicit in strict mode).
    pub fn param_types(&mut self, params: &Vec<Parameter>, env: &mut TypeEnv) -> (r: Vec<Type>)
        requires
            old(env).wf(),
        ensures
            final(env).wf(),
            final(env).scopes() == old(env).scopes(),
            errors_grow(old(self).errors@, final(self).errors@),
            old(self).same_setting(*final(self)),
            r@.len() == params@.len(),
            implicit_anys_reported(
                params@,
                params@.len() as int,
                old(self).options.strict == Some(true),
                old(self).errors@,
                final(self).errors@,
            ),
            params@.len() == 0 ==> *final(self) == *old(self) && *final(env) == *old(env),
        decreases params@, 0nat,
    {
        let mut r: Vec<Type> = Vec::new();
        let mut i: usize = 0;
        while i < params.len()
            invariant
                i <= params.len(),
                r@.len() == i,
                env.wf(),
                env.scopes() == old(env).scopes(),
                errors_grow(old(self).errors@, self.errors@),
                old(self).same_setting(*self),
                implicit_anys_reported(
                    params@,
                    i as int,
                    old(self).options.strict == Some(true),
                    old(self).errors@,
                    self.errors@,
                ),
                i == 0 ==> *self == *old(self) && *env == *old(env),
            decreases params.len() - i,
        {
            let ghost before = self.errors@;
            let p = &params[i];
            let t = match &p.type_ann {
                Some(ann) => self.type_ann_to_type(ann, env),
                None => {
                    if self.is_strict() {
                        self.errors.push(
                            TypeError::ImplicitAny { name: p.name.clone(), span: p.span },
                        );
                    }
                    Type::Any
                },
            };
            proof {
                lemma_implicit_anys_kept(
                    params@,
                    i as int,
                    old(self).options.strict == Some(true),
                    old(self).errors@,
                    before,
                    self.errors@,
                );
                if old(self).options.strict == Some(true) && params@[i as int].type_ann is None {
                    let k = before.len() as int;
                    assert(self.errors@[k] matches TypeError::ImplicitAny { name, span } && name@
                        == params@[i as int].name@ && span == params@[i as int].span);
                    assert(implicit_any_reported(params@[i as int], old(self).errors@, self.errors@));
                }
            }
            r.push(t);
            i += 1;
        }
        r
    }

    /// Binds each parameter to its type in the innermost scope; a name bound
    /// twice is reported.
    pub fn declare_params(&mut self, params: &Vec<Parameter>, types: &Vec<Type>, env: &mut TypeEnv)
        requires
            old(env).wf(),
        ensures
            final(env).wf(),
            final(env).depth() == old(env).depth(),
            final(env).scopes().drop_last() == old(env).scopes().drop_last(),
            keeps_bound(*old(env), *final(env)),
            errors_grow(old(self).errors@, final(self).errors@),
            old(self).same_setting(*final(self)),
            forall|j: int|
                0 <= j < params@.len() && j < types@.len() ==> final(env).binds_here(
                    #[trigger] params@[j].name@,
                ),
            params@.len() == 0 || types@.len() == 0 ==> *final(env) == *old(env) && *final(self)
                == *old(self),
    {
        let mut i: usize = 0;
        while i < params.len() && i < types.len()
            invariant
                env.wf(),
                env.depth() == old(env).depth(),
                env.scopes().drop_last() == old(env).scopes().drop_last(),
                keeps_bound(*old(env), *env),
                errors_grow(old(self).errors@, self.errors@),
                old(self).same_setting(*self),
                i <= params@.len(),
                i <= types@.len(),
                forall|j: int| 0 <= j < i && j < types@.len() ==> env.binds_here(#[trigger] params@[j].name@),
                i == 0 ==> *env == *old(env) && *self == *old(self),
            decreases params.len() - i,
        {
            let ghost e0 = *env;
            match env.declare(params[i].name.as_str(), types[i].clone()) {
                Ok(()) => {},
                Err(msg) => self.errors.push(TypeError::DuplicateIdentifier(msg, params[i].span)),
            }
            proof {
                assert forall|j: int| 0 <= j < i + 1 && j < types@.len() implies env.binds_here(
                    #[trigger] params@[j].name@,
                ) by {
                    if j < i {
                        assert(e0.binds_here(params@[j].name@));
                    }
                }
            }
            i += 1;
        }
    }

    /// The type of an identifier: its narrowed type under a guard, else its
    /// binding; an unbound name is reported.
    fn infer_identifier(&mut self, e: &Expression, env: &mut TypeEnv) -> (r: Type)
        requires
            old(env).wf(),
            e is Identifier,
        ensures
            *final(env) == *old(env),
            final(self).narrowed == old(self).narrowed,
            errors_grow(old(self).errors@, final(self).errors@),
            old(self).same_setting(*final(self)),
            *e matches Expression::Identifier { name, span } ==> identifier_typed(
                old(self).narrowed@,
                *old(env),
                name,
                span,
                old(self).errors@,
                final(self).errors@,
                r,
            ),
    {
        match e {
            Expression::Identifier { name, span } => {
                match find_field(&self.narrowed, name) {
                    Some(i) => {
                        return self.narrowed[i].1.clone();
                    },
                    None => {},
                }
                match env.lookup(name.as_str()) {
                    Some(t) => t,
                    None => {
                        self.errors.push(TypeError::CannotFindName(name.clone(), *span));
                        Type::Any
                    },
                }
            },
            _ => Type::Any,
        }
    }

    /// The type of an array literal: an array of the distinct types of its
    /// elements (`any` when there are none).
    #[verifier::loop_isolation(false)]
    fn infer_array(&mut self, e: &Expression, env: &mut TypeEnv) -> (r: Type)
        requires
            old(env).wf(),
            e is ArrayExpression,
        ensures
            final(env).wf(),
            final(env).scopes() == old(env).scopes(),
            errors_grow(old(self).errors@, final(self).errors@),
            old(self).same_setting(*final(self)),
            r is Array,
            e matches Expression::ArrayExpression { elements, .. } ==> (element_types(elements@)
                matches Some(ts) ==> is_array_of(r, ts) && *final(self) == *old(self)),
        decreases e, 1nat,
    {
        match e {
            Expression::ArrayExpression { elements, .. } => {
                let mut elem_types: Vec<Type> = Vec::new();
                let mut i: usize = 0;
                while i < elements.len()
                    invariant
                        i <= elements.len(),
                        env.wf(),
                        env.scopes() == old(env).scopes(),
                        errors_grow(old(self).errors@, self.errors@),
                        old(self).same_setting(*self),
                        element_types(elements@.take(i as int)) matches Some(ts) ==> elem_types@
                            == ts && *self == *old(self),
                    decreases elements.len() - i,
                {
                    let ghost before = elem_types@;
                    proof {
                        assert(elements@.take(i + 1).drop_last() =~= elements@.take(i as int));
                        assert(elements@.take(i + 1).last() == elements@[i as int]);
                    }
                    match &elements[i] {
                        Some(x) => {
                            let t = self.infer_expression(x, env);
                            let mut seen = false;
                            let mut k: usize = 0;
                            while k < elem_types.len() && !seen
                                invariant
                                    k <= elem_types.len(),
                                    seen <==> exists|j: int|
                                        0 <= j < k && ty_eq(#[trigger] elem_types@[j], t),
                                decreases elem_types.len() - k,
                            {
                                seen = type_eq(&elem_types[k], &t);
                                k += 1;
                            }
                            proof {
                                if !seen {
                                    assert(!exists|j: int|
                                        0 <= j < elem_types@.len() && ty_eq(
                                            #[trigger] elem_types@[j],
                                            t,
                                        ));
                                }
                            }
                            if !seen {
                                elem_types.push(t);
                            }
                        },
                        None => {},
                    }
                    i += 1;
                }
                proof {
                    assert(elements@.take(elements@.len() as int) =~= elements@);
                }
                let element_type = if elem_types.len() == 0 {
                    Type::Any
                } else if elem_types.len() == 1 {
                    elem_types.pop().unwrap()
                } else {
                    Type::Union(elem_types)
                };
                Type::Array(Box::new(element_type))
            },
            _ => Type::Array(Box::new(Type::Any)),
        }
    }

    /// The type of an object literal: an object type of its named members
    /// (spread members are inferred but add nothing, computed keys are
    /// skipped).
    #[verifier::loop_isolation(false)]
    fn infer_object(&mut self, e: &Expression, env: &mut TypeEnv) -> (r: Type)
        requires
            old(env).wf(),
            e is ObjectExpression,
        ensures
            final(env).wf(),
            final(env).scopes() == old(env).scopes(),
            errors_grow(old(self).errors@, final(self).errors@),
            old(self).same_setting(*final(self)),
            r is Object,
        decreases e, 1nat,
    {
        match e {
            Expression::ObjectExpression { properties, .. } => {
                let mut fields: Vec<(String, Type)> = Vec::new();
                let mut i: usize = 0;
                while i < properties.len()
                    invariant
                        i <= properties.len(),
                        env.wf(),
                        env.scopes() == old(env).scopes(),
                        errors_grow(old(self).errors@, self.errors@),
                        old(self).same_setting(*self),
                    decreases properties.len() - i,
                {
                    let p = &properties[i];
                    if p.is_spread {
                        self.infer_expression(&p.value, env);
                    } else {
                        let key = match &p.key {
                            PropertyKey::Identifier(n) => Some(n.clone()),
                            PropertyKey::String(n) => Some(n.clone()),
                            PropertyKey::Expression(_) => None,
                        };
                        match key {
                            Some(k) => {
                                let t = self.infer_expression(&p.value, env);
                                fields.push((k, t));
                            },
                            None => {},
                        }
                    }
                    i += 1;
                }
                Type::Object { fields }
            },
            _ => Type::Object { fields: Vec::new() },
        }
    }

    /// The arguments of a call of a function type: each is inferred and
    /// checked against its parameter, a type parameter being bound to the
    /// first argument given for it. Returns the bindings.
    fn check_arguments(
        &mut self,
        params: &Vec<Type>,
        arguments: &Vec<Box<Expression>>,
        env: &mut TypeEnv,
    ) -> (bindings: Vec<(String, Type)>)
        requires
            old(env).wf(),
        ensures
            final(env).wf(),
            final(env).scopes() == old(env).scopes(),
            errors_grow(old(self).errors@, final(self).errors@),
            old(self).same_setting(*final(self)),
            bindings@.len() <= arguments@.len(),
            forall|k1: int, k2: int|
                0 <= k1 < k2 < bindings@.len() ==> (#[trigger] bindings@[k1]).0@ != (
                #[trigger] bindings@[k2]).0@,
            arguments@.len() == 0 ==> bindings@.len() == 0 && *final(self) == *old(self)
                && *final(env) == *old(env),
        decreases arguments@, 0nat,
    {
        let mut bindings: Vec<(String, Type)> = Vec::new();
        let mut resolved: Vec<Type> = Vec::new();
        let mut j: usize = 0;
        while j < params.len()
            invariant
                j <= params.len(),
                resolved@.len() == j,
            decreases params.len() - j,
        {
            resolved.push(params[j].clone());
            j += 1;
        }
        let mut i: usize = 0;
        while i < arguments.len()
            invariant
                i <= arguments.len(),
                resolved@.len() == params@.len(),
                env.wf(),
                env.scopes() == old(env).scopes(),
                errors_grow(old(self).errors@, self.errors@),
                old(self).same_setting(*self),
                bindings@.len() <= i,
                forall|k1: int, k2: int|
                    0 <= k1 < k2 < bindings@.len() ==> (#[trigger] bindings@[k1]).0@ != (
                    #[trigger] bindings@[k2]).0@,
                i == 0 ==> *self == *old(self) && *env == *old(env),
            decreases arguments.len() - i,
        {
            let arg = &arguments[i];
            let arg_type = self.infer_expression(arg, env);
            if i < resolved.len() {
                let bind = match &resolved[i] {
                    Type::TypeParam(name, _) => {
                        if find_field(&bindings, name).is_none() {
                            Some(name.clone())
                        } else {
                            None
                        }
                    },
                    _ => None,
                };
                match bind {
                    Some(name) => {
                        proof {
                            crate::type_checker::ty::lemma_field_index(bindings@, name@);
                        }
                        let ghost bs = bindings@;
                        bindings.push((name, arg_type.clone()));
                        assert forall|k1: int, k2: int|
                            0 <= k1 < k2 < bindings@.len() implies (#[trigger] bindings@[k1]).0@ != (
                            #[trigger] bindings@[k2]).0@ by {
                            if k2 < bs.len() {
                                assert(bindings@[k1] == bs[k1] && bindings@[k2] == bs[k2]);
                            } else {
                                assert(bindings@[k1] == bs[k1]);
                            }
                        }
                        resolved.set(i, arg_type.clone());
                    },
                    None => {},
                }
                match check_assignable(&arg_type, &resolved[i], arg.span()) {
                    Some(e) => self.errors.push(e),
                    None => {},
                }
            }
            i += 1;
        }
        bindings
    }

    /// The type of a call: the return type of a function type with its type
    /// parameters inferred from the arguments; `any` for anything else (a
    /// call of a name of a non-callable type is reported). An optional call
    /// may also give `undefined`.
    #[verifier::loop_isolation(false)]
    fn infer_call(&mut self, e: &Expression, env: &mut TypeEnv) -> (r: Type)
        requires
            old(env).wf(),
            e is CallExpression,
        ensures
            final(env).wf(),
            final(env).scopes() == old(env).scopes(),
            errors_grow(old(self).errors@, final(self).errors@),
            old(self).same_setting(*final(self)),
            *e matches Expression::CallExpression { callee, optional, .. } ==> (simple_type(
                *callee,
            ) is Some ==> optional_of(Type::Any, optional, r)),
            *e matches Expression::CallExpression { callee, arguments, span, .. } ==> (
            call_checked(
                *callee,
                arguments@.len(),
                span,
                old(self).narrowed@,
                *old(env),
                old(self).errors@,
                final(self).errors@,
            )),
        decreases e, 1nat,
    {
        match e {
            Expression::CallExpression { callee, arguments, span, optional } => {
                proof {
                    lemma_simple_type_plain(**callee);
                }
                let callee_type = self.infer_expression(callee, env);
                let ghost n = old(self).errors@.len();
                proof {
                    let ghost cal: Expression = **callee;
                    match cal {
                        Expression::Identifier { name, .. } => {
                            if field_index(old(self).narrowed@, name@) < 0 {
                                match old(env).binding(name@) {
                                    Some(t) => {
                                        assert(ty_eq(callee_type, t));
                                        assert(self.errors@ == old(self).errors@);
                                        match t {
                                            Type::Function { params: p2, .. } => {
                                                assert(callee_type is Function);
                                                assert(tys_eq(callee_type->params@, p2@));
                                                assert(callee_type->params@.len() == p2@.len());
                                            },
                                            _ => {},
                                        }
                                    },
                                    None => {},
                                }
                            }
                        },
                        _ => {},
                    }
                }
                let result = match &callee_type {
                    Type::Function { params, return_type } => {
                        match argument_count_error(params.len(), arguments.len(), *span) {
                            Some(e) => self.errors.push(e),
                            None => {},
                        }
                        let ghost pushed = self.errors@;
                        let bindings = self.check_arguments(params, arguments, env);
                        proof {
                            if pushed.len() > n {
                                assert(self.errors@[n as int] == pushed[n as int]);
                            }
                        }
                        substitute_type_params(return_type, &bindings)
                    },
                    _ => {
                        let non_callable = match &callee_type {
                            Type::Number | Type::String | Type::Boolean | Type::Null
                            | Type::Undefined | Type::Array(_) => true,
                            _ => false,
                        };
                        match &**callee {
                            Expression::Identifier { name, .. } => {
                                if non_callable {
                                    self.errors.push(
                                        TypeError::NotAFunction { name: name.clone(), span: *span },
                                    );
                                }
                            },
                            _ => {},
                        }
                        let ghost pushed = self.errors@;
                        let mut i: usize = 0;
                        while i < arguments.len()
                            invariant
                                i <= arguments.len(),
                                env.wf(),
                                env.scopes() == old(env).scopes(),
                                errors_grow(pushed, self.errors@),
                                errors_grow(old(self).errors@, self.errors@),
                                old(self).same_setting(*self),
                            decreases arguments.len() - i,
                        {
                            self.infer_expression(&arguments[i], env);
                            i += 1;
                        }
                        proof {
                            if pushed.len() > n {
                                assert(self.errors@[n as int] == pushed[n as int]);
                            }
                        }
                        Type::Any
                    },
                };
                optional_type(result, *optional)
            },
            _ => Type::Any,
        }
    }

    /// The type of a member access: the type of the named field of an
    /// object or enum, or of a field that every object of a union has (their
    /// union); `any` otherwise. An optional access may also give `undefined`.
    fn infer_member(&mut self, e: &Expression, env: &mut TypeEnv) -> (r: Type)
        requires
            old(env).wf(),
            e is MemberExpression,
        ensures
            final(env).wf(),
            final(env).scopes() == old(env).scopes(),
            errors_grow(old(self).errors@, final(self).errors@),
            old(self).same_setting(*final(self)),
            *e matches Expression::MemberExpression { object, optional, .. } ==> (
            member_key(*e) is None || simple_type(*object) is Some ==> optional_of(
                Type::Any,
                optional,
                r,
            )),
        decreases e, 1nat,
    {
        match e {
            Expression::MemberExpression { object, property, computed, optional, .. } => {
                proof {
                    lemma_simple_type_plain(**object);
                }
                let obj_type = self.infer_expression(object, env);
                let key: Option<String> = if *computed {
                    match &**property {
                        Expression::StringLiteral { value, .. } => Some(value.clone()),
                        _ => None,
                    }
                } else {
                    match &**property {
                        Expression::Identifier { name, .. } => Some(name.clone()),
                        _ => None,
                    }
                };
                let field_type = match (&obj_type, &key) {
                    (Type::Enum { members, .. }, Some(k)) => match find_field(members, k) {
                        Some(i) => members[i].1.clone(),
                        None => Type::Any,
                    },
                    (Type::Object { fields }, Some(k)) => match find_field(fields, k) {
                        Some(i) => fields[i].1.clone(),
                        None => Type::Any,
                    },
                    (Type::Union(variants), Some(k)) => {
                        let mut field_types: Vec<Type> = Vec::new();
                        let mut i: usize = 0;
                        while i < variants.len()
                            invariant
                                i <= variants.len(),
                                field_types@.len() <= i,
                            decreases variants.len() - i,
                        {
                            match &variants[i] {
                                Type::Object { fields } => match find_field(fields, k) {
                                    Some(j) => field_types.push(fields[j].1.clone()),
                                    None => {},
                                },
                                _ => {},
                            }
                            i += 1;
                        }
                        if field_types.len() == variants.len() {
                            if field_types.len() == 1 {
                                field_types.pop().unwrap()
                            } else {
                                Type::Union(field_types)
                            }
                        } else {
                            Type::Any
                        }
                    },
                    _ => Type::Any,
                };
                optional_type(field_type, *optional)
            },
            _ => Type::Any,
        }
    }

    /// The type of an arrow function: a function type of its parameter and
    /// return annotations. Its body is checked in a scope of its own.
    fn infer_arrow(&mut self, e: &Expression, env: &mut TypeEnv) -> (r: Type)
        requires
            old(env).wf(),
            e is ArrowFunction,
        ensures
            final(env).wf(),
            final(env).scopes() == old(env).scopes(),
            errors_grow(old(self).errors@, final(self).errors@),
            old(self).same_setting(*final(self)),
            r is Function,
        decreases e, 1nat,
    {
        match e {
            Expression::ArrowFunction { params, return_type, body, .. } => {
                let param_types = self.param_types(params, env);
                let ret = match return_type {
                    Some(ann) => self.type_ann_to_type(ann, env),
                    None => Type::Any,
                };
                env.push_scope();
                assert(env.scopes().drop_last() =~= old(env).scopes());
                self.declare_params(params, &param_types, env);
                match body {
                    ArrowFunctionBody::Expression(x) => {
                        self.infer_expression(x, env);
                    },
                    ArrowFunctionBody::Block(stmts) => {
                        self.check_statements(stmts, env);
                    },
                }
                assert(env.depth() > 1);
                env.pop_scope();
                assert(env.scopes() =~= old(env).scopes());
                Type::Function { params: param_types, return_type: Box::new(ret) }
            },
            _ => Type::Function { params: Vec::new(), return_type: Box::new(Type::Any) },
        }
    }

    /// The type of an expression. Inference only reports errors; it never
    /// changes the environment.
    #[verifier::loop_isolation(false)]
    pub fn infer_expression(&mut self, expr: &Expression, env: &mut TypeEnv) -> (r: Type)
        requires
            old(env).wf(),
        ensures
            final(env).wf(),
            final(env).scopes() == old(env).scopes(),
            errors_grow(old(self).errors@, final(self).errors@),
            old(self).same_setting(*final(self)),
            infers_simply(*expr, r),
            simple_type(*expr) matches Some(st) ==> r == st && *final(self) == *old(self),
            *expr is UnaryExpression ==> *final(self) == *old(self) && *final(env) == *old(env),
            *expr matches Expression::ConditionalExpression { consequent, alternate, .. } ==> (
            simple_type(*consequent) matches Some(ct) ==> (simple_type(*alternate) matches Some(
                at,
            ) ==> *final(self) == *old(self) && (ty_eq(ct, at) ==> r == ct) && (!ty_eq(ct, at)
                ==> (r matches Type::Union(v) && v@ == seq![ct, at])))),
            *expr matches Expression::AwaitExpression { argument, .. } ==> (simple_type(
                *argument,
            ) matches Some(at) ==> r == (match at {
                Type::Promise(t) => *t,
                _ => at,
            }) && *final(self) == *old(self)),
            *expr matches Expression::ArrayExpression { elements, .. } ==> (element_types(
                elements@,
            ) matches Some(ts) ==> is_array_of(r, ts) && *final(self) == *old(self)),
            *expr matches Expression::CallExpression { callee, arguments, span, .. } ==> (
            call_checked(
                *callee,
                arguments@.len(),
                span,
                old(self).narrowed@,
                *old(env),
                old(self).errors@,
                final(self).errors@,
            )),
            *expr matches Expression::Identifier { name, span } ==> identifier_typed(
                old(self).narrowed@,
                *old(env),
                name,
                span,
                old(self).errors@,
                final(self).errors@,
                r,
            ),
        decreases expr, 2nat,
    {
        match expr {
            Expression::NumberLiteral { value, .. } => Type::Literal(
                LiteralValue::Number(value.clone()),
            ),
            Expression::StringLiteral { value, .. } => Type::Literal(
                LiteralValue::String(value.clone()),
            ),
            Expression::BooleanLiteral { value, .. } => Type::Literal(LiteralValue::Boolean(*value)),
            Expression::NullLiteral { .. } => Type::Null,
            Expression::UndefinedLiteral { .. } => Type::Undefined,
            Expression::Identifier { .. } => self.infer_identifier(expr, env),
            Expression::BinaryExpression { operator, left, right, .. } => {
                let lt = self.infer_expression(left, env);
                let rt = self.infer_expression(right, env);
                binary_type(*operator, lt, rt)
            },
            Expression::UnaryExpression { operator, .. } => match operator {
                UnaryOp::Not => Type::Boolean,
                UnaryOp::Delete => Type::Boolean,
                UnaryOp::Void => Type::Undefined,
                UnaryOp::TypeOf => Type::Literal(
                    LiteralValue::String(crate::text::string_of_str("string")),
                ),
                _ => Type::Number,
            },
            Expression::ConditionalExpression { consequent, alternate, .. } => {
                let ct = self.infer_expression(consequent, env);
                let at = self.infer_expression(alternate, env);
                conditional_type(ct, at)
            },
            Expression::ArrayExpression { .. } => self.infer_array(expr, env),
            Expression::ObjectExpression { .. } => self.infer_object(expr, env),
            Expression::CallExpression { .. } => self.infer_call(expr, env),
            Expression::MemberExpression { .. } => self.infer_member(expr, env),
            Expression::AssignmentExpression { right, .. } => self.infer_expression(right, env),
            Expression::ParenthesizedExpression { expression, .. } => self.infer_expression(
                expression,
                env,
            ),
            Expression::ArrowFunction { .. } => self.infer_arrow(expr, env),
            Expression::Placeholder { .. } => Type::Any,
            Expression::TemplateLiteral { expressions, .. } => {
                let mut i: usize = 0;
                while i < expressions.len()
                    invariant
                        i <= expressions.len(),
                        env.wf(),
                        env.scopes() == old(env).scopes(),
                        errors_grow(old(self).errors@, self.errors@),
                        old(self).same_setting(*self),
                    decreases expressions.len() - i,
                {
                    self.infer_expression(&expressions[i], env);
                    i += 1;
                }
                Type::String
            },
            Expression::NewExpression { callee, arguments, .. } => {
                self.infer_expression(callee, env);
                let mut i: usize = 0;
                while i < arguments.len()
                    invariant
                        i <= arguments.len(),
                        env.wf(),
                        env.scopes() == old(env).scopes(),
                        errors_grow(old(self).errors@, self.errors@),
                        old(self).same_setting(*self),
                    decreases arguments.len() - i,
                {
                    self.infer_expression(&arguments[i], env);
                    i += 1;
                }
                Type::Any
            },
            Expression::SpreadElement { argument, .. } => {
                self.infer_expression(argument, env);
                Type::Any
            },
            Expression::ThisExpression { .. } => match &self.current_class_type {
                Some(t) => t.clone(),
                None => Type::Any,
            },
            Expression::SuperExpression { .. } => Type::Any,
            Expression::ObjectPattern { .. } => Type::Any,
            Expression::ArrayPattern { .. } => Type::Any,
            Expression::AwaitExpression { argument, .. } => {
                let inner = self.infer_expression(argument, env);
                match inner {
                    Type::Promise(t) => *t,
                    _ => inner,
                }
            },
            Expression::AsExpression { expression, type_ann, .. } => {
                self.infer_expression(expression, env);
                self.type_ann_to_type(type_ann, env)
            },
        }
    }
}

} // verus!
