//! How a guard narrows a type, and how inferred type parameters are put in
//! place of their names.
use vstd::prelude::*;

use crate::ast::LiteralValue;
use crate::type_checker::ty::{
    field_index, find_field, lemma_field_index, assignable, ty_eq, tys_eq, Type,
};

verus! {

pub open spec fn is_nullish(t: Type) -> bool {
    t is Null || t is Undefined
}

/// A type whose values are all falsy: `null`, `undefined`, `false`, `0`
/// and `""` (numerals in canonical form).
pub open spec fn spec_is_falsy(t: Type) -> bool {
    ||| t is Null
    ||| t is Undefined
    ||| t matches Type::Literal(LiteralValue::Boolean(b)) && !b
    ||| t matches Type::Literal(LiteralValue::Number(n)) && n@ == seq!['0']
    ||| t matches Type::Literal(LiteralValue::String(s)) && s@.len() == 0
}

/// The members of `ts` that are neither `null` nor `undefined`, in order.
pub open spec fn drop_nullish(ts: Seq<Type>) -> Seq<Type>
    decreases ts.len(),
{
    if ts.len() == 0 {
        Seq::empty()
    } else if is_nullish(ts.last()) {
        drop_nullish(ts.drop_last())
    } else {
        drop_nullish(ts.drop_last()).push(ts.last())
    }
}

/// The falsy members of `ts`, in order.
pub open spec fn keep_falsy(ts: Seq<Type>) -> Seq<Type>
    decreases ts.len(),
{
    if ts.len() == 0 {
        Seq::empty()
    } else if spec_is_falsy(ts.last()) {
        keep_falsy(ts.drop_last()).push(ts.last())
    } else {
        keep_falsy(ts.drop_last())
    }
}

/// The members of `ts` that are neither `rm` nor assignable to it.
pub open spec fn drop_removed(ts: Seq<Type>, rm: Type) -> Seq<Type>
    decreases ts.len(),
{
    if ts.len() == 0 {
        Seq::empty()
    } else if ty_eq(ts.last(), rm) || assignable(ts.last(), rm) {
        drop_removed(ts.drop_last(), rm)
    } else {
        drop_removed(ts.drop_last(), rm).push(ts.last())
    }
}

/// `r` is the type made of the members `ms`: `none` when there are none,
/// the member itself when there is one, their union otherwise.
pub open spec fn collapse(ms: Seq<Type>, none: Type, r: Type) -> bool {
    if ms.len() == 0 {
        ty_eq(r, none)
    } else if ms.len() == 1 {
        ty_eq(r, ms[0])
    } else {
        r matches Type::Union(rs) && tys_eq(rs@, ms)
    }
}

/// `r` is `t` with `null` and `undefined` taken out (what `if (x)` leaves).
pub open spec fn truthy(t: Type, r: Type) -> bool {
    match t {
        Type::Union(ts) => collapse(drop_nullish(ts@), t, r),
        Type::Null => r is Never,
        Type::Undefined => r is Never,
        _ => ty_eq(r, t),
    }
}

/// `r` is the falsy part of `t` (what `if (!x)` leaves).
pub open spec fn falsy(t: Type, r: Type) -> bool {
    match t {
        Type::Union(ts) => collapse(keep_falsy(ts@), t, r),
        _ => if spec_is_falsy(t) {
            ty_eq(r, t)
        } else {
            r is Never
        },
    }
}

/// `r` is `t` with `rm` taken out (what `x !== null` leaves).
pub open spec fn removed(t: Type, rm: Type, r: Type) -> bool {
    match t {
        Type::Union(ts) => collapse(drop_removed(ts@, rm), Type::Never, r),
        _ => if ty_eq(t, rm) {
            r is Never
        } else {
            ty_eq(r, t)
        },
    }
}

/// The type `typeof x === value` narrows `x` to, if `value` names one.
pub open spec fn typeof_target(value: Seq<char>) -> Option<Type> {
    if value == "string"@ {
        Some(Type::String)
    } else if value == "number"@ {
        Some(Type::Number)
    } else if value == "boolean"@ {
        Some(Type::Boolean)
    } else if value == "undefined"@ {
        Some(Type::Undefined)
    } else if value == "object"@ {
        Some(Type::Any)
    } else {
        None
    }
}

/// The tag JavaScript's `typeof` gives for a value of a primitive type:
/// `"string"`, `"number"`, `"boolean"` or `"undefined"`.
pub open spec fn js_typeof_tag(t: Type) -> Option<Seq<char>> {
    match t {
        Type::String => Some("string"@),
        Type::Number => Some("number"@),
        Type::Boolean => Some("boolean"@),
        Type::Undefined => Some("undefined"@),
        _ => None,
    }
}

/// A `typeof` guard narrows to the primitive type whose values JavaScript
/// tags with the compared string: for each primitive type, comparing with
/// its tag narrows to it; and a guard that narrows to a primitive type
/// compares with that type's tag.
pub proof fn law_typeof_guard_follows_js_tags(t: Type, tag: Seq<char>)
    ensures
        js_typeof_tag(t) matches Some(g) ==> typeof_target(g) == Some(t),
        typeof_target(tag) matches Some(p) ==> (js_typeof_tag(p) is Some ==> js_typeof_tag(p)
            == Some(tag)),
{
    reveal_strlit("string");
    reveal_strlit("number");
    reveal_strlit("boolean");
    reveal_strlit("undefined");
    reveal_strlit("object");
    assert("number"@ != "string"@) by {
        assert("number"@[0] != "string"@[0]);
    }
    assert("boolean"@ != "string"@ && "boolean"@ != "number"@) by {
        assert("boolean"@.len() != "string"@.len());
    }
    assert("undefined"@ != "string"@ && "undefined"@ != "number"@ && "undefined"@ != "boolean"@) by {
        assert("undefined"@.len() != "string"@.len());
        assert("undefined"@.len() != "boolean"@.len());
    }
    assert("object"@ != "string"@ && "object"@ != "number"@ && "object"@ != "boolean"@
        && "object"@ != "undefined"@) by {
        assert("object"@[0] != "string"@[0]);
        assert("object"@[0] != "number"@[0]);
        assert("object"@.len() != "boolean"@.len());
        assert("object"@.len() != "undefined"@.len());
    }
}

/// `r` is `t` with each type parameter bound in `bs` (the first binding of
/// its name) replaced by its binding, through promises, arrays, sets, maps,
/// tuples, functions and unions.
pub open spec fn substituted(t: Type, bs: Seq<(String, Type)>, r: Type) -> bool
    decreases t,
{
    if bs.len() == 0 {
        ty_eq(r, t)
    } else {
        match t {
            Type::TypeParam(name, _) => {
                let i = field_index(bs, name@);
                if i >= 0 {
                    ty_eq(r, bs[i].1)
                } else {
                    ty_eq(r, t)
                }
            },
            Type::Promise(inner) => r matches Type::Promise(x) && substituted(*inner, bs, *x),
            Type::Array(inner) => r matches Type::Array(x) && substituted(*inner, bs, *x),
            Type::SetType { value } => r matches Type::SetType { value: x } && substituted(
                *value,
                bs,
                *x,
            ),
            Type::MapType { key, value } => r matches Type::MapType { key: k, value: v }
                && substituted(*key, bs, *k) && substituted(*value, bs, *v),
            Type::Tuple(es) => r matches Type::Tuple(xs) && substituted_all(es@, bs, xs@),
            Type::Function { params, return_type } => r matches Type::Function {
                params: ps,
                return_type: rt,
            } && substituted_all(params@, bs, ps@) && substituted(*return_type, bs, *rt),
            Type::Union(ts) => r matches Type::Union(xs) && substituted_all(ts@, bs, xs@),
            _ => ty_eq(r, t),
        }
    }
}

pub open spec fn substituted_all(ts: Seq<Type>, bs: Seq<(String, Type)>, rs: Seq<Type>) -> bool
    decreases ts,
{
    if ts.len() != rs.len() {
        false
    } else if ts.len() == 0 {
        true
    } else {
        substituted_all(ts.drop_last(), bs, rs.drop_last()) && substituted(ts.last(), bs, rs.last())
    }
}

/// Whether every value of `t` is falsy.
pub fn is_falsy_type(t: &Type) -> (r: bool)
    ensures
        r == spec_is_falsy(*t),
{
    proof {
        reveal_strlit("0");
    }
    match t {
        Type::Null | Type::Undefined => true,
        Type::Literal(LiteralValue::Boolean(b)) => !*b,
        Type::Literal(LiteralValue::Number(n)) => {
            let z = crate::text::str_eq(n.as_str(), "0");
            assert("0"@ =~= seq!['0']);
            z
        },
        Type::Literal(LiteralValue::String(s)) => s.as_str().is_empty(),
        _ => false,
    }
}

/// The members of `ts` chosen by `mode`: 0 drops `null`/`undefined`, 1
/// keeps falsy members.
fn filter_members(ts: &Vec<Type>, keep_falsy_only: bool) -> (r: Vec<Type>)
    ensures
        keep_falsy_only ==> tys_eq(r@, keep_falsy(ts@)),
        !keep_falsy_only ==> tys_eq(r@, drop_nullish(ts@)),
{
    let mut r: Vec<Type> = Vec::new();
    let mut i: usize = 0;
    while i < ts.len()
        invariant
            i <= ts.len(),
            keep_falsy_only ==> tys_eq(r@, keep_falsy(ts@.subrange(0, i as int))),
            !keep_falsy_only ==> tys_eq(r@, drop_nullish(ts@.subrange(0, i as int))),
        decreases ts.len() - i,
    {
        let t = &ts[i];
        assert(ts@.subrange(0, i + 1).drop_last() =~= ts@.subrange(0, i as int));
        assert(ts@.subrange(0, i + 1).last() == ts@[i as int]);
        let keep = if keep_falsy_only {
            is_falsy_type(t)
        } else {
            !(matches!(t, Type::Null) || matches!(t, Type::Undefined))
        };
        let ghost spec_before = if keep_falsy_only {
            keep_falsy(ts@.subrange(0, i as int))
        } else {
            drop_nullish(ts@.subrange(0, i as int))
        };
        let ghost spec_after = if keep_falsy_only {
            keep_falsy(ts@.subrange(0, i + 1))
        } else {
            drop_nullish(ts@.subrange(0, i + 1))
        };
        if keep {
            let ghost before = r@;
            let c = t.clone();
            r.push(c);
            assert(r@.drop_last() =~= before);
            assert(spec_after == spec_before.push(ts@[i as int]));
            assert(spec_after.drop_last() =~= spec_before);
            assert(tys_eq(r@, spec_after));
        } else {
            assert(spec_after == spec_before);
        }
        i += 1;
    }
    assert(ts@.subrange(0, i as int) =~= ts@);
    r
}

/// Builds the type made of `ms` (see `collapse`); `none` stands for an
/// empty selection.
fn collapse_members(ms: Vec<Type>, none: &Type) -> (r: Type)
    ensures
        forall|spec_ms: Seq<Type>| tys_eq(ms@, spec_ms) ==> #[trigger] collapse(spec_ms, *none, r),
{
    if ms.len() == 0 {
        none.clone()
    } else if ms.len() == 1 {
        let r = ms[0].clone();
        proof {
            assert forall|spec_ms: Seq<Type>| tys_eq(ms@, spec_ms) implies #[trigger] collapse(
                spec_ms,
                *none,
                r,
            ) by {
                assert(ms@.drop_last().len() == 0);
                crate::type_checker::ty::lemma_ty_eq_trans(r, ms@[0], spec_ms[0]);
            }
        }
        r
    } else {
        let r = Type::Union(ms);
        proof {
            assert forall|spec_ms: Seq<Type>| tys_eq(ms@, spec_ms) implies #[trigger] collapse(
                spec_ms,
                *none,
                r,
            ) by {}
        }
        r
    }
}

/// The members of `ts` that are neither `rm` nor assignable to it.
fn drop_members(ts: &Vec<Type>, rm: &Type) -> (r: Vec<Type>)
    ensures
        tys_eq(r@, drop_removed(ts@, *rm)),
{
    let mut r: Vec<Type> = Vec::new();
    let mut i: usize = 0;
    while i < ts.len()
        invariant
            i <= ts.len(),
            tys_eq(r@, drop_removed(ts@.subrange(0, i as int), *rm)),
        decreases ts.len() - i,
    {
        let t = &ts[i];
        assert(ts@.subrange(0, i + 1).drop_last() =~= ts@.subrange(0, i as int));
        assert(ts@.subrange(0, i + 1).last() == ts@[i as int]);
        let ghost spec_before = drop_removed(ts@.subrange(0, i as int), *rm);
        let ghost spec_after = drop_removed(ts@.subrange(0, i + 1), *rm);
        let gone = crate::type_checker::ty::type_eq(t, rm) || t.is_assignable_to(rm);
        if !gone {
            let ghost before = r@;
            let c = t.clone();
            r.push(c);
            assert(r@.drop_last() =~= before);
            assert(spec_after == spec_before.push(ts@[i as int]));
            assert(spec_after.drop_last() =~= spec_before);
            assert(tys_eq(r@, spec_after));
        } else {
            assert(spec_after == spec_before);
        }
        i += 1;
    }
    assert(ts@.subrange(0, i as int) =~= ts@);
    r
}

/// Applies `substitute_type_params` to each member.
fn substitute_all(ts: &Vec<Type>, bs: &Vec<(String, Type)>) -> (r: Vec<Type>)
    requires
        bs@.len() > 0,
    ensures
        substituted_all(ts@, bs@, r@),
    decreases ts@, 0nat,
{
    let mut r: Vec<Type> = Vec::new();
    let mut i: usize = 0;
    while i < ts.len()
        invariant
            i <= ts.len(),
            bs@.len() > 0,
            substituted_all(ts@.subrange(0, i as int), bs@, r@),
        decreases ts.len() - i,
    {
        let t = substitute_type_params(&ts[i], bs);
        let ghost before = r@;
        r.push(t);
        assert(r@.drop_last() =~= before);
        assert(ts@.subrange(0, i + 1).drop_last() =~= ts@.subrange(0, i as int));
        i += 1;
    }
    assert(ts@.subrange(0, i as int) =~= ts@);
    r
}

/// Puts the types inferred for type parameters in place of their names.
pub fn substitute_type_params(t: &Type, bs: &Vec<(String, Type)>) -> (r: Type)
    ensures
        substituted(*t, bs@, r),
    decreases t, 1nat,
{
    if bs.len() == 0 {
        return t.clone();
    }
    match t {
        Type::TypeParam(name, _) => {
            proof {
                lemma_field_index(bs@, name@);
            }
            match find_field(bs, name) {
                Some(i) => bs[i].1.clone(),
                None => t.clone(),
            }
        },
        Type::Promise(inner) => Type::Promise(Box::new(substitute_type_params(inner, bs))),
        Type::Array(inner) => Type::Array(Box::new(substitute_type_params(inner, bs))),
        Type::SetType { value } => Type::SetType {
            value: Box::new(substitute_type_params(value, bs)),
        },
        Type::MapType { key, value } => Type::MapType {
            key: Box::new(substitute_type_params(key, bs)),
            value: Box::new(substitute_type_params(value, bs)),
        },
        Type::Tuple(es) => Type::Tuple(substitute_all(es, bs)),
        Type::Function { params, return_type } => Type::Function {
            params: substitute_all(params, bs),
            return_type: Box::new(substitute_type_params(return_type, bs)),
        },
        Type::Union(ts) => Type::Union(substitute_all(ts, bs)),
        _ => t.clone(),
    }
}

impl crate::type_checker::TypeChecker {
    /// `t` as `if (x)` leaves it: without `null` and `undefined`.
    pub fn narrow_to_truthy(t: &Type) -> (r: Type)
        ensures
            truthy(*t, r),
    {
        match t {
            Type::Union(ts) => {
                let ms = filter_members(ts, false);
                collapse_members(ms, t)
            },
            Type::Null | Type::Undefined => Type::Never,
            _ => t.clone(),
        }
    }

    /// `t` as `if (!x)` leaves it: only its falsy part.
    pub fn narrow_to_falsy(t: &Type) -> (r: Type)
        ensures
            falsy(*t, r),
    {
        match t {
            Type::Union(ts) => {
                let ms = filter_members(ts, true);
                collapse_members(ms, t)
            },
            _ => {
                if is_falsy_type(t) {
                    t.clone()
                } else {
                    Type::Never
                }
            },
        }
    }

    /// `t` without `rm` (`never` when nothing is left).
    pub fn remove_from_union(t: &Type, rm: &Type) -> (r: Type)
        ensures
            removed(*t, *rm, r),
    {
        match t {
            Type::Union(ts) => {
                let ms = drop_members(ts, rm);
                collapse_members(ms, &Type::Never)
            },
            _ => {
                if crate::type_checker::ty::type_eq(t, rm) {
                    Type::Never
                } else {
                    t.clone()
                }
            },
        }
    }

    /// The narrowing that `typeof name === value` gives, if `value` names a
    /// type.
    pub fn narrow_from_typeof(name: &str, value: &str) -> (r: Option<(String, Type)>)
        ensures
            match typeof_target(value@) {
                Some(t) => r matches Some(p) && p.0@ == name@ && p.1 == t,
                None => r is None,
            },
    {
        let narrowed = if crate::text::str_eq(value, "string") {
            Type::String
        } else if crate::text::str_eq(value, "number") {
            Type::Number
        } else if crate::text::str_eq(value, "boolean") {
            Type::Boolean
        } else if crate::text::str_eq(value, "undefined") {
            Type::Undefined
        } else if crate::text::str_eq(value, "object") {
            Type::Any
        } else {
            return None;
        };
        Some((crate::text::string_of_str(name), narrowed))
    }
}

} // verus!
