//! Types as the checker sees them, with structural equality, assignability,
//! conversion from annotations, and how a type is written.
use vstd::prelude::*;

use crate::ast::{LiteralValue, ObjectTypeProperty, TypeAnn};
use crate::text::str_eq;

verus! {

#[derive(Debug, PartialEq)]
pub enum Type {
    Number,
    String,
    Boolean,
    Null,
    Undefined,
    Void,
    Any,
    Unknown,
    Never,
    Literal(LiteralValue),
    Union(Vec<Type>),
    Array(Box<Type>),
    Function { params: Vec<Type>, return_type: Box<Type> },
    Object { fields: Vec<(String, Type)> },
    TypeParam(String, Option<Box<Type>>),
    Promise(Box<Type>),
    MapType { key: Box<Type>, value: Box<Type> },
    SetType { value: Box<Type> },
    Tuple(Vec<Type>),
    Enum { name: String, members: Vec<(String, Type)> },
}

// ── Equality ─────────────────────────────────────────────────────────────
/// Two literal values are the same literal.
pub open spec fn lit_eq(a: LiteralValue, b: LiteralValue) -> bool {
    match (a, b) {
        (LiteralValue::String(x), LiteralValue::String(y)) => x@ == y@,
        (LiteralValue::Number(x), LiteralValue::Number(y)) => x@ == y@,
        (LiteralValue::Boolean(x), LiteralValue::Boolean(y)) => x == y,
        _ => false,
    }
}

/// Structural equality of types: same shape, same names, same literals.
pub open spec fn ty_eq(a: Type, b: Type) -> bool
    decreases a,
{
    match (a, b) {
        (Type::Number, Type::Number) => true,
        (Type::String, Type::String) => true,
        (Type::Boolean, Type::Boolean) => true,
        (Type::Null, Type::Null) => true,
        (Type::Undefined, Type::Undefined) => true,
        (Type::Void, Type::Void) => true,
        (Type::Any, Type::Any) => true,
        (Type::Unknown, Type::Unknown) => true,
        (Type::Never, Type::Never) => true,
        (Type::Literal(x), Type::Literal(y)) => lit_eq(x, y),
        (Type::Union(xs), Type::Union(ys)) => tys_eq(xs@, ys@),
        (Type::Array(x), Type::Array(y)) => ty_eq(*x, *y),
        (
            Type::Function { params: p1, return_type: r1 },
            Type::Function { params: p2, return_type: r2 },
        ) => tys_eq(p1@, p2@) && ty_eq(*r1, *r2),
        (Type::Object { fields: f1 }, Type::Object { fields: f2 }) => named_eq(f1@, f2@),
        (Type::TypeParam(n1, c1), Type::TypeParam(n2, c2)) => n1@ == n2@ && match (c1, c2) {
            (Some(x), Some(y)) => ty_eq(*x, *y),
            (None, None) => true,
            _ => false,
        },
        (Type::Promise(x), Type::Promise(y)) => ty_eq(*x, *y),
        (Type::MapType { key: k1, value: v1 }, Type::MapType { key: k2, value: v2 }) => ty_eq(*k1, *k2)
            && ty_eq(*v1, *v2),
        (Type::SetType { value: v1 }, Type::SetType { value: v2 }) => ty_eq(*v1, *v2),
        (Type::Tuple(xs), Type::Tuple(ys)) => tys_eq(xs@, ys@),
        (Type::Enum { name: n1, members: m1 }, Type::Enum { name: n2, members: m2 }) => n1@ == n2@
            && named_eq(m1@, m2@),
        _ => false,
    }
}

/// Element-wise structural equality of type lists.
pub open spec fn tys_eq(xs: Seq<Type>, ys: Seq<Type>) -> bool
    decreases xs,
{
    if xs.len() != ys.len() {
        false
    } else if xs.len() == 0 {
        true
    } else {
        tys_eq(xs.drop_last(), ys.drop_last()) && ty_eq(xs.last(), ys.last())
    }
}

/// Element-wise equality of named type lists (object fields, enum members).
pub open spec fn named_eq(xs: Seq<(String, Type)>, ys: Seq<(String, Type)>) -> bool
    decreases xs,
{
    if xs.len() != ys.len() {
        false
    } else if xs.len() == 0 {
        true
    } else {
        named_eq(xs.drop_last(), ys.drop_last()) && xs.last().0@ == ys.last().0@ && ty_eq(
            xs.last().1,
            ys.last().1,
        )
    }
}

/// Every type is structurally equal to itself.
pub proof fn lemma_ty_eq_refl(a: Type)
    ensures
        ty_eq(a, a),
    decreases a,
{
    match a {
        Type::Union(xs) => lemma_tys_eq_refl(xs@),
        Type::Array(x) => lemma_ty_eq_refl(*x),
        Type::Function { params, return_type } => {
            lemma_tys_eq_refl(params@);
            lemma_ty_eq_refl(*return_type);
        },
        Type::Object { fields } => lemma_named_eq_refl(fields@),
        Type::TypeParam(_, c) => {
            match c {
                Some(x) => lemma_ty_eq_refl(*x),
                None => {},
            }
        },
        Type::Promise(x) => lemma_ty_eq_refl(*x),
        Type::MapType { key, value } => {
            lemma_ty_eq_refl(*key);
            lemma_ty_eq_refl(*value);
        },
        Type::SetType { value } => lemma_ty_eq_refl(*value),
        Type::Tuple(xs) => lemma_tys_eq_refl(xs@),
        Type::Enum { members, .. } => lemma_named_eq_refl(members@),
        _ => {},
    }
}

pub proof fn lemma_tys_eq_refl(xs: Seq<Type>)
    ensures
        tys_eq(xs, xs),
    decreases xs,
{
    if xs.len() > 0 {
        lemma_tys_eq_refl(xs.drop_last());
        lemma_ty_eq_refl(xs.last());
    }
}

pub proof fn lemma_named_eq_refl(xs: Seq<(String, Type)>)
    ensures
        named_eq(xs, xs),
    decreases xs,
{
    if xs.len() > 0 {
        lemma_named_eq_refl(xs.drop_last());
        lemma_ty_eq_refl(xs.last().1);
    }
}

/// Structural equality is symmetric and transitive.
pub proof fn lemma_ty_eq_trans(a: Type, b: Type, c: Type)
    ensures
        ty_eq(a, b) ==> ty_eq(b, a),
        ty_eq(a, b) && ty_eq(b, c) ==> ty_eq(a, c),
    decreases a,
{
    match (a, b, c) {
        (Type::Union(xs), Type::Union(ys), Type::Union(zs)) => lemma_tys_eq_trans(xs@, ys@, zs@),
        (Type::Union(xs), Type::Union(ys), _) => lemma_tys_eq_trans(xs@, ys@, ys@),
        (Type::Tuple(xs), Type::Tuple(ys), Type::Tuple(zs)) => lemma_tys_eq_trans(xs@, ys@, zs@),
        (Type::Tuple(xs), Type::Tuple(ys), _) => lemma_tys_eq_trans(xs@, ys@, ys@),
        (Type::Array(x), Type::Array(y), Type::Array(z)) => lemma_ty_eq_trans(*x, *y, *z),
        (Type::Array(x), Type::Array(y), _) => lemma_ty_eq_trans(*x, *y, *y),
        (Type::Promise(x), Type::Promise(y), Type::Promise(z)) => lemma_ty_eq_trans(*x, *y, *z),
        (Type::Promise(x), Type::Promise(y), _) => lemma_ty_eq_trans(*x, *y, *y),
        (Type::SetType { value: x }, Type::SetType { value: y }, Type::SetType { value: z }) => {
            lemma_ty_eq_trans(*x, *y, *z)
        },
        (Type::SetType { value: x }, Type::SetType { value: y }, _) => lemma_ty_eq_trans(*x, *y, *y),
        (
            Type::MapType { key: k1, value: v1 },
            Type::MapType { key: k2, value: v2 },
            Type::MapType { key: k3, value: v3 },
        ) => {
            lemma_ty_eq_trans(*k1, *k2, *k3);
            lemma_ty_eq_trans(*v1, *v2, *v3);
        },
        (Type::MapType { key: k1, value: v1 }, Type::MapType { key: k2, value: v2 }, _) => {
            lemma_ty_eq_trans(*k1, *k2, *k2);
            lemma_ty_eq_trans(*v1, *v2, *v2);
        },
        (
            Type::Function { params: p1, return_type: r1 },
            Type::Function { params: p2, return_type: r2 },
            Type::Function { params: p3, return_type: r3 },
        ) => {
            lemma_tys_eq_trans(p1@, p2@, p3@);
            lemma_ty_eq_trans(*r1, *r2, *r3);
        },
        (
            Type::Function { params: p1, return_type: r1 },
            Type::Function { params: p2, return_type: r2 },
            _,
        ) => {
            lemma_tys_eq_trans(p1@, p2@, p2@);
            lemma_ty_eq_trans(*r1, *r2, *r2);
        },
        (Type::Object { fields: f1 }, Type::Object { fields: f2 }, Type::Object { fields: f3 }) => {
            lemma_named_eq_trans(f1@, f2@, f3@)
        },
        (Type::Object { fields: f1 }, Type::Object { fields: f2 }, _) => lemma_named_eq_trans(
            f1@,
            f2@,
            f2@,
        ),
        (
            Type::Enum { members: f1, .. },
            Type::Enum { members: f2, .. },
            Type::Enum { members: f3, .. },
        ) => lemma_named_eq_trans(f1@, f2@, f3@),
        (Type::Enum { members: f1, .. }, Type::Enum { members: f2, .. }, _) => lemma_named_eq_trans(
            f1@,
            f2@,
            f2@,
        ),
        (Type::TypeParam(_, c1), Type::TypeParam(_, c2), Type::TypeParam(_, c3)) => {
            match (c1, c2, c3) {
                (Some(x), Some(y), Some(z)) => lemma_ty_eq_trans(*x, *y, *z),
                (Some(x), Some(y), _) => lemma_ty_eq_trans(*x, *y, *y),
                _ => {},
            }
        },
        (Type::TypeParam(_, c1), Type::TypeParam(_, c2), _) => {
            match (c1, c2) {
                (Some(x), Some(y)) => lemma_ty_eq_trans(*x, *y, *y),
                _ => {},
            }
        },
        _ => {},
    }
}

pub proof fn lemma_tys_eq_trans(xs: Seq<Type>, ys: Seq<Type>, zs: Seq<Type>)
    ensures
        tys_eq(xs, ys) ==> tys_eq(ys, xs),
        tys_eq(xs, ys) && tys_eq(ys, zs) ==> tys_eq(xs, zs),
    decreases xs,
{
    if xs.len() > 0 && xs.len() == ys.len() {
        if ys.len() == zs.len() {
            lemma_tys_eq_trans(xs.drop_last(), ys.drop_last(), zs.drop_last());
            lemma_ty_eq_trans(xs.last(), ys.last(), zs.last());
        } else {
            lemma_tys_eq_trans(xs.drop_last(), ys.drop_last(), ys.drop_last());
            lemma_ty_eq_trans(xs.last(), ys.last(), ys.last());
        }
    }
}

pub proof fn lemma_named_eq_trans(
    xs: Seq<(String, Type)>,
    ys: Seq<(String, Type)>,
    zs: Seq<(String, Type)>,
)
    ensures
        named_eq(xs, ys) ==> named_eq(ys, xs),
        named_eq(xs, ys) && named_eq(ys, zs) ==> named_eq(xs, zs),
    decreases xs,
{
    if xs.len() > 0 && xs.len() == ys.len() {
        if ys.len() == zs.len() {
            lemma_named_eq_trans(xs.drop_last(), ys.drop_last(), zs.drop_last());
            lemma_ty_eq_trans(xs.last().1, ys.last().1, zs.last().1);
        } else {
            lemma_named_eq_trans(xs.drop_last(), ys.drop_last(), ys.drop_last());
            lemma_ty_eq_trans(xs.last().1, ys.last().1, ys.last().1);
        }
    }
}

pub fn literal_eq(a: &LiteralValue, b: &LiteralValue) -> (r: bool)
    ensures
        r == lit_eq(*a, *b),
{
    match (a, b) {
        (LiteralValue::String(x), LiteralValue::String(y)) => *x == *y,
        (LiteralValue::Number(x), LiteralValue::Number(y)) => *x == *y,
        (LiteralValue::Boolean(x), LiteralValue::Boolean(y)) => *x == *y,
        _ => false,
    }
}

/// A copy of a literal value.
pub fn copy_literal(v: &LiteralValue) -> (r: LiteralValue)
    ensures
        r == *v,
{
    match v {
        LiteralValue::String(s) => LiteralValue::String(s.clone()),
        LiteralValue::Number(s) => LiteralValue::Number(s.clone()),
        LiteralValue::Boolean(b) => LiteralValue::Boolean(*b),
    }
}

fn types_eq(xs: &Vec<Type>, ys: &Vec<Type>) -> (r: bool)
    ensures
        r == tys_eq(xs@, ys@),
    decreases xs@, 0nat,
{
    if xs.len() != ys.len() {
        return false;
    }
    let mut i: usize = 0;
    let mut same = true;
    while i < xs.len() && same
        invariant
            i <= xs.len() == ys.len(),
            same == tys_eq(xs@.subrange(0, i as int), ys@.subrange(0, i as int)),
        decreases xs.len() - i,
    {
        same = type_eq(&xs[i], &ys[i]);
        assert(xs@.subrange(0, i + 1).drop_last() =~= xs@.subrange(0, i as int));
        assert(ys@.subrange(0, i + 1).drop_last() =~= ys@.subrange(0, i as int));
        proof {
            if same {
                assert(tys_eq(xs@.subrange(0, i as int), ys@.subrange(0, i as int)));
            }
        }
        i += 1;
    }
    proof {
        if !same && tys_eq(xs@, ys@) {
            lemma_tys_eq_prefix(xs@, ys@, i as int);
        } else if same {
            assert(xs@.subrange(0, i as int) =~= xs@);
            assert(ys@.subrange(0, i as int) =~= ys@);
        }
    }
    same
}

/// Equal lists have equal prefixes.
proof fn lemma_tys_eq_prefix(xs: Seq<Type>, ys: Seq<Type>, j: int)
    requires
        0 <= j <= xs.len() == ys.len(),
        tys_eq(xs, ys),
    ensures
        tys_eq(xs.subrange(0, j), ys.subrange(0, j)),
    decreases xs.len() - j,
{
    if j < xs.len() {
        lemma_tys_eq_prefix(xs, ys, j + 1);
        assert(xs.subrange(0, j + 1).drop_last() =~= xs.subrange(0, j));
        assert(ys.subrange(0, j + 1).drop_last() =~= ys.subrange(0, j));
    } else {
        assert(xs.subrange(0, j) =~= xs);
        assert(ys.subrange(0, j) =~= ys);
    }
}

proof fn lemma_named_eq_prefix(xs: Seq<(String, Type)>, ys: Seq<(String, Type)>, j: int)
    requires
        0 <= j <= xs.len() == ys.len(),
        named_eq(xs, ys),
    ensures
        named_eq(xs.subrange(0, j), ys.subrange(0, j)),
    decreases xs.len() - j,
{
    if j < xs.len() {
        lemma_named_eq_prefix(xs, ys, j + 1);
        assert(xs.subrange(0, j + 1).drop_last() =~= xs.subrange(0, j));
        assert(ys.subrange(0, j + 1).drop_last() =~= ys.subrange(0, j));
    } else {
        assert(xs.subrange(0, j) =~= xs);
        assert(ys.subrange(0, j) =~= ys);
    }
}

fn named_types_eq(xs: &Vec<(String, Type)>, ys: &Vec<(String, Type)>) -> (r: bool)
    ensures
        r == named_eq(xs@, ys@),
    decreases xs@, 0nat,
{
    if xs.len() != ys.len() {
        return false;
    }
    let mut i: usize = 0;
    let mut same = true;
    while i < xs.len() && same
        invariant
            i <= xs.len() == ys.len(),
            same == named_eq(xs@.subrange(0, i as int), ys@.subrange(0, i as int)),
        decreases xs.len() - i,
    {
        same = xs[i].0 == ys[i].0 && type_eq(&xs[i].1, &ys[i].1);
        assert(xs@.subrange(0, i + 1).drop_last() =~= xs@.subrange(0, i as int));
        assert(ys@.subrange(0, i + 1).drop_last() =~= ys@.subrange(0, i as int));
        proof {
            if same {
                assert(named_eq(xs@.subrange(0, i as int), ys@.subrange(0, i as int)));
            }
        }
        i += 1;
    }
    proof {
        if !same && named_eq(xs@, ys@) {
            lemma_named_eq_prefix(xs@, ys@, i as int);
        } else if same {
            assert(xs@.subrange(0, i as int) =~= xs@);
            assert(ys@.subrange(0, i as int) =~= ys@);
        }
    }
    same
}

/// Structural equality of two types.
pub fn type_eq(a: &Type, b: &Type) -> (r: bool)
    ensures
        r == ty_eq(*a, *b),
    decreases a, 1nat,
{
    match (a, b) {
        (Type::Number, Type::Number) => true,
        (Type::String, Type::String) => true,
        (Type::Boolean, Type::Boolean) => true,
        (Type::Null, Type::Null) => true,
        (Type::Undefined, Type::Undefined) => true,
        (Type::Void, Type::Void) => true,
        (Type::Any, Type::Any) => true,
        (Type::Unknown, Type::Unknown) => true,
        (Type::Never, Type::Never) => true,
        (Type::Literal(x), Type::Literal(y)) => literal_eq(x, y),
        (Type::Union(xs), Type::Union(ys)) => types_eq(xs, ys),
        (Type::Array(x), Type::Array(y)) => type_eq(x, y),
        (
            Type::Function { params: p1, return_type: r1 },
            Type::Function { params: p2, return_type: r2 },
        ) => types_eq(p1, p2) && type_eq(r1, r2),
        (Type::Object { fields: f1 }, Type::Object { fields: f2 }) => named_types_eq(f1, f2),
        (Type::TypeParam(n1, c1), Type::TypeParam(n2, c2)) => *n1 == *n2 && match (c1, c2) {
            (Some(x), Some(y)) => type_eq(x, y),
            (None, None) => true,
            _ => false,
        },
        (Type::Promise(x), Type::Promise(y)) => type_eq(x, y),
        (Type::MapType { key: k1, value: v1 }, Type::MapType { key: k2, value: v2 }) => type_eq(k1, k2)
            && type_eq(v1, v2),
        (Type::SetType { value: v1 }, Type::SetType { value: v2 }) => type_eq(v1, v2),
        (Type::Tuple(xs), Type::Tuple(ys)) => types_eq(xs, ys),
        (Type::Enum { name: n1, members: m1 }, Type::Enum { name: n2, members: m2 }) => *n1 == *n2
            && named_types_eq(m1, m2),
        _ => false,
    }
}

// ── Copies ───────────────────────────────────────────────────────────────
fn copy_types(xs: &Vec<Type>) -> (r: Vec<Type>)
    ensures
        tys_eq(r@, xs@),
    decreases xs@, 0nat,
{
    let mut r: Vec<Type> = Vec::new();
    let mut i: usize = 0;
    while i < xs.len()
        invariant
            i <= xs.len(),
            r@.len() == i,
            tys_eq(r@, xs@.subrange(0, i as int)),
        decreases xs.len() - i,
    {
        let t = xs[i].dup();
        let ghost before = r@;
        r.push(t);
        assert(r@.drop_last() =~= before);
        assert(xs@.subrange(0, i + 1).drop_last() =~= xs@.subrange(0, i as int));
        i += 1;
    }
    assert(xs@.subrange(0, i as int) =~= xs@);
    r
}

fn copy_named(xs: &Vec<(String, Type)>) -> (r: Vec<(String, Type)>)
    ensures
        named_eq(r@, xs@),
    decreases xs@, 0nat,
{
    let mut r: Vec<(String, Type)> = Vec::new();
    let mut i: usize = 0;
    while i < xs.len()
        invariant
            i <= xs.len(),
            r@.len() == i,
            named_eq(r@, xs@.subrange(0, i as int)),
        decreases xs.len() - i,
    {
        let t = xs[i].1.dup();
        let ghost before = r@;
        r.push((xs[i].0.clone(), t));
        assert(r@.drop_last() =~= before);
        assert(xs@.subrange(0, i + 1).drop_last() =~= xs@.subrange(0, i as int));
        i += 1;
    }
    assert(xs@.subrange(0, i as int) =~= xs@);
    r
}

impl Type {
    /// A structurally equal copy.
    pub fn dup(&self) -> (r: Type)
        ensures
            ty_eq(r, *self),
        decreases self, 1nat,
    {
        match self {
            Type::Number => Type::Number,
            Type::String => Type::String,
            Type::Boolean => Type::Boolean,
            Type::Null => Type::Null,
            Type::Undefined => Type::Undefined,
            Type::Void => Type::Void,
            Type::Any => Type::Any,
            Type::Unknown => Type::Unknown,
            Type::Never => Type::Never,
            Type::Literal(v) => Type::Literal(copy_literal(v)),
            Type::Union(xs) => Type::Union(copy_types(xs)),
            Type::Array(x) => Type::Array(Box::new(x.dup())),
            Type::Function { params, return_type } => Type::Function {
                params: copy_types(params),
                return_type: Box::new(return_type.dup()),
            },
            Type::Object { fields } => Type::Object { fields: copy_named(fields) },
            Type::TypeParam(n, c) => Type::TypeParam(
                n.clone(),
                match c {
                    Some(x) => Some(Box::new(x.dup())),
                    None => None,
                },
            ),
            Type::Promise(x) => Type::Promise(Box::new(x.dup())),
            Type::MapType { key, value } => Type::MapType {
                key: Box::new(key.dup()),
                value: Box::new(value.dup()),
            },
            Type::SetType { value } => Type::SetType { value: Box::new(value.dup()) },
            Type::Tuple(xs) => Type::Tuple(copy_types(xs)),
            Type::Enum { name, members } => Type::Enum {
                name: name.clone(),
                members: copy_named(members),
            },
        }
    }
}

impl Clone for Type {
    fn clone(&self) -> (r: Self)
        ensures
            ty_eq(r, *self),
    {
        self.dup()
    }
}

// ── Primitive base types ─────────────────────────────────────────────────
/// A literal type's primitive base; any other type itself.
pub open spec fn spec_primitive(t: Type) -> Type {
    match t {
        Type::Literal(LiteralValue::Number(_)) => Type::Number,
        Type::Literal(LiteralValue::String(_)) => Type::String,
        Type::Literal(LiteralValue::Boolean(_)) => Type::Boolean,
        _ => t,
    }
}

// ── Assignability ────────────────────────────────────────────────────────
/// Index of the first entry named `name`, or -1.
pub open spec fn field_index(fs: Seq<(String, Type)>, name: Seq<char>) -> int
    decreases fs.len(),
{
    if fs.len() == 0 {
        -1
    } else if fs[0].0@ == name {
        0
    } else {
        let r = field_index(fs.drop_first(), name);
        if r < 0 {
            -1
        } else {
            r + 1
        }
    }
}

pub proof fn lemma_field_index(fs: Seq<(String, Type)>, name: Seq<char>)
    ensures
        -1 <= field_index(fs, name) < fs.len(),
        field_index(fs, name) >= 0 ==> fs[field_index(fs, name)].0@ == name,
        field_index(fs, name) >= 0 ==> forall|j: int|
            0 <= j < field_index(fs, name) ==> (#[trigger] fs[j]).0@ != name,
        field_index(fs, name) < 0 ==> forall|j: int| 0 <= j < fs.len() ==> (#[trigger] fs[j]).0@ != name,
    decreases fs.len(),
{
    if fs.len() > 0 && fs[0].0@ != name {
        lemma_field_index(fs.drop_first(), name);
        assert forall|j: int| 1 <= j < fs.len() implies fs[j] == fs.drop_first()[j - 1] by {}
    }
}

/// Whether a value of type `a` may be used where `b` is expected.
pub open spec fn assignable(a: Type, b: Type) -> bool
    decreases a, b,
{
    if a is Any || b is Any || a is Never || b is Unknown || ty_eq(a, b) {
        true
    } else {
        match (a, b) {
            (Type::Literal(LiteralValue::Number(_)), Type::Number) => true,
            (Type::Literal(LiteralValue::String(_)), Type::String) => true,
            (Type::Literal(LiteralValue::Boolean(_)), Type::Boolean) => true,
            (Type::Union(ts), _) => all_assignable(ts@, b),
            (_, Type::Union(ts)) => any_assignable(a, ts@),
            (Type::Array(x), Type::Array(y)) => assignable(*x, *y),
            (Type::Object { fields: fa }, Type::Object { fields: fb }) => fields_assignable(
                fa@,
                fb@,
            ),
            (Type::Null, Type::Undefined) => true,
            (Type::Undefined, Type::Null) => true,
            (Type::Null, Type::Void) => true,
            (Type::Undefined, Type::Void) => true,
            (Type::Promise(x), Type::Promise(y)) => assignable(*x, *y),
            (Type::MapType { key: ka, value: va }, Type::MapType { key: kb, value: vb }) => assignable(
                *ka,
                *kb,
            ) && assignable(*va, *vb),
            (Type::SetType { value: va }, Type::SetType { value: vb }) => assignable(*va, *vb),
            (Type::Tuple(xs), Type::Tuple(ys)) => xs@.len() == ys@.len() && pairwise_assignable(
                xs@,
                ys@,
            ),
            (Type::Enum { members: ma, .. }, Type::Enum { members: mb, .. }) => fields_assignable(
                ma@,
                mb@,
            ),
            _ => false,
        }
    }
}

/// Every member of `ts` is assignable to `b`.
pub open spec fn all_assignable(ts: Seq<Type>, b: Type) -> bool
    decreases ts, b,
{
    if ts.len() == 0 {
        true
    } else {
        all_assignable(ts.drop_last(), b) && assignable(ts.last(), b)
    }
}

/// `a` is assignable to some member of `ts`.
pub open spec fn any_assignable(a: Type, ts: Seq<Type>) -> bool
    decreases a, ts,
{
    if ts.len() == 0 {
        false
    } else {
        any_assignable(a, ts.drop_last()) || assignable(a, ts.last())
    }
}

/// Element-wise assignability of lists of the same length.
pub open spec fn pairwise_assignable(xs: Seq<Type>, ys: Seq<Type>) -> bool
    decreases xs, ys,
{
    if xs.len() == 0 || ys.len() == 0 {
        true
    } else {
        pairwise_assignable(xs.drop_last(), ys.drop_last()) && assignable(xs.last(), ys.last())
    }
}

/// Every entry of `fb` has a first namesake in `fa` whose type is assignable
/// to it (structural typing of objects and enums).
pub open spec fn fields_assignable(fa: Seq<(String, Type)>, fb: Seq<(String, Type)>) -> bool
    decreases fa, fb,
{
    if fb.len() == 0 {
        true
    } else {
        let i = field_index(fa, fb.last().0@);
        proof {
            lemma_field_index(fa, fb.last().0@);
        }
        fields_assignable(fa, fb.drop_last()) && i >= 0 && assignable(fa[i].1, fb.last().1)
    }
}

proof fn lemma_all_prefix(ts: Seq<Type>, b: Type, j: int)
    requires
        0 <= j <= ts.len(),
        all_assignable(ts, b),
    ensures
        all_assignable(ts.subrange(0, j), b),
    decreases ts.len() - j,
{
    if j < ts.len() {
        lemma_all_prefix(ts, b, j + 1);
        assert(ts.subrange(0, j + 1).drop_last() =~= ts.subrange(0, j));
    } else {
        assert(ts.subrange(0, j) =~= ts);
    }
}

proof fn lemma_any_prefix(a: Type, ts: Seq<Type>, j: int)
    requires
        0 <= j <= ts.len(),
        any_assignable(a, ts.subrange(0, j)),
    ensures
        any_assignable(a, ts),
    decreases ts.len() - j,
{
    if j < ts.len() {
        assert(ts.subrange(0, j + 1).drop_last() =~= ts.subrange(0, j));
        lemma_any_prefix(a, ts, j + 1);
    } else {
        assert(ts.subrange(0, j) =~= ts);
    }
}

proof fn lemma_pairwise_prefix(xs: Seq<Type>, ys: Seq<Type>, j: int)
    requires
        0 <= j <= xs.len() == ys.len(),
        pairwise_assignable(xs, ys),
    ensures
        pairwise_assignable(xs.subrange(0, j), ys.subrange(0, j)),
    decreases xs.len() - j,
{
    if j < xs.len() {
        lemma_pairwise_prefix(xs, ys, j + 1);
        assert(xs.subrange(0, j + 1).drop_last() =~= xs.subrange(0, j));
        assert(ys.subrange(0, j + 1).drop_last() =~= ys.subrange(0, j));
    } else {
        assert(xs.subrange(0, j) =~= xs);
        assert(ys.subrange(0, j) =~= ys);
    }
}

proof fn lemma_fields_prefix(fa: Seq<(String, Type)>, fb: Seq<(String, Type)>, j: int)
    requires
        0 <= j <= fb.len(),
        fields_assignable(fa, fb),
    ensures
        fields_assignable(fa, fb.subrange(0, j)),
    decreases fb.len() - j,
{
    if j < fb.len() {
        lemma_fields_prefix(fa, fb, j + 1);
        assert(fb.subrange(0, j + 1).drop_last() =~= fb.subrange(0, j));
    } else {
        assert(fb.subrange(0, j) =~= fb);
    }
}

/// Index of the first entry named `name`, if there is one.
pub fn find_field(fs: &Vec<(String, Type)>, name: &String) -> (r: Option<usize>)
    ensures
        match r {
            Some(i) => i as int == field_index(fs@, name@) && i < fs@.len(),
            None => field_index(fs@, name@) < 0,
        },
{
    proof {
        lemma_field_index(fs@, name@);
    }
    let mut i: usize = 0;
    while i < fs.len()
        invariant
            i <= fs.len(),
            forall|j: int| 0 <= j < i ==> (#[trigger] fs@[j]).0@ != name@,
            -1 <= field_index(fs@, name@) < fs@.len(),
            field_index(fs@, name@) >= 0 ==> fs@[field_index(fs@, name@)].0@ == name@,
            field_index(fs@, name@) >= 0 ==> forall|j: int|
                0 <= j < field_index(fs@, name@) ==> (#[trigger] fs@[j]).0@ != name@,
            field_index(fs@, name@) < 0 ==> forall|j: int|
                0 <= j < fs@.len() ==> (#[trigger] fs@[j]).0@ != name@,
        decreases fs.len() - i,
    {
        if fs[i].0 == *name {
            return Some(i);
        }
        i += 1;
    }
    None
}

fn all_assignable_exec(ts: &Vec<Type>, b: &Type) -> (r: bool)
    ensures
        r == all_assignable(ts@, *b),
    decreases ts@, b,
{
    let mut i: usize = 0;
    let mut ok = true;
    while i < ts.len() && ok
        invariant
            i <= ts.len(),
            ok == all_assignable(ts@.subrange(0, i as int), *b),
        decreases ts.len() - i,
    {
        ok = ts[i].is_assignable_to(b);
        assert(ts@.subrange(0, i + 1).drop_last() =~= ts@.subrange(0, i as int));
        proof {
            if ok {
                assert(all_assignable(ts@.subrange(0, i as int), *b));
            }
        }
        i += 1;
    }
    proof {
        if !ok && all_assignable(ts@, *b) {
            lemma_all_prefix(ts@, *b, i as int);
        } else if ok {
            assert(ts@.subrange(0, i as int) =~= ts@);
        }
    }
    ok
}

fn any_assignable_exec(a: &Type, ts: &Vec<Type>) -> (r: bool)
    ensures
        r == any_assignable(*a, ts@),
    decreases a, ts@,
{
    let mut i: usize = 0;
    let mut found = false;
    while i < ts.len() && !found
        invariant
            i <= ts.len(),
            found == any_assignable(*a, ts@.subrange(0, i as int)),
        decreases ts.len() - i,
    {
        found = a.is_assignable_to(&ts[i]);
        assert(ts@.subrange(0, i + 1).drop_last() =~= ts@.subrange(0, i as int));
        proof {
            if !found {
                assert(!any_assignable(*a, ts@.subrange(0, i as int)));
            }
        }
        i += 1;
    }
    proof {
        if found {
            lemma_any_prefix(*a, ts@, i as int);
        } else {
            assert(ts@.subrange(0, i as int) =~= ts@);
        }
    }
    found
}

fn pairwise_assignable_exec(xs: &Vec<Type>, ys: &Vec<Type>) -> (r: bool)
    requires
        xs@.len() == ys@.len(),
    ensures
        r == pairwise_assignable(xs@, ys@),
    decreases xs@, ys@,
{
    let mut i: usize = 0;
    let mut ok = true;
    while i < xs.len() && ok
        invariant
            i <= xs.len() == ys.len(),
            ok == pairwise_assignable(xs@.subrange(0, i as int), ys@.subrange(0, i as int)),
        decreases xs.len() - i,
    {
        ok = xs[i].is_assignable_to(&ys[i]);
        assert(xs@.subrange(0, i + 1).drop_last() =~= xs@.subrange(0, i as int));
        assert(ys@.subrange(0, i + 1).drop_last() =~= ys@.subrange(0, i as int));
        proof {
            if ok {
                assert(pairwise_assignable(xs@.subrange(0, i as int), ys@.subrange(0, i as int)));
            }
        }
        i += 1;
    }
    proof {
        if !ok && pairwise_assignable(xs@, ys@) {
            lemma_pairwise_prefix(xs@, ys@, i as int);
        } else if ok {
            assert(xs@.subrange(0, i as int) =~= xs@);
            assert(ys@.subrange(0, i as int) =~= ys@);
        }
    }
    ok
}

fn fields_assignable_exec(fa: &Vec<(String, Type)>, fb: &Vec<(String, Type)>) -> (r: bool)
    ensures
        r == fields_assignable(fa@, fb@),
    decreases fa@, fb@,
{
    let mut i: usize = 0;
    let mut ok = true;
    while i < fb.len() && ok
        invariant
            i <= fb.len(),
            ok == fields_assignable(fa@, fb@.subrange(0, i as int)),
        decreases fb.len() - i,
    {
        proof {
            lemma_field_index(fa@, fb@[i as int].0@);
        }
        ok = match find_field(fa, &fb[i].0) {
            Some(k) => fa[k].1.is_assignable_to(&fb[i].1),
            None => false,
        };
        assert(fb@.subrange(0, i + 1).drop_last() =~= fb@.subrange(0, i as int));
        proof {
            if ok {
                assert(fields_assignable(fa@, fb@.subrange(0, i as int)));
            }
        }
        i += 1;
    }
    proof {
        if !ok && fields_assignable(fa@, fb@) {
            lemma_fields_prefix(fa@, fb@, i as int);
        } else if ok {
            assert(fb@.subrange(0, i as int) =~= fb@);
        }
    }
    ok
}

impl Type {
    /// The primitive base of a literal type (`42` → `number`); any other
    /// type unchanged.
    pub fn primitive(&self) -> (r: Type)
        ensures
            ty_eq(r, spec_primitive(*self)),
    {
        match self {
            Type::Literal(LiteralValue::Number(_)) => Type::Number,
            Type::Literal(LiteralValue::String(_)) => Type::String,
            Type::Literal(LiteralValue::Boolean(_)) => Type::Boolean,
            _ => self.dup(),
        }
    }

    /// Whether a value of this type may be used where `target` is expected.
    pub fn is_assignable_to(&self, target: &Type) -> (r: bool)
        ensures
            r == assignable(*self, *target),
        decreases self, target,
    {
        if matches!(self, Type::Any) || matches!(target, Type::Any) {
            return true;
        }
        if matches!(self, Type::Never) {
            return true;
        }
        if matches!(target, Type::Unknown) {
            return true;
        }
        if type_eq(self, target) {
            return true;
        }
        match (self, target) {
            (Type::Literal(LiteralValue::Number(_)), Type::Number) => true,
            (Type::Literal(LiteralValue::String(_)), Type::String) => true,
            (Type::Literal(LiteralValue::Boolean(_)), Type::Boolean) => true,
            (Type::Union(ts), _) => all_assignable_exec(ts, target),
            (_, Type::Union(ts)) => any_assignable_exec(self, ts),
            (Type::Array(x), Type::Array(y)) => x.is_assignable_to(y),
            (Type::Object { fields: fa }, Type::Object { fields: fb }) => fields_assignable_exec(
                fa,
                fb,
            ),
            (Type::Null, Type::Undefined) => true,
            (Type::Undefined, Type::Null) => true,
            (Type::Null, Type::Void) => true,
            (Type::Undefined, Type::Void) => true,
            (Type::Promise(x), Type::Promise(y)) => x.is_assignable_to(y),
            (Type::MapType { key: ka, value: va }, Type::MapType { key: kb, value: vb }) => {
                ka.is_assignable_to(kb) && va.is_assignable_to(vb)
            },
            (Type::SetType { value: va }, Type::SetType { value: vb }) => va.is_assignable_to(vb),
            (Type::Tuple(xs), Type::Tuple(ys)) => xs.len() == ys.len() && pairwise_assignable_exec(
                xs,
                ys,
            ),
            (Type::Enum { members: ma, .. }, Type::Enum { members: mb, .. }) => {
                fields_assignable_exec(ma, mb)
            },
            _ => false,
        }
    }
}

// ── How a type is written ───────────────────────────────────────────────
/// How a type is written in messages.
pub open spec fn type_text(t: Type) -> Seq<char>
    decreases t,
{
    match t {
        Type::Number => "number"@,
        Type::String => "string"@,
        Type::Boolean => "boolean"@,
        Type::Null => "null"@,
        Type::Undefined => "undefined"@,
        Type::Void => "void"@,
        Type::Any => "any"@,
        Type::Unknown => "unknown"@,
        Type::Never => "never"@,
        Type::Literal(v) => crate::decl_emit::literal_text(v),
        Type::Union(ts) => types_text(ts@, " | "@),
        Type::Array(e) => type_text(*e) + "[]"@,
        Type::Promise(i) => "Promise<"@ + type_text(*i) + ">"@,
        Type::Function { params, return_type } => "("@ + types_text(params@, ", "@) + ") => "@
            + type_text(*return_type),
        Type::Object { fields } => "{ "@ + fields_text(fields@) + " }"@,
        Type::TypeParam(name, c) => match c {
            Some(x) => name@ + " extends "@ + type_text(*x),
            None => name@,
        },
        Type::MapType { key, value } => "Map<"@ + type_text(*key) + ", "@ + type_text(*value) + ">"@,
        Type::SetType { value } => "Set<"@ + type_text(*value) + ">"@,
        Type::Tuple(es) => "["@ + types_text(es@, ", "@) + "]"@,
        Type::Enum { name, .. } => name@,
    }
}

/// The texts of `ts`, separated by `sep`.
pub open spec fn types_text(ts: Seq<Type>, sep: Seq<char>) -> Seq<char>
    decreases ts,
{
    if ts.len() == 0 {
        Seq::empty()
    } else {
        types_text(ts.drop_last(), sep) + (if ts.len() > 1 {
            sep
        } else {
            Seq::empty()
        }) + type_text(ts.last())
    }
}

/// Object fields, `name: type`, separated by `, `.
pub open spec fn fields_text(fs: Seq<(String, Type)>) -> Seq<char>
    decreases fs,
{
    if fs.len() == 0 {
        Seq::empty()
    } else {
        fields_text(fs.drop_last()) + (if fs.len() > 1 {
            ", "@
        } else {
            Seq::empty()
        }) + fs.last().0@ + ": "@ + type_text(fs.last().1)
    }
}

fn push_types(out: &mut String, ts: &Vec<Type>, sep: &str)
    ensures
        final(out)@ == old(out)@ + types_text(ts@, sep@),
    decreases ts@, 0nat,
{
    let mut i: usize = 0;
    while i < ts.len()
        invariant
            i <= ts.len(),
            out@ == old(out)@ + types_text(ts@.subrange(0, i as int), sep@),
        decreases ts.len() - i,
    {
        if i > 0 {
            out.push_str(sep);
        }
        let t = ts[i].to_text();
        out.push_str(t.as_str());
        assert(ts@.subrange(0, i + 1).drop_last() =~= ts@.subrange(0, i as int));
        i += 1;
    }
    assert(ts@.subrange(0, ts@.len() as int) =~= ts@);
}

fn push_fields(out: &mut String, fs: &Vec<(String, Type)>)
    ensures
        final(out)@ == old(out)@ + fields_text(fs@),
    decreases fs@, 0nat,
{
    let mut i: usize = 0;
    while i < fs.len()
        invariant
            i <= fs.len(),
            out@ == old(out)@ + fields_text(fs@.subrange(0, i as int)),
        decreases fs.len() - i,
    {
        if i > 0 {
            out.push_str(", ");
        }
        out.push_str(fs[i].0.as_str());
        out.push_str(": ");
        let t = fs[i].1.to_text();
        out.push_str(t.as_str());
        assert(fs@.subrange(0, i + 1).drop_last() =~= fs@.subrange(0, i as int));
        i += 1;
    }
    assert(fs@.subrange(0, fs@.len() as int) =~= fs@);
}

impl Type {
    /// How this type is written in messages.
    #[verifier::loop_isolation(false)]
    pub fn to_text(&self) -> (s: String)
        ensures
            s@ == type_text(*self),
        decreases self, 1nat,
    {
        let mut out = String::new();
        match self {
            Type::Number => out.push_str("number"),
            Type::String => out.push_str("string"),
            Type::Boolean => out.push_str("boolean"),
            Type::Null => out.push_str("null"),
            Type::Undefined => out.push_str("undefined"),
            Type::Void => out.push_str("void"),
            Type::Any => out.push_str("any"),
            Type::Unknown => out.push_str("unknown"),
            Type::Never => out.push_str("never"),
            Type::Literal(v) => match v {
                LiteralValue::Number(n) => out.push_str(n.as_str()),
                LiteralValue::String(x) => {
                    out.push_str("\"");
                    out.push_str(x.as_str());
                    out.push_str("\"");
                },
                LiteralValue::Boolean(b) => {
                    if *b {
                        out.push_str("true");
                    } else {
                        out.push_str("false");
                    }
                },
            },
            Type::Union(ts) => push_types(&mut out, ts, " | "),
            Type::Array(e) => {
                let t = e.to_text();
                out.push_str(t.as_str());
                out.push_str("[]");
            },
            Type::Promise(i) => {
                let t = i.to_text();
                out.push_str("Promise<");
                out.push_str(t.as_str());
                out.push_str(">");
            },
            Type::Function { params, return_type } => {
                out.push_str("(");
                push_types(&mut out, params, ", ");
                out.push_str(") => ");
                let t = return_type.to_text();
                out.push_str(t.as_str());
            },
            Type::Object { fields } => {
                out.push_str("{ ");
                push_fields(&mut out, fields);
                out.push_str(" }");
            },
            Type::TypeParam(name, c) => {
                out.push_str(name.as_str());
                match c {
                    Some(x) => {
                        let t = x.to_text();
                        out.push_str(" extends ");
                        out.push_str(t.as_str());
                    },
                    None => {},
                }
            },
            Type::MapType { key, value } => {
                let k = key.to_text();
                let v = value.to_text();
                out.push_str("Map<");
                out.push_str(k.as_str());
                out.push_str(", ");
                out.push_str(v.as_str());
                out.push_str(">");
            },
            Type::SetType { value } => {
                let v = value.to_text();
                out.push_str("Set<");
                out.push_str(v.as_str());
                out.push_str(">");
            },
            Type::Tuple(es) => {
                out.push_str("[");
                push_types(&mut out, es, ", ");
                out.push_str("]");
            },
            Type::Enum { name, .. } => out.push_str(name.as_str()),
        }
        out
    }
}

// ── Conversion from annotations ─────────────────────────────────────────
/// `t` is the type that the annotation `ann` stands for on its own: keywords
/// and literals as they are, unions, arrays, functions and object types
/// member by member, `Map<K, V>` and `Set<T>` as such, any other name as a
/// type parameter; what needs the environment (intersections, `typeof`,
/// conditional, mapped and indexed types) as `any`, `keyof` and template
/// literal types as `string`.
pub open spec fn converts(ann: TypeAnn, t: Type) -> bool
    decreases ann,
{
    match ann {
        TypeAnn::Number => t is Number,
        TypeAnn::String => t is String,
        TypeAnn::Boolean => t is Boolean,
        TypeAnn::Null => t is Null,
        TypeAnn::Undefined => t is Undefined,
        TypeAnn::Void => t is Void,
        TypeAnn::Any => t is Any,
        TypeAnn::Unknown => t is Unknown,
        TypeAnn::Never => t is Never,
        TypeAnn::Literal { value } => t matches Type::Literal(v) && lit_eq(v, value),
        TypeAnn::Union { types } => t matches Type::Union(ts) && converts_all(types@, ts@),
        TypeAnn::Intersection { .. } => t is Any,
        TypeAnn::TemplateLiteral { .. } => t is String,
        TypeAnn::Array { element } => t matches Type::Array(e) && converts(*element, *e),
        TypeAnn::TypeRef { name, type_args } => if name@ == "Map"@ && type_args@.len() == 2 {
            t matches Type::MapType { key, value } && converts(type_args@[0], *key) && converts(
                type_args@[1],
                *value,
            )
        } else if name@ == "Set"@ && type_args@.len() == 1 {
            t matches Type::SetType { value } && converts(type_args@[0], *value)
        } else {
            t matches Type::TypeParam(n, c) && n@ == name@ && c is None
        },
        TypeAnn::Typeof { .. } => t is Any,
        TypeAnn::KeyOf { .. } => t is String,
        TypeAnn::Conditional { .. } => t is Any,
        TypeAnn::Infer { name } => t matches Type::TypeParam(n, c) && n@ == name@ && c is None,
        TypeAnn::Mapped { .. } => t is Any,
        TypeAnn::IndexedAccess { .. } => t is Any,
        TypeAnn::Function { params, return_type } => t matches Type::Function {
            params: ps,
            return_type: r,
        } && converts_all(params@, ps@) && converts(*return_type, *r),
        TypeAnn::Object { properties } => t matches Type::Object { fields } && converts_props(
            properties@,
            fields@,
        ),
    }
}

/// Member-wise conversion of annotation lists.
pub open spec fn converts_all(anns: Seq<TypeAnn>, ts: Seq<Type>) -> bool
    decreases anns,
{
    if anns.len() != ts.len() {
        false
    } else if anns.len() == 0 {
        true
    } else {
        converts_all(anns.drop_last(), ts.drop_last()) && converts(anns.last(), ts.last())
    }
}

/// Member-wise conversion of object type members to fields.
pub open spec fn converts_props(ps: Seq<ObjectTypeProperty>, fs: Seq<(String, Type)>) -> bool
    decreases ps,
{
    if ps.len() != fs.len() {
        false
    } else if ps.len() == 0 {
        true
    } else {
        converts_props(ps.drop_last(), fs.drop_last()) && fs.last().0@ == ps.last().name@
            && converts(ps.last().type_ann, fs.last().1)
    }
}

fn from_anns(anns: &Vec<TypeAnn>) -> (r: Vec<Type>)
    ensures
        converts_all(anns@, r@),
    decreases anns@, 0nat,
{
    let mut r: Vec<Type> = Vec::new();
    let mut i: usize = 0;
    while i < anns.len()
        invariant
            i <= anns.len(),
            converts_all(anns@.subrange(0, i as int), r@),
        decreases anns.len() - i,
    {
        let t = Type::from_ann(&anns[i]);
        let ghost before = r@;
        r.push(t);
        assert(r@.drop_last() =~= before);
        assert(anns@.subrange(0, i + 1).drop_last() =~= anns@.subrange(0, i as int));
        i += 1;
    }
    assert(anns@.subrange(0, i as int) =~= anns@);
    r
}

fn from_props(ps: &Vec<ObjectTypeProperty>) -> (r: Vec<(String, Type)>)
    ensures
        converts_props(ps@, r@),
    decreases ps@, 0nat,
{
    let mut r: Vec<(String, Type)> = Vec::new();
    let mut i: usize = 0;
    while i < ps.len()
        invariant
            i <= ps.len(),
            converts_props(ps@.subrange(0, i as int), r@),
        decreases ps.len() - i,
    {
        let t = Type::from_ann(&ps[i].type_ann);
        let ghost before = r@;
        r.push((ps[i].name.clone(), t));
        assert(r@.drop_last() =~= before);
        assert(ps@.subrange(0, i + 1).drop_last() =~= ps@.subrange(0, i as int));
        i += 1;
    }
    assert(ps@.subrange(0, i as int) =~= ps@);
    r
}

impl Type {
    /// The type an annotation stands for on its own (see `converts`).
    pub fn from_ann(ann: &TypeAnn) -> (t: Type)
        ensures
            converts(*ann, t),
        decreases ann, 1nat,
    {
        match ann {
            TypeAnn::Number => Type::Number,
            TypeAnn::String => Type::String,
            TypeAnn::Boolean => Type::Boolean,
            TypeAnn::Null => Type::Null,
            TypeAnn::Undefined => Type::Undefined,
            TypeAnn::Void => Type::Void,
            TypeAnn::Any => Type::Any,
            TypeAnn::Unknown => Type::Unknown,
            TypeAnn::Never => Type::Never,
            TypeAnn::Literal { value } => Type::Literal(copy_literal(value)),
            TypeAnn::Union { types } => Type::Union(from_anns(types)),
            TypeAnn::Intersection { .. } => Type::Any,
            TypeAnn::TemplateLiteral { .. } => Type::String,
            TypeAnn::Array { element } => Type::Array(Box::new(Type::from_ann(element))),
            TypeAnn::TypeRef { name, type_args } => {
                if str_eq(name.as_str(), "Map") && type_args.len() == 2 {
                    Type::MapType {
                        key: Box::new(Type::from_ann(&type_args[0])),
                        value: Box::new(Type::from_ann(&type_args[1])),
                    }
                } else if str_eq(name.as_str(), "Set") && type_args.len() == 1 {
                    Type::SetType { value: Box::new(Type::from_ann(&type_args[0])) }
                } else {
                    Type::TypeParam(name.clone(), None)
                }
            },
            TypeAnn::Typeof { .. } => Type::Any,
            TypeAnn::KeyOf { .. } => Type::String,
            TypeAnn::Conditional { .. } => Type::Any,
            TypeAnn::Infer { name } => Type::TypeParam(name.clone(), None),
            TypeAnn::Mapped { .. } => Type::Any,
            TypeAnn::IndexedAccess { .. } => Type::Any,
            TypeAnn::Function { params, return_type } => Type::Function {
                params: from_anns(params),
                return_type: Box::new(Type::from_ann(return_type)),
            },
            TypeAnn::Object { properties } => Type::Object { fields: from_props(properties) },
        }
    }
}

// ── Laws of assignability ────────────────────────────────────────────────
/// Every type is assignable to itself.
pub proof fn law_assignable_reflexive(t: Type)
    ensures
        assignable(t, t),
{
    lemma_ty_eq_refl(t);
}

/// `any` goes both ways, `never` is assignable to every type and every
/// type to `unknown`.
pub proof fn law_top_and_bottom(t: Type)
    ensures
        assignable(Type::Any, t),
        assignable(t, Type::Any),
        assignable(Type::Never, t),
        assignable(t, Type::Unknown),
{
}

/// A literal type is assignable to the primitive type it belongs to.
pub proof fn law_literal_to_primitive(v: LiteralValue)
    ensures
        assignable(Type::Literal(v), spec_primitive(Type::Literal(v))),
{
}

/// `a` assignable to some member of `ts` makes it assignable to some
/// member of `ts` as a list.
proof fn lemma_any_assignable(a: Type, ts: Seq<Type>, i: int)
    requires
        0 <= i < ts.len(),
        assignable(a, ts[i]),
    ensures
        any_assignable(a, ts),
    decreases ts.len(),
{
    if i < ts.len() - 1 {
        lemma_any_assignable(a, ts.drop_last(), i);
    }
}

/// A member of a union (that is not itself a union) is assignable to the
/// union.
pub proof fn law_member_to_union(u: Vec<Type>, i: int)
    requires
        0 <= i < u@.len(),
        !(u@[i] is Union),
    ensures
        assignable(u@[i], Type::Union(u)),
{
    lemma_ty_eq_refl(u@[i]);
    lemma_any_assignable(u@[i], u@, i);
}

proof fn lemma_all_assignable(ts: Seq<Type>, b: Type)
    ensures
        all_assignable(ts, b) <==> forall|i: int| 0 <= i < ts.len() ==> assignable(#[trigger] ts[i], b),
    decreases ts.len(),
{
    if ts.len() > 0 {
        lemma_all_assignable(ts.drop_last(), b);
        assert forall|i: int| 0 <= i < ts.len() - 1 implies ts.drop_last()[i] == ts[i] by {}
        if all_assignable(ts, b) {
            assert forall|i: int| 0 <= i < ts.len() implies assignable(#[trigger] ts[i], b) by {
                if i < ts.len() - 1 {
                    assert(assignable(ts.drop_last()[i], b));
                }
            }
        }
        if forall|i: int| 0 <= i < ts.len() ==> assignable(#[trigger] ts[i], b) {
            assert(assignable(ts[ts.len() - 1], b));
            assert forall|i: int| 0 <= i < ts.drop_last().len() implies assignable(
                #[trigger] ts.drop_last()[i],
                b,
            ) by {
                assert(assignable(ts[i], b));
            }
        }
    }
}

/// A union is assignable to a type that is not a union when each of its
/// members is; and when it is assignable, each member is (unless the
/// target is `any` or `unknown`, or the union equals it structurally).
pub proof fn law_union_to_target(u: Vec<Type>, b: Type)
    requires
        !(b is Union),
    ensures
        (forall|i: int| 0 <= i < u@.len() ==> assignable(#[trigger] u@[i], b)) ==> assignable(
            Type::Union(u),
            b,
        ),
        assignable(Type::Union(u), b) && !(b is Any || b is Unknown || ty_eq(Type::Union(u), b))
            ==> forall|i: int| 0 <= i < u@.len() ==> assignable(#[trigger] u@[i], b),
{
    lemma_all_assignable(u@, b);
}

// ── Assignability respects structural equality ─────────────────────────
/// Element-wise view of `named_eq`.
proof fn lemma_named_eq_elems(xs: Seq<(String, Type)>, ys: Seq<(String, Type)>)
    requires
        named_eq(xs, ys),
    ensures
        xs.len() == ys.len(),
        forall|i: int|
            0 <= i < xs.len() ==> (#[trigger] xs[i]).0@ == ys[i].0@ && ty_eq(xs[i].1, ys[i].1),
    decreases xs.len(),
{
    if xs.len() > 0 {
        lemma_named_eq_elems(xs.drop_last(), ys.drop_last());
        assert forall|i: int| 0 <= i < xs.len() implies (#[trigger] xs[i]).0@ == ys[i].0@ && ty_eq(
            xs[i].1,
            ys[i].1,
        ) by {
            if i < xs.len() - 1 {
                assert(xs[i] == xs.drop_last()[i]);
                assert(ys[i] == ys.drop_last()[i]);
            }
        }
    }
}

/// Lists with the same names find a name at the same index.
proof fn lemma_field_index_same_names(
    xs: Seq<(String, Type)>,
    ys: Seq<(String, Type)>,
    name: Seq<char>,
)
    requires
        xs.len() == ys.len(),
        forall|i: int| 0 <= i < xs.len() ==> (#[trigger] xs[i]).0@ == ys[i].0@,
    ensures
        field_index(xs, name) == field_index(ys, name),
    decreases xs.len(),
{
    if xs.len() > 0 {
        assert(xs[0].0@ == ys[0].0@);
        assert forall|i: int| 0 <= i < xs.drop_first().len() implies (
        #[trigger] xs.drop_first()[i]).0@ == ys.drop_first()[i].0@ by {
            assert(xs.drop_first()[i] == xs[i + 1]);
            assert(ys.drop_first()[i] == ys[i + 1]);
        }
        lemma_field_index_same_names(xs.drop_first(), ys.drop_first(), name);
    }
}

proof fn lemma_all_cong(ts: Seq<Type>, ts2: Seq<Type>, b: Type, b2: Type)
    requires
        tys_eq(ts, ts2),
        ty_eq(b, b2),
    ensures
        all_assignable(ts, b) == all_assignable(ts2, b2),
    decreases ts, b,
{
    if ts.len() > 0 {
        lemma_all_cong(ts.drop_last(), ts2.drop_last(), b, b2);
        law_assignable_respects_ty_eq(ts.last(), ts2.last(), b, b2);
    }
}

proof fn lemma_any_cong(a: Type, a2: Type, ts: Seq<Type>, ts2: Seq<Type>)
    requires
        ty_eq(a, a2),
        tys_eq(ts, ts2),
    ensures
        any_assignable(a, ts) == any_assignable(a2, ts2),
    decreases a, ts,
{
    if ts.len() > 0 {
        lemma_any_cong(a, a2, ts.drop_last(), ts2.drop_last());
        law_assignable_respects_ty_eq(a, a2, ts.last(), ts2.last());
    }
}

proof fn lemma_pairwise_cong(xs: Seq<Type>, xs2: Seq<Type>, ys: Seq<Type>, ys2: Seq<Type>)
    requires
        tys_eq(xs, xs2),
        tys_eq(ys, ys2),
    ensures
        pairwise_assignable(xs, ys) == pairwise_assignable(xs2, ys2),
    decreases xs, ys,
{
    if xs.len() > 0 && ys.len() > 0 {
        lemma_pairwise_cong(xs.drop_last(), xs2.drop_last(), ys.drop_last(), ys2.drop_last());
        law_assignable_respects_ty_eq(xs.last(), xs2.last(), ys.last(), ys2.last());
    }
}

proof fn lemma_fields_cong(
    fa: Seq<(String, Type)>,
    fa2: Seq<(String, Type)>,
    fb: Seq<(String, Type)>,
    fb2: Seq<(String, Type)>,
)
    requires
        named_eq(fa, fa2),
        named_eq(fb, fb2),
    ensures
        fields_assignable(fa, fb) == fields_assignable(fa2, fb2),
    decreases fa, fb,
{
    if fb.len() > 0 {
        lemma_named_eq_elems(fa, fa2);
        lemma_named_eq_elems(fb, fb2);
        let n = fb.last().0@;
        assert(fb2.last().0@ == n);
        lemma_field_index_same_names(fa, fa2, n);
        lemma_field_index(fa, n);
        lemma_fields_cong(fa, fa2, fb.drop_last(), fb2.drop_last());
        let i = field_index(fa, n);
        if i >= 0 {
            law_assignable_respects_ty_eq(fa[i].1, fa2[i].1, fb.last().1, fb2.last().1);
        }
    }
}

/// Assignability respects structural equality: structurally equal types
/// are assignable, and assigned to, alike.
pub proof fn law_assignable_respects_ty_eq(a: Type, a2: Type, b: Type, b2: Type)
    requires
        ty_eq(a, a2),
        ty_eq(b, b2),
    ensures
        assignable(a, b) == assignable(a2, b2),
    decreases a, b,
{
    lemma_ty_eq_trans(a, a2, b2);
    lemma_ty_eq_trans(b, b2, b);
    lemma_ty_eq_trans(a, b2, b);
    lemma_ty_eq_trans(a2, a, b);
    lemma_ty_eq_trans(a2, b, b2);
    match (a, a2) {
        (Type::Union(ts), Type::Union(ts2)) => {
            lemma_all_cong(ts@, ts2@, b, b2);
            assert(assignable(a, b) == assignable(a2, b2));
        },
        _ => {
            match (b, b2) {
                (Type::Union(ts), Type::Union(ts2)) => {
                    lemma_any_cong(a, a2, ts@, ts2@);
                    assert(assignable(a, b) == assignable(a2, b2));
                },
                _ => {},
            }
            match (a, a2, b, b2) {
                (Type::Array(x), Type::Array(x2), Type::Array(y), Type::Array(y2)) => {
                    law_assignable_respects_ty_eq(*x, *x2, *y, *y2);
                    assert(assignable(a, b) == assignable(a2, b2));
                },
                (Type::Promise(x), Type::Promise(x2), Type::Promise(y), Type::Promise(y2)) => {
                    law_assignable_respects_ty_eq(*x, *x2, *y, *y2);
                    assert(assignable(a, b) == assignable(a2, b2));
                },
                (
                    Type::SetType { value: x },
                    Type::SetType { value: x2 },
                    Type::SetType { value: y },
                    Type::SetType { value: y2 },
                ) => {
                    law_assignable_respects_ty_eq(*x, *x2, *y, *y2);
                    assert(assignable(a, b) == assignable(a2, b2));
                },
                (
                    Type::MapType { key: k, value: v },
                    Type::MapType { key: k2, value: v2 },
                    Type::MapType { key: l, value: w },
                    Type::MapType { key: l2, value: w2 },
                ) => {
                    law_assignable_respects_ty_eq(*k, *k2, *l, *l2);
                    law_assignable_respects_ty_eq(*v, *v2, *w, *w2);
                    assert(assignable(a, b) == assignable(a2, b2));
                },
                (Type::Tuple(xs), Type::Tuple(xs2), Type::Tuple(ys), Type::Tuple(ys2)) => {
                    lemma_pairwise_cong(xs@, xs2@, ys@, ys2@);
                    assert(assignable(a, b) == assignable(a2, b2));
                },
                (
                    Type::Object { fields: fa },
                    Type::Object { fields: fa2 },
                    Type::Object { fields: fb },
                    Type::Object { fields: fb2 },
                ) => {
                    lemma_fields_cong(fa@, fa2@, fb@, fb2@);
                    assert(assignable(a, b) == assignable(a2, b2));
                },
                (
                    Type::Enum { members: fa, .. },
                    Type::Enum { members: fa2, .. },
                    Type::Enum { members: fb, .. },
                    Type::Enum { members: fb2, .. },
                ) => {
                    lemma_fields_cong(fa@, fa2@, fb@, fb2@);
                    assert(assignable(a, b) == assignable(a2, b2));
                },
                _ => {
                    assert(assignable(a, b) == assignable(a2, b2));
                },
            }
        },
    }
}

} // verus!
