//! Types of annotations as the checker resolves them, and the names that a
//! destructuring pattern binds.
use vstd::prelude::*;

use crate::ast::{Expression, LiteralValue, PropertyKey, TypeAnn};
use crate::token::Span;
use crate::type_checker::env::{keeps_bound, TypeEnv};
use crate::type_checker::error::TypeError;
use crate::type_checker::ty::{converts, field_index, find_field, ty_eq, Type};
use crate::type_checker::{errors_grow, TypeChecker};

verus! {

/// Annotations the checker resolves through the environment or by
/// evaluation; all others it takes as they stand (see `converts`).
pub open spec fn resolved_in_env(ann: TypeAnn) -> bool {
    ||| ann is TypeRef
    ||| ann is Typeof
    ||| ann is KeyOf
    ||| ann is Conditional
    ||| ann is Infer
    ||| ann is Mapped
    ||| ann is IndexedAccess
    ||| ann is Intersection
}

/// `r` is `keyof inner`: the union of the string literal types of the
/// field names of an object type (`string` for anything else or no
/// fields).
pub open spec fn keyof_of(inner: Type, r: Type) -> bool {
    match inner {
        Type::Object { fields } => if fields@.len() == 0 {
            r is String
        } else if fields@.len() == 1 {
            r matches Type::Literal(LiteralValue::String(n)) && n@ == fields@[0].0@
        } else {
            r matches Type::Union(ks) && ks@.len() == fields@.len() && forall|j: int|
                0 <= j < ks@.len() ==> (#[trigger] ks@[j] matches Type::Literal(
                    LiteralValue::String(n),
                ) && n@ == fields@[j].0@)
        },
        _ => r is String,
    }
}

/// `r` is `target[index]`: the type of the field a string literal names
/// (`any` when there is none), the union of all field types for any other
/// index, the element type of an array.
pub open spec fn indexed_of(target: Type, index: Type, r: Type) -> bool {
    match (target, index) {
        (Type::Object { fields }, Type::Literal(LiteralValue::String(key))) => {
            let k = field_index(fields@, key@);
            if k >= 0 {
                ty_eq(r, fields@[k].1)
            } else {
                r is Any
            }
        },
        (Type::Object { fields }, _) => if fields@.len() == 1 {
            ty_eq(r, fields@[0].1)
        } else {
            r matches Type::Union(ts) && ts@.len() == fields@.len() && forall|j: int|
                0 <= j < ts@.len() ==> ty_eq(#[trigger] ts@[j], fields@[j].1)
        },
        (Type::Array(element), _) => r == *element,
        _ => r is Any,
    }
}

/// The generic names the checker evaluates itself (`Promise<T>`,
/// `Map<K, V>`, `Set<T>`, `Partial<T>`, `Pick<T, K>`).
pub open spec fn is_utility(name: Seq<char>, nargs: int) -> bool {
    ||| name == "Promise"@ && nargs == 1
    ||| name == "Map"@ && nargs == 2
    ||| name == "Set"@ && nargs == 1
    ||| name == "Partial"@ && nargs == 1
    ||| name == "Pick"@ && nargs == 2
}

/// A reference to a named type is the type the name is bound to (up to
/// structural equality), `any` for an unbound name; no error is reported.
pub open spec fn named_ref_resolved(
    ann: TypeAnn,
    env: TypeEnv,
    r: Type,
    before: Seq<TypeError>,
    after: Seq<TypeError>,
) -> bool {
    match ann {
        TypeAnn::TypeRef { name, type_args } => !is_utility(name@, type_args@.len() as int) ==> {
            &&& after == before
            &&& match env.binding(name@) {
                Some(t) => ty_eq(r, t),
                None => r is Any,
            }
        },
        _ => true,
    }
}

/// The names among the string literal types of `keys` that `fields` has,
/// in the order of `keys`.
pub open spec fn picked_names(fields: Seq<(String, Type)>, keys: Seq<Type>) -> Seq<Seq<char>>
decreases keys.len(),
{
if keys.len() == 0 {
    Seq::empty()
} else {
    let rest = picked_names(fields, keys.drop_last());
    match keys.last() {
        Type::Literal(LiteralValue::String(s)) => if field_index(fields, s@) >= 0 {
            rest.push(s@)
        } else {
            rest
        },
        _ => rest,
    }
}
}

/// `f` is, up to structural equality, the field of `fields` it names.
pub open spec fn picked_from(fields: Seq<(String, Type)>, f: (String, Type)) -> bool {
&&& field_index(fields, f.0@) >= 0
&&& ty_eq(f.1, fields[field_index(fields, f.0@)].1)
}

impl TypeChecker {
    /// Resolves each annotation of `anns`.
    fn types_of_anns(&mut self, anns: &Vec<TypeAnn>, env: &mut TypeEnv) -> (r: Vec<Type>)
        requires
            old(env).wf(),
        ensures
            final(env).wf(),
            final(env).scopes() == old(env).scopes(),
            errors_grow(old(self).errors@, final(self).errors@),
            old(self).same_setting(*final(self)),
            r@.len() == anns@.len(),
        decreases anns@, 0nat,
    {
        let mut r: Vec<Type> = Vec::new();
        let mut i: usize = 0;
        while i < anns.len()
            invariant
                i <= anns.len(),
                r@.len() == i,
                env.wf(),
                env.scopes() == old(env).scopes(),
                errors_grow(old(self).errors@, self.errors@),
                old(self).same_setting(*self),
            decreases anns.len() - i,
        {
            let t = self.type_ann_to_type(&anns[i], env);
            r.push(t);
            i += 1;
        }
        r
    }

    /// The fields of `fields` named by the string literal types of `keys`
    /// (`Pick<T, K>`), in the order of `keys`.
    fn pick_fields(fields: &Vec<(String, Type)>, keys: &Vec<Type>) -> (r: Vec<(String, Type)>)
        ensures
            r@.map_values(|f: (String, Type)| f.0@) == picked_names(fields@, keys@),
            forall|j: int| 0 <= j < r@.len() ==> picked_from(fields@, #[trigger] r@[j]),
    {
        let mut picked: Vec<(String, Type)> = Vec::new();
        let mut i: usize = 0;
        while i < keys.len()
            invariant
                i <= keys.len(),
                picked@.map_values(|f: (String, Type)| f.0@) == picked_names(fields@, keys@.take(i as int)),
                forall|j: int|
                    0 <= j < picked@.len() ==> ty_eq(
                        #[trigger] picked@[j].1,
                        fields@[field_index(fields@, picked@[j].0@)].1,
                    ) && field_index(fields@, picked@[j].0@) >= 0,
            decreases keys.len() - i,
        {
            assert(keys@.take(i + 1).drop_last() =~= keys@.take(i as int));
            let ghost before = picked@;
            match &keys[i] {
                Type::Literal(LiteralValue::String(s)) => {
                    match find_field(fields, s) {
                        Some(k) => {
                            let name = fields[k].0.clone();
                            let t = fields[k].1.clone();
                            proof {
                                crate::type_checker::ty::lemma_field_index(fields@, s@);
                            }
                            assert(fields@[k as int].0@ == s@);
                            assert(name@ == s@);
                            assert(ty_eq(t, fields@[k as int].1));
                            picked.push((name, t));
                            assert(picked@.last().0@ == s@);
                            assert(field_index(fields@, s@) == k);
                            assert(ty_eq(picked@.last().1, fields@[field_index(fields@, picked@.last().0@)].1));
                            assert forall|j: int| 0 <= j < picked@.len() implies ty_eq(
                                #[trigger] picked@[j].1,
                                fields@[field_index(fields@, picked@[j].0@)].1,
                            ) && field_index(fields@, picked@[j].0@) >= 0 by {
                                if j < before.len() {
                                    assert(picked@[j] == before[j]);
                                } else {
                                    assert(picked@[j] == picked@.last());
                                }
                            }
                            assert(picked@.map_values(|f: (String, Type)| f.0@) =~= before.map_values(
                                |f: (String, Type)| f.0@,
                            ).push(s@));
                        },
                        None => {},
                    }
                },
                _ => {},
            }
            proof {
                assert forall|j: int| 0 <= j < before.len() implies ty_eq(
                    #[trigger] picked@[j].1,
                    fields@[field_index(fields@, picked@[j].0@)].1,
                ) && field_index(fields@, picked@[j].0@) >= 0 by {
                    assert(picked@[j] == before[j]);
                    assert(ty_eq(before[j].1, fields@[field_index(fields@, before[j].0@)].1));
                }
                assert(picked@.len() == before.len() || picked@.len() == before.len() + 1);
                assert forall|j: int| 0 <= j < picked@.len() implies ty_eq(
                    #[trigger] picked@[j].1,
                    fields@[field_index(fields@, picked@[j].0@)].1,
                ) && field_index(fields@, picked@[j].0@) >= 0 by {
                    if j < before.len() {
                        assert(picked@[j] == before[j]);
                        assert(ty_eq(before[j].1, fields@[field_index(fields@, before[j].0@)].1));
                    }
                }
            }
            i += 1;
        }
        assert(keys@.take(keys.len() as int) =~= keys@);
        assert forall|j: int| 0 <= j < picked@.len() implies picked_from(fields@, #[trigger] picked@[j]) by {
            assert(ty_eq(picked@[j].1, fields@[field_index(fields@, picked@[j].0@)].1));
        }
        picked
    }

    /// Resolves a type reference: the generic types `Promise`, `Map`, `Set`,
    /// `Partial` and `Pick`, else the type the name is bound to (`any` when
    /// unbound).
    fn type_ref_to_type(&mut self, ann: &TypeAnn, env: &mut TypeEnv) -> (r: Type)
        requires
            old(env).wf(),
            ann is TypeRef,
        ensures
            final(env).wf(),
            final(env).scopes() == old(env).scopes(),
            errors_grow(old(self).errors@, final(self).errors@),
            old(self).same_setting(*final(self)),
            named_ref_resolved(*ann, *old(env), r, old(self).errors@, final(self).errors@),
        decreases ann, 1nat,
    {
        match ann {
            TypeAnn::TypeRef { name, type_args } => {
                let n = name.as_str();
                if crate::text::str_eq(n, "Promise") && type_args.len() == 1 {
                    Type::Promise(Box::new(self.type_ann_to_type(&type_args[0], env)))
                } else if crate::text::str_eq(n, "Map") && type_args.len() == 2 {
                    let key = self.type_ann_to_type(&type_args[0], env);
                    let value = self.type_ann_to_type(&type_args[1], env);
                    Type::MapType { key: Box::new(key), value: Box::new(value) }
                } else if crate::text::str_eq(n, "Set") && type_args.len() == 1 {
                    Type::SetType { value: Box::new(self.type_ann_to_type(&type_args[0], env)) }
                } else if crate::text::str_eq(n, "Partial") && type_args.len() == 1 {
                    // Optional fields are not modelled: a Partial accepts anything.
                    let _inner = self.type_ann_to_type(&type_args[0], env);
                    Type::Any
                } else if crate::text::str_eq(n, "Pick") && type_args.len() == 2 {
                    let inner = self.type_ann_to_type(&type_args[0], env);
                    let keys = self.type_ann_to_type(&type_args[1], env);
                    match (&inner, &keys) {
                        (Type::Object { fields }, Type::Union(key_types)) => {
                            Type::Object { fields: Self::pick_fields(fields, key_types) }
                        },
                        (Type::Object { fields }, Type::Literal(LiteralValue::String(s))) => {
                            let mut picked: Vec<(String, Type)> = Vec::new();
                            let mut i: usize = 0;
                            while i < fields.len()
                                decreases fields.len() - i,
                            {
                                if fields[i].0 == *s {
                                    picked.push((fields[i].0.clone(), fields[i].1.clone()));
                                }
                                i += 1;
                            }
                            Type::Object { fields: picked }
                        },
                        _ => Type::Any,
                    }
                } else {
                    match env.lookup(n) {
                        Some(t) => t,
                        None => Type::Any,
                    }
                }
            },
            _ => Type::Any,
        }
    }

    /// `keyof T`: the union of the string literal types of the field names
    /// of an object type (`string` for anything else or no fields).
    fn keyof_type(inner: &Type) -> (r: Type)
        ensures
            keyof_of(*inner, r),
    {
        match inner {
            Type::Object { fields } => {
                let mut keys: Vec<Type> = Vec::new();
                let mut i: usize = 0;
                while i < fields.len()
                    invariant
                        i <= fields.len(),
                        keys@.len() == i,
                        forall|j: int|
                            0 <= j < i ==> (#[trigger] keys@[j] matches Type::Literal(
                                LiteralValue::String(n),
                            ) && n@ == fields@[j].0@),
                    decreases fields.len() - i,
                {
                    keys.push(Type::Literal(LiteralValue::String(fields[i].0.clone())));
                    i += 1;
                }
                if keys.len() == 0 {
                    Type::String
                } else if keys.len() == 1 {
                    keys.pop().unwrap()
                } else {
                    Type::Union(keys)
                }
            },
            _ => Type::String,
        }
    }

    /// `T[K]`: the type of the field a string literal names (`any` when
    /// there is none), the union of all field types for any other index,
    /// the element type of an array.
    fn indexed_type(target: Type, index: &Type) -> (r: Type)
        ensures
            indexed_of(target, *index, r),
    {
        match (target, index) {
            (Type::Object { fields }, Type::Literal(LiteralValue::String(key))) => {
                match find_field(&fields, key) {
                    Some(i) => fields[i].1.clone(),
                    None => Type::Any,
                }
            },
            (Type::Object { fields }, _) => {
                let mut types: Vec<Type> = Vec::new();
                let mut i: usize = 0;
                while i < fields.len()
                    invariant
                        i <= fields.len(),
                        types@.len() == i,
                        forall|j: int| 0 <= j < i ==> ty_eq(#[trigger] types@[j], fields@[j].1),
                    decreases fields.len() - i,
                {
                    types.push(fields[i].1.clone());
                    i += 1;
                }
                if types.len() == 1 {
                    types.pop().unwrap()
                } else {
                    Type::Union(types)
                }
            },
            (Type::Array(element), _) => *element,
            _ => Type::Any,
        }
    }

    /// The type an annotation stands for. Names are looked up in the
    /// environment; `typeof e` is the type of `e`; conditional, mapped,
    /// indexed and intersection types are evaluated. Resolving never changes
    /// the environment.
    #[verifier::loop_isolation(false)]
    pub fn type_ann_to_type(&mut self, ann: &TypeAnn, env: &mut TypeEnv) -> (r: Type)
        requires
            old(env).wf(),
        ensures
            final(env).wf(),
            final(env).scopes() == old(env).scopes(),
            errors_grow(old(self).errors@, final(self).errors@),
            old(self).same_setting(*final(self)),
            !resolved_in_env(*ann) ==> converts(*ann, r) && final(self).errors@ == old(
                self,
            ).errors@,
            ann matches TypeAnn::Infer { name } ==> r matches Type::TypeParam(n, c) && n@ == name@
                && c is None,
            named_ref_resolved(*ann, *old(env), r, old(self).errors@, final(self).errors@),
            *ann matches TypeAnn::KeyOf { type_ann } ==> (!resolved_in_env(*type_ann) ==> exists|
                inner: Type,
            | converts(*type_ann, inner) && keyof_of(inner, r)),
            *ann matches TypeAnn::IndexedAccess { target, index } ==> (!resolved_in_env(*target)
                && !resolved_in_env(*index) ==> exists|tt: Type, it: Type|
                converts(*target, tt) && converts(*index, it) && indexed_of(tt, it, r)),
        decreases ann, 2nat,
    {
        match ann {
            TypeAnn::TypeRef { .. } => self.type_ref_to_type(ann, env),
            TypeAnn::Typeof { argument } => self.infer_expression(argument, env),
            TypeAnn::KeyOf { type_ann } => {
                let inner = self.type_ann_to_type(type_ann, env);
                Self::keyof_type(&inner)
            },
            TypeAnn::Conditional { check, extends, true_type, false_type } => {
                let check_type = self.type_ann_to_type(check, env);
                let extends_type = self.type_ann_to_type(extends, env);
                if check_type.is_assignable_to(&extends_type) {
                    self.type_ann_to_type(true_type, env)
                } else {
                    self.type_ann_to_type(false_type, env)
                }
            },
            TypeAnn::Infer { name } => Type::TypeParam(name.clone(), None),
            TypeAnn::Mapped { target, value, .. } => {
                let target_type = self.type_ann_to_type(target, env);
                match &target_type {
                    Type::Object { fields } => {
                        let mut mapped: Vec<(String, Type)> = Vec::new();
                        let mut i: usize = 0;
                        while i < fields.len()
                            invariant
                                i <= fields.len(),
                                env.wf(),
                                env.scopes() == old(env).scopes(),
                                errors_grow(old(self).errors@, self.errors@),
                                old(self).same_setting(*self),
                            decreases fields.len() - i,
                        {
                            let v = self.type_ann_to_type(value, env);
                            mapped.push((fields[i].0.clone(), v));
                            i += 1;
                        }
                        Type::Object { fields: mapped }
                    },
                    _ => Type::Any,
                }
            },
            TypeAnn::IndexedAccess { target, index } => {
                let target_type = self.type_ann_to_type(target, env);
                let index_type = self.type_ann_to_type(index, env);
                Self::indexed_type(target_type, &index_type)
            },
            TypeAnn::Intersection { types } => {
                let resolved = self.types_of_anns(types, env);
                let mut merged: Vec<(String, Type)> = Vec::new();
                let mut i: usize = 0;
                while i < resolved.len()
                    decreases resolved.len() - i,
                {
                    match &resolved[i] {
                        Type::Object { fields } => {
                            let mut k: usize = 0;
                            while k < fields.len()
                                decreases fields.len() - k,
                            {
                                if find_field(&merged, &fields[k].0).is_none() {
                                    merged.push((fields[k].0.clone(), fields[k].1.clone()));
                                }
                                k += 1;
                            }
                        },
                        _ => {
                            return Type::Any;
                        },
                    }
                    i += 1;
                }
                Type::Object { fields: merged }
            },
            _ => Type::from_ann(ann),
        }
    }

    /// Binds the names of a destructuring pattern (or a plain name) to the
    /// parts of `ty` they take: object fields by name, tuple elements by
    /// position, array elements; `any` where `ty` has no such part. A name
    /// bound twice in the innermost scope is reported at `span`.
    #[verifier::loop_isolation(false)]
    pub fn declare_pattern_names(
        &mut self,
        pattern: &Expression,
        ty: Type,
        env: &mut TypeEnv,
        span: Span,
    )
        requires
            old(env).wf(),
        ensures
            final(env).wf(),
            final(env).depth() == old(env).depth(),
            final(env).scopes().drop_last() == old(env).scopes().drop_last(),
            keeps_bound(*old(env), *final(env)),
            errors_grow(old(self).errors@, final(self).errors@),
            old(self).same_setting(*final(self)),
            *pattern matches Expression::Identifier { name, .. } ==> {
                &&& final(env).binds_here(name@)
                &&& old(env).binds_here(name@) ==> crate::type_checker::infer::check::duplicate_reported(
                    old(self).errors@,
                    final(self).errors@,
                    name@,
                    span,
                ) && final(env).scopes() == old(env).scopes()
                &&& !old(env).binds_here(name@) ==> final(self).errors@ == old(self).errors@
                    && final(env).binding(name@) == Some(ty)
            },
            !(*pattern is Identifier || *pattern is ObjectPattern || *pattern is ArrayPattern)
                ==> *final(self) == *old(self) && *final(env) == *old(env),
        decreases pattern,
    {
        match pattern {
            Expression::Identifier { name, .. } => {
                let ghost before = self.errors@;
                match env.declare(name.as_str(), ty) {
                    Ok(()) => {},
                    Err(msg) => {
                        self.errors.push(TypeError::DuplicateIdentifier(msg, span));
                        assert(self.errors@.drop_last() =~= before);
                    },
                }
            },
            Expression::ObjectPattern { properties, .. } => {
                let mut i: usize = 0;
                while i < properties.len()
                    invariant
                        i <= properties.len(),
                        env.wf(),
                        env.depth() == old(env).depth(),
                        env.scopes().drop_last() == old(env).scopes().drop_last(),
                        keeps_bound(*old(env), *env),
                        errors_grow(old(self).errors@, self.errors@),
                        old(self).same_setting(*self),
                    decreases properties.len() - i,
                {
                    let prop = &properties[i];
                    let key_name = match &prop.key {
                        PropertyKey::Identifier(n) => Some(n),
                        PropertyKey::String(n) => Some(n),
                        PropertyKey::Expression(_) => None,
                    };
                    match key_name {
                        Some(k) => {
                            let field_type = match &ty {
                                Type::Object { fields } => match find_field(fields, k) {
                                    Some(j) => fields[j].1.clone(),
                                    None => Type::Any,
                                },
                                _ => Type::Any,
                            };
                            self.declare_pattern_names(&prop.value, field_type, env, span);
                        },
                        None => {},
                    }
                    i += 1;
                }
            },
            Expression::ArrayPattern { elements, .. } => {
                let mut i: usize = 0;
                while i < elements.len()
                    invariant
                        i <= elements.len(),
                        env.wf(),
                        env.depth() == old(env).depth(),
                        env.scopes().drop_last() == old(env).scopes().drop_last(),
                        keeps_bound(*old(env), *env),
                        errors_grow(old(self).errors@, self.errors@),
                        old(self).same_setting(*self),
                    decreases elements.len() - i,
                {
                    match &elements[i] {
                        Some(elem) => {
                            let elem_type = match &ty {
                                Type::Tuple(elems) => {
                                    if i < elems.len() {
                                        elems[i].clone()
                                    } else {
                                        Type::Any
                                    }
                                },
                                Type::Array(inner) => (**inner).clone(),
                                _ => Type::Any,
                            };
                            self.declare_pattern_names(elem, elem_type, env, span);
                        },
                        None => {},
                    }
                    i += 1;
                }
            },
            _ => {},
        }
    }
}

} // verus!
