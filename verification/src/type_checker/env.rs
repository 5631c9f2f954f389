//! The type environment: a stack of scopes, each mapping names to types.
use vstd::prelude::*;

use crate::type_checker::ty::{field_index, find_field, lemma_field_index, ty_eq, Type};

verus! {

/// The type bound to `name`: in the innermost scope that binds it.
pub open spec fn scopes_lookup(scopes: Seq<Seq<(String, Type)>>, name: Seq<char>) -> Option<Type>
    decreases scopes.len(),
{
    if scopes.len() == 0 {
        None
    } else {
        let i = field_index(scopes.last(), name);
        if i >= 0 {
            Some(scopes.last()[i].1)
        } else {
            scopes_lookup(scopes.drop_last(), name)
        }
    }
}

/// No name is bound twice in one scope.
pub open spec fn unique_names(scope: Seq<(String, Type)>) -> bool {
    forall|i: int, j: int|
        0 <= i < j < scope.len() ==> (#[trigger] scope[i]).0@ != (#[trigger] scope[j]).0@
}

/// Every name bound in the innermost scope of `a` is still bound in the
/// innermost scope of `b`.
pub open spec fn keeps_bound(a: TypeEnv, b: TypeEnv) -> bool {
    forall|n: Seq<char>| #![trigger b.binds_here(n)] a.binds_here(n) ==> b.binds_here(n)
}

/// Two optional types are both absent or structurally equal.
pub open spec fn opt_ty_eq(a: Option<Type>, b: Option<Type>) -> bool {
    match (a, b) {
        (Some(x), Some(y)) => ty_eq(x, y),
        (None, None) => true,
        _ => false,
    }
}

pub struct TypeEnv {
    scopes: Vec<Vec<(String, Type)>>,
}

impl TypeEnv {
    /// The scopes, outermost first.
    pub closed spec fn scopes(self) -> Seq<Seq<(String, Type)>> {
        self.scopes@.map_values(|s: Vec<(String, Type)>| s@)
    }

    /// There is always a scope, and no scope binds a name twice.
    pub closed spec fn wf(self) -> bool {
        &&& self.scopes@.len() >= 1
        &&& forall|k: int| 0 <= k < self.scopes@.len() ==> unique_names(#[trigger] self.scopes@[k]@)
    }

    /// The type `name` is bound to.
    pub open spec fn binding(self, name: Seq<char>) -> Option<Type> {
        scopes_lookup(self.scopes(), name)
    }

    /// Whether the innermost scope binds `name`.
    pub open spec fn binds_here(self, name: Seq<char>) -> bool {
        field_index(self.scopes().last(), name) >= 0
    }

    /// Number of scopes.
    pub open spec fn depth(self) -> nat {
        self.scopes().len()
    }

    /// An environment of one scope holding the built-in types and `console`.
    pub fn new() -> (env: Self)
        ensures
            env.wf(),
            env.depth() == 1,
            env.binding("number"@) == Some(Type::Number),
            env.binding("string"@) == Some(Type::String),
            env.binding("boolean"@) == Some(Type::Boolean),
            env.binding("null"@) == Some(Type::Null),
            env.binding("undefined"@) == Some(Type::Undefined),
            env.binding("void"@) == Some(Type::Void),
            env.binding("any"@) == Some(Type::Any),
            env.binding("never"@) == Some(Type::Never),
            env.binding("console"@) == Some(Type::Any),
    {
        proof {
            reveal_strlit("number");
            reveal_strlit("string");
            reveal_strlit("boolean");
            reveal_strlit("null");
            reveal_strlit("undefined");
            reveal_strlit("void");
            reveal_strlit("any");
            reveal_strlit("never");
            reveal_strlit("console");
            assert("number"@[0] != "string"@[0]);
            assert("boolean"@[0] != "console"@[0]);
            assert("null"@[0] != "void"@[0]);
            assert("number"@.len() != "null"@.len());
            assert("number"@.len() != "never"@.len());
            assert("number"@[2] != "null"@[2]);
            assert("number"@[1] != "never"@[1]);
        }
        let mut scopes: Vec<Vec<(String, Type)>> = Vec::new();
        scopes.push(Vec::new());
        let mut env = TypeEnv { scopes };
        assert(env.scopes()[0].len() == 0);
        assert forall|n: Seq<char>| !#[trigger] env.binds_here(n) by {
            lemma_field_index(env.scopes().last(), n);
        }
        let _ = env.declare("number", Type::Number);
        let _ = env.declare("string", Type::String);
        assert(env.binding("number"@) == Some(Type::Number));
        let _ = env.declare("boolean", Type::Boolean);
        assert(env.binding("number"@) == Some(Type::Number));
        let _ = env.declare("null", Type::Null);
        assert(env.binding("number"@) == Some(Type::Number));
        let _ = env.declare("undefined", Type::Undefined);
        assert(env.binding("number"@) == Some(Type::Number));
        let _ = env.declare("void", Type::Void);
        assert(env.binding("number"@) == Some(Type::Number));
        let _ = env.declare("any", Type::Any);
        assert(env.binding("number"@) == Some(Type::Number));
        let _ = env.declare("never", Type::Never);
        assert(env.binding("number"@) == Some(Type::Number));
        let _ = env.declare("console", Type::Any);
        assert(env.binding("number"@) == Some(Type::Number));
        env
    }

    /// Binds `name` to `t` in the innermost scope; a name already bound
    /// there is refused with a message and nothing changes.
    pub fn declare(&mut self, name: &str, t: Type) -> (r: Result<(), String>)
        requires
            old(self).wf(),
        ensures
            final(self).wf(),
            final(self).depth() == old(self).depth(),
            final(self).binds_here(name@),
            keeps_bound(*old(self), *final(self)),
            old(self).binds_here(name@) ==> {
                &&& r matches Err(msg) && msg@ == "Duplicate identifier '"@ + name@ + "'"@
                &&& final(self).scopes() == old(self).scopes()
            },
            !old(self).binds_here(name@) ==> {
                &&& r is Ok
                &&& final(self).scopes().drop_last() == old(self).scopes().drop_last()
                &&& final(self).scopes().last().drop_last() == old(self).scopes().last()
                &&& final(self).scopes().last().last().0@ == name@
                &&& final(self).scopes().last().last().1 == t
                &&& final(self).binding(name@) == Some(t)
                &&& forall|other: Seq<char>|
                    other != name@ ==> #[trigger] final(self).binding(other) == old(self).binding(
                        other,
                    )
                &&& forall|other: Seq<char>|
                    other != name@ ==> #[trigger] final(self).binds_here(other) == old(
                        self,
                    ).binds_here(other)
            },
    {
        let mut scope = self.scopes.pop().unwrap();
        let key = crate::text::string_of_str(name);
        match find_field(&scope, &key) {
            Some(_) => {
                self.scopes.push(scope);
                let mut msg = String::new();
                msg.push_str("Duplicate identifier '");
                msg.push_str(name);
                msg.push_str("'");
                assert(self.scopes@ =~= old(self).scopes@);
                Err(msg)
            },
            None => {
                proof {
                    lemma_field_index(scope@, name@);
                }
                let ghost old_scope = scope@;
                scope.push((key, t));
                self.scopes.push(scope);
                proof {
                    let olds = old(self).scopes();
                    let news = self.scopes();
                    assert(news.drop_last() =~= olds.drop_last());
                    assert(news.last() == old_scope.push((key, t)));
                    assert(old_scope == olds.last());
                    assert(news.last().drop_last() =~= olds.last());
                    lemma_field_index(news.last(), name@);
                    assert(news.last()[old_scope.len() as int].0@ == name@);
                    if field_index(news.last(), name@) < old_scope.len() {
                        let i = field_index(news.last(), name@);
                        assert(news.last()[i] == old_scope[i]);
                    }
                    assert forall|other: Seq<char>|
                        #![trigger self.binding(other)]
                        #![trigger self.binds_here(other)]
                        other != name@ implies self.binding(other) == old(self).binding(other)
                            && self.binds_here(other) == old(self).binds_here(other) by {
                        lemma_field_index(news.last(), other);
                        lemma_field_index(olds.last(), other);
                        let i = field_index(news.last(), other);
                        let j = field_index(olds.last(), other);
                        assert(news.last()[old_scope.len() as int].0@ == name@);
                        if i >= 0 {
                            assert(i != old_scope.len());
                            assert(news.last()[i] == olds.last()[i]);
                            assert(j >= 0);
                            if j < i {
                                assert(news.last()[j] == olds.last()[j]);
                            }
                            if i < j {
                                assert(olds.last()[i].0@ == other);
                            }
                            assert(i == j);
                        }
                        if j >= 0 {
                            assert(news.last()[j] == olds.last()[j]);
                            assert(i >= 0);
                        }
                        assert(news.drop_last() == olds.drop_last());
                    }
                    assert forall|k: int| 0 <= k < self.scopes@.len() implies unique_names(
                        #[trigger] self.scopes@[k]@,
                    ) by {
                        if k == self.scopes@.len() - 1 {
                            assert(self.scopes@[k]@ == old_scope.push((key, t)));
                            assert forall|a: int, b: int|
                                0 <= a < b < self.scopes@[k]@.len() implies (#[trigger] self.scopes@[k]@[a]).0@
                                != (#[trigger] self.scopes@[k]@[b]).0@ by {
                                if b == old_scope.len() {
                                    assert(old_scope[a].0@ != name@);
                                } else {
                                    assert(old(self).scopes@[k]@ == old_scope);
                                }
                            }
                        } else {
                            assert(self.scopes@[k] == old(self).scopes@[k]);
                        }
                    }
                }
                Ok(())
            },
        }
    }

    /// The type bound to `name` in the innermost scope that binds it.
    pub fn lookup(&self, name: &str) -> (r: Option<Type>)
        requires
            self.wf(),
        ensures
            opt_ty_eq(r, self.binding(name@)),
    {
        let key = crate::text::string_of_str(name);
        let mut k: usize = self.scopes.len();
        assert(self.scopes().subrange(0, k as int) =~= self.scopes());
        while k > 0
            invariant
                k <= self.scopes@.len(),
                key@ == name@,
                scopes_lookup(self.scopes(), name@) == scopes_lookup(
                    self.scopes().subrange(0, k as int),
                    name@,
                ),
            decreases k,
        {
            let ghost pre = self.scopes().subrange(0, k as int);
            assert(pre.last() == self.scopes@[k - 1]@);
            assert(pre.drop_last() =~= self.scopes().subrange(0, k - 1));
            proof {
                lemma_field_index(self.scopes@[k - 1]@, name@);
            }
            match find_field(&self.scopes[k - 1], &key) {
                Some(i) => {
                    return Some(self.scopes[k - 1][i].1.clone());
                },
                None => {},
            }
            k -= 1;
        }
        None
    }

    /// Enters a new, empty innermost scope.
    pub fn push_scope(&mut self)
        requires
            old(self).wf(),
        ensures
            final(self).wf(),
            final(self).scopes() == old(self).scopes().push(Seq::empty()),
            final(self).depth() > 1,
    {
        self.scopes.push(Vec::new());
        assert(self.scopes() =~= old(self).scopes().push(Seq::empty()));
    }

    /// Leaves the innermost scope; the outermost scope is never left.
    pub fn pop_scope(&mut self)
        requires
            old(self).wf(),
        ensures
            final(self).wf(),
            old(self).depth() > 1 ==> final(self).scopes() == old(self).scopes().drop_last(),
            old(self).depth() == 1 ==> final(self).scopes() == old(self).scopes(),
    {
        if self.scopes.len() > 1 {
            self.scopes.pop();
            assert(self.scopes() =~= old(self).scopes().drop_last());
        }
    }
}

impl Default for TypeEnv {
    fn default() -> (env: Self)
        ensures
            env.wf(),
            env.depth() == 1,
            env.binding("number"@) == Some(Type::Number),
            env.binding("any"@) == Some(Type::Any),
    {
        TypeEnv::new()
    }
}

/// An empty innermost scope hides nothing: every name is bound as before.
pub proof fn law_empty_scope_transparent(scopes: Seq<Seq<(String, Type)>>, name: Seq<char>)
    ensures
        scopes_lookup(scopes.push(Seq::empty()), name) == scopes_lookup(scopes, name),
{
    lemma_field_index(Seq::<(String, Type)>::empty(), name);
    assert(scopes.push(Seq::empty()).drop_last() =~= scopes);
}

/// Leaving a scope undoes entering it: after `push_scope` then `pop_scope`
/// the scopes, and so every binding, are as before.
pub proof fn law_pop_undoes_push(scopes: Seq<Seq<(String, Type)>>)
    ensures
        scopes.push(Seq::empty()).drop_last() == scopes,
{
    assert(scopes.push(Seq::empty()).drop_last() =~= scopes);
}

/// A name bound in the innermost scope is found with the type it was bound
/// to, whatever outer scopes bind: an inner declaration shadows.
pub proof fn law_declared_is_found(
    scopes: Seq<Seq<(String, Type)>>,
    name: String,
    t: Type,
)
    requires
        scopes.len() >= 1,
        field_index(scopes.last(), name@) < 0,
    ensures
        scopes_lookup(scopes.drop_last().push(scopes.last().push((name, t))), name@) == Some(t),
{
    let inner = scopes.last().push((name, t));
    let s2 = scopes.drop_last().push(inner);
    lemma_field_index(scopes.last(), name@);
    lemma_field_index(inner, name@);
    assert(s2.last() == inner);
    assert(inner[inner.len() - 1].0@ == name@);
    assert forall|j: int| 0 <= j < inner.len() - 1 implies (#[trigger] inner[j]).0@ != name@ by {
        assert(inner[j] == scopes.last()[j]);
    }
    assert(field_index(inner, name@) == inner.len() - 1);
}

/// Leaving the scope of a shadowing declaration brings back the outer
/// binding.
pub proof fn law_leaving_scope_restores(
    scopes: Seq<Seq<(String, Type)>>,
    inner: Seq<(String, Type)>,
    name: Seq<char>,
)
    ensures
        scopes_lookup(scopes.push(inner), name) == (if field_index(inner, name) >= 0 {
            Some(inner[field_index(inner, name)].1)
        } else {
            scopes_lookup(scopes, name)
        }),
        scopes.push(inner).drop_last() == scopes,
{
    assert(scopes.push(inner).drop_last() =~= scopes);
}

/// Keeping the bound names composes, and an environment with the same
/// scopes binds the same names.
pub proof fn lemma_keeps_bound_chain(a: TypeEnv, b: TypeEnv, c: TypeEnv)
    requires
        keeps_bound(a, b),
        keeps_bound(b, c) || b.scopes() == c.scopes(),
    ensures
        keeps_bound(a, c),
{
    assert forall|n: Seq<char>| a.binds_here(n) implies #[trigger] c.binds_here(n) by {
        assert(b.binds_here(n));
    }
}

/// An environment keeps the names bound in itself.
pub proof fn lemma_keeps_bound_refl(a: TypeEnv)
    ensures
        keeps_bound(a, a),
{
}

} // verus!
