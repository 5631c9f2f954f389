//! Checking statements: declarations against their annotations, returns
//! against the function's return type, switch cases against the
//! discriminant, and the scopes that blocks, loops and functions open.
use vstd::prelude::*;

use crate::ast::{
    BinaryOp, ClassBody, EnumMember, Expression, ForInit, ImportSpecifier, LiteralValue,
    MethodKind, Program, PropertyKey, Statement, UnaryOp, VariableDeclarator,
};
use crate::codegen::printed::unvalued;
use crate::token::Span;
use crate::type_checker::env::{keeps_bound, TypeEnv};
use crate::type_checker::error::TypeError;
use crate::type_checker::infer::infer_expr::{
    implicit_anys_reported, inference_reported, infers_simply, lemma_implicit_anys_from, lemma_implicit_anys_kept,
    literal_type, simple_type,
};
use crate::type_checker::infer::narrow::{falsy, removed, truthy, typeof_target};
use crate::type_checker::infer::types::resolved_in_env;
use crate::type_checker::ty::{assignable, converts};
use crate::type_checker::infer::rules::{bare_return_error, check_assignable, declared_type, is_refusal};
use crate::type_checker::ty::{field_index, find_field, ty_eq, type_eq, Type};
use crate::type_checker::{errors_grow, TypeChecker};

verus! {

/// The registry key under which an import names its module: a relative
/// source joined to the directory of the current module, with the `.ts`
/// extension; a source that a path alias resolves, joined to the root; any
/// other source as it is.
pub open spec fn module_key_of(
    current: Seq<char>,
    root: Seq<char>,
    source: Seq<char>,
    options: crate::config::CompilerOptions,
) -> Seq<char> {
    if source.len() > 0 && source[0] == '.' && current.len() > 0 {
        let dir = match crate::paths::parent(current) {
            Some(d) => d,
            None => current,
        };
        crate::paths::with_extension(crate::config::path_join(dir, source), "ts"@)
    } else if (options.paths matches Some(paths) ==> crate::config::suffix_on_boundary(
        crate::config::paths_view(paths@),
        source,
        0,
    )) {
        match crate::config::resolve_path_alias_spec(source, options) {
            Some(r) => crate::config::path_join(root, r),
            None => source,
        }
    } else {
        source
    }
}

/// What checking a statement may do to the environment: keep its depth,
/// change only the innermost scope, and unbind nothing there.
pub open spec fn inner_only(old_env: TypeEnv, new_env: TypeEnv) -> bool {
    &&& new_env.wf()
    &&& new_env.depth() == old_env.depth()
    &&& new_env.scopes().drop_last() == old_env.scopes().drop_last()
    &&& keeps_bound(old_env, new_env)
}

// ── Type guards ───────────────────────────────────────────────────────────
/// A guard as a name and a type.
pub open spec fn gview(r: Option<(String, Type)>) -> Option<(Seq<char>, Type)> {
    match r {
        Some(p) => Some((p.0@, p.1)),
        None => None,
    }
}

/// `typeof x === "..."`: `x` and the type the string names.
pub open spec fn typeof_guard(unary: Expression, literal: Expression) -> Option<(Seq<char>, Type)> {
    match (unary, literal) {
        (
            Expression::UnaryExpression { operator: UnaryOp::TypeOf, operand, .. },
            Expression::StringLiteral { value, .. },
        ) => match *operand {
            Expression::Identifier { name, .. } => match typeof_target(value@) {
                Some(t) => Some((name@, t)),
                None => None,
            },
            _ => None,
        },
        _ => None,
    }
}

/// `x === v` for a literal `v`: `x` and the type of `v`, when `x` is bound
/// to a type related to it (one assignable to the other).
pub open spec fn eq_guard(name_expr: Expression, value_expr: Expression, env: TypeEnv) -> Option<
    (Seq<char>, Type),
> {
    match name_expr {
        Expression::Identifier { name, .. } => match literal_type(value_expr) {
            Some(target) => match env.binding(name@) {
                Some(b) => if assignable(b, target) || assignable(target, b) {
                    Some((name@, target))
                } else {
                    None
                },
                None => None,
            },
            None => None,
        },
        _ => None,
    }
}

/// The type `x !== v` takes out of `x`: `null` or `undefined`.
pub open spec fn nullish_value(e: Expression) -> Option<Type> {
    match e {
        Expression::NullLiteral { .. } => Some(Type::Null),
        Expression::UndefinedLiteral { .. } => Some(Type::Undefined),
        _ => None,
    }
}

/// How a guard narrows the type of a name.
pub enum Narrowing {
    /// What `if (x)` leaves.
    Truthy,
    /// What `if (!x)` leaves.
    Falsy,
    /// What `x !== v` leaves: the type without that of `v`.
    Without(Type),
}

/// `t` is what `how` leaves of `o`.
pub open spec fn narrows(how: Narrowing, o: Type, t: Type) -> bool {
    match how {
        Narrowing::Truthy => truthy(o, t),
        Narrowing::Falsy => falsy(o, t),
        Narrowing::Without(rm) => removed(o, rm, t),
    }
}

/// `r` narrows `name`, bound to `b`, as `how` does: to what is left when
/// that differs from the type (up to structural equality); nothing when
/// nothing changes.
pub open spec fn narrowed_by(
    name: Seq<char>,
    b: Type,
    r: Option<(Seq<char>, Type)>,
    how: Narrowing,
) -> bool {
    match r {
        Some(g) => g.0 == name && exists|o: Type| #[trigger] ty_eq(o, b) && narrows(how, o, g.1)
            && !ty_eq(g.1, o),
        None => exists|o: Type, t: Type| #[trigger] ty_eq(o, b) && #[trigger] narrows(how, o, t)
            && ty_eq(t, o),
    }
}

/// `x !== null` (or `undefined`): `x` without it, when that changes `x`.
pub open spec fn neq_guard(
    name_expr: Expression,
    value_expr: Expression,
    env: TypeEnv,
    r: Option<(Seq<char>, Type)>,
) -> bool {
    match (name_expr, nullish_value(value_expr)) {
        (Expression::Identifier { name, .. }, Some(rm)) => match env.binding(name@) {
            Some(b) => narrowed_by(name@, b, r, Narrowing::Without(rm)),
            None => r is None,
        },
        _ => r is None,
    }
}

/// What the condition of an `if` narrows, where it holds: see
/// `detect_type_guard`.
pub open spec fn guard_of(expr: Expression, env: TypeEnv, r: Option<(Seq<char>, Type)>) -> bool {
    match expr {
        Expression::BinaryExpression { left, operator, right, .. } => match operator {
            BinaryOp::StrictEq | BinaryOp::Eq => r == (if typeof_guard(*left, *right) is Some {
                typeof_guard(*left, *right)
            } else if typeof_guard(*right, *left) is Some {
                typeof_guard(*right, *left)
            } else if eq_guard(*left, *right, env) is Some {
                eq_guard(*left, *right, env)
            } else {
                eq_guard(*right, *left, env)
            }),
            BinaryOp::StrictNotEq | BinaryOp::NotEq => {
                ||| neq_guard(*left, *right, env, r) && r is Some
                ||| neq_guard(*left, *right, env, None) && neq_guard(*right, *left, env, r)
            },
            BinaryOp::Instanceof => match (*left, *right) {
                (Expression::Identifier { name, .. }, Expression::Identifier { name: class, .. }) => {
                    &&& r matches Some(g)
                    &&& g.0 == name@
                    &&& match env.binding(class@) {
                        Some(b) => ty_eq(g.1, b),
                        None => g.1 is Any,
                    }
                },
                _ => r is None,
            },
            _ => r is None,
        },
        Expression::Identifier { name, .. } => match env.binding(name@) {
            Some(b) => narrowed_by(name@, b, r, Narrowing::Truthy),
            None => r is None,
        },
        Expression::UnaryExpression { operator: UnaryOp::Not, operand, .. } => match *operand {
            Expression::Identifier { name, .. } => match env.binding(name@) {
                Some(b) => narrowed_by(name@, b, r, Narrowing::Falsy),
                None => r is None,
            },
            _ => r is None,
        },
        _ => r is None,
    }
}

/// A declarator with a plain annotation and an initializer whose type
/// follows from it alone (see `simple_type`): the name gets the annotated
/// type, and the initializer is refused (once, at the declarator) exactly
/// when its type is not assignable to it.
pub open spec fn annotated_simple_checked(
    decl: VariableDeclarator,
    before: Seq<TypeError>,
    after: Seq<TypeError>,
    bound: Option<Type>,
) -> bool {
    match (decl.type_ann, decl.init) {
        (Some(a), Some(e)) => (!resolved_in_env(a) && simple_type(*e) is Some) ==> exists|t: Type|
            #[trigger] converts(a, t) && bound == Some(t) && (if assignable(simple_type(*e)->0, t) {
                after == before
            } else {
                &&& after.len() == before.len() + 1
                &&& after.drop_last() == before
                &&& is_refusal(after.last(), simple_type(*e)->0, t, decl.span)
            }),
        _ => true,
    }
}

/// A `return` of a value whose type follows from it alone, or a bare
/// `return`, checked against the expected return type: refused (once, at
/// the statement) exactly when that type is not assignable to it, or, for a
/// bare `return`, when it is neither `void` nor `any`; nothing is checked
/// outside a function.
pub open spec fn return_checked(
    stmt: Statement,
    expected: Option<Type>,
    before: Seq<TypeError>,
    after: Seq<TypeError>,
) -> bool {
    match stmt {
        Statement::ReturnStatement { value, span } => match value {
            Some(v) => simple_type(*v) matches Some(lt) ==> match expected {
                Some(x) => if assignable(lt, x) {
                    after == before
                } else {
                    &&& after.len() == before.len() + 1
                    &&& after.drop_last() == before
                    &&& is_refusal(after.last(), lt, x, span)
                },
                None => after == before,
            },
            None => match expected {
                Some(x) => if x is Void || x is Any {
                    after == before
                } else {
                    &&& after.len() == before.len() + 1
                    &&& after.drop_last() == before
                    &&& after.last() matches TypeError::NotAssignable { target: t, value: w, span: s }
                    &&& t@ == crate::type_checker::ty::type_text(x)
                    &&& w@ == "void"@
                    &&& s == span
                },
                None => after == before,
            },
        },
        _ => true,
    }
}

/// A declaration of one fresh plain name is checked as its declarator is
/// (see `annotated_simple_checked`).
pub open spec fn single_declaration_checked(
    stmt: Statement,
    env_before: TypeEnv,
    before: Seq<TypeError>,
    after: Seq<TypeError>,
    env_after: TypeEnv,
) -> bool {
    stmt matches Statement::VariableDeclaration { declarations, .. } ==> (declarations@.len() == 1
        ==> (plain_name(*declarations@[0].id) matches Some(n) ==> (!env_before.binds_here(n)
        ==> annotated_simple_checked(declarations@[0], before, after, env_after.binding(n)))))
}

/// `after` holds, past the first `before.len()` errors, a report that
/// `name` is declared twice.
pub open spec fn duplicate_among(name: Seq<char>, before: Seq<TypeError>, after: Seq<TypeError>) -> bool {
    exists|k: int|
        before.len() <= k < after.len() && (#[trigger] after[k] matches TypeError::DuplicateIdentifier(
            msg,
            _,
        ) && msg@ == "Duplicate identifier '"@ + name + "'"@)
}

/// A report stays among the errors as more errors are added.
pub proof fn lemma_duplicate_kept(name: Seq<char>, a: Seq<TypeError>, b: Seq<TypeError>, c: Seq<TypeError>)
    requires
        duplicate_among(name, a, b),
        errors_grow(b, c),
    ensures
        duplicate_among(name, a, c),
{
    let k = choose|k: int|
        a.len() <= k < b.len() && (#[trigger] b[k] matches TypeError::DuplicateIdentifier(
            msg,
            _,
        ) && msg@ == "Duplicate identifier '"@ + name + "'"@);
    assert(c[k] == b[k]);
}

/// A function declaration's parameters without an annotation are reported
/// in strict mode (see `implicit_anys_reported`).
pub open spec fn params_reported(stmt: Statement, strict: bool, before: Seq<TypeError>, after: Seq<TypeError>) -> bool {
    stmt matches Statement::FunctionDeclaration { params, .. } ==> implicit_anys_reported(
        params@,
        params@.len() as int,
        strict,
        before,
        after,
    )
}

/// An empty block.
pub open spec fn body_is_empty_block(s: Statement) -> bool {
    s matches Statement::BlockStatement { body, .. } && body@.len() == 0
}

/// What checking a function declaration reports: in strict mode each
/// parameter without an annotation, and the function's name when the
/// current scope already binds it; a function with no type parameters,
/// parameters or return type and an empty body reports that and nothing
/// else.
pub open spec fn function_reported(
    stmt: Statement,
    env_before: TypeEnv,
    strict: bool,
    before: Seq<TypeError>,
    after: Seq<TypeError>,
) -> bool {
    stmt matches Statement::FunctionDeclaration { name, params, type_params, return_type, body, .. } ==> {
        &&& implicit_anys_reported(params@, params@.len() as int, strict, before, after)
        &&& env_before.binds_here(name@) ==> duplicate_among(name@, before, after)
        &&& type_params@.len() == 0 && params@.len() == 0 && return_type is None
            && body_is_empty_block(*body) ==> if env_before.binds_here(name@) {
            &&& after.len() == before.len() + 1
            &&& after.drop_last() == before
            &&& after.last() matches TypeError::DuplicateIdentifier(msg, _) && msg@
                == "Duplicate identifier '"@ + name@ + "'"@
        } else {
            after == before
        }
    }
}

/// The name a declarator binds when it is a plain name.
pub open spec fn plain_name(e: Expression) -> Option<Seq<char>> {
    match e {
        Expression::Identifier { name, .. } => Some(name@),
        _ => None,
    }
}

/// The names that a declaration statement binds in the current scope are
/// bound there in `env`: those of its plain declarators, its function,
/// class, enum or type alias name, its imported names; an export binds
/// what it exports.
pub open spec fn binds_declared(s: Statement, env: TypeEnv) -> bool
    decreases s,
{
    match s {
        Statement::VariableDeclaration { declarations, .. } => forall|j: int|
            0 <= j < declarations@.len() ==> (#[trigger] plain_name(*declarations@[j].id)
                matches Some(n) ==> env.binds_here(n)),
        Statement::FunctionDeclaration { name, .. } => env.binds_here(name@),
        Statement::ClassDeclaration { name, .. } => env.binds_here(name@),
        Statement::EnumDeclaration { name, .. } => env.binds_here(name@),
        Statement::TypeAliasDeclaration { name, .. } => env.binds_here(name@),
        Statement::ImportDeclaration { specifiers, .. } => forall|j: int|
            0 <= j < specifiers@.len() ==> env.binds_here(#[trigger] specifiers@[j].local@),
        Statement::ExportDeclaration { declaration, .. } => binds_declared(*declaration, env),
        _ => true,
    }
}

/// Names bound stay bound as long as nothing is unbound.
pub proof fn lemma_binds_declared_kept(s: Statement, a: TypeEnv, b: TypeEnv)
    requires
        binds_declared(s, a),
        keeps_bound(a, b),
    ensures
        binds_declared(s, b),
    decreases s,
{
    match s {
        Statement::VariableDeclaration { declarations, .. } => {
            assert forall|j: int|
                0 <= j < declarations@.len() implies (#[trigger] plain_name(*declarations@[j].id)
                matches Some(n) ==> b.binds_here(n)) by {
                match plain_name(*declarations@[j].id) {
                    Some(n) => {
                        assert(a.binds_here(n));
                    },
                    None => {},
                }
            }
        },
        Statement::ImportDeclaration { specifiers, .. } => {
            assert forall|j: int| 0 <= j < specifiers@.len() implies b.binds_here(
                #[trigger] specifiers@[j].local@,
            ) by {
                assert(a.binds_here(specifiers@[j].local@));
            }
        },
        Statement::ExportDeclaration { declaration, .. } => {
            lemma_binds_declared_kept(*declaration, a, b);
        },
        _ => {},
    }
}

/// `after` is `before` with the report of `name` declared twice in one
/// scope, at `span`.
pub open spec fn duplicate_reported(
    before: Seq<TypeError>,
    after: Seq<TypeError>,
    name: Seq<char>,
    span: Span,
) -> bool {
    &&& after.len() == before.len() + 1
    &&& after.drop_last() == before
    &&& after.last() matches TypeError::DuplicateIdentifier(msg, at)
    &&& msg@ == "Duplicate identifier '"@ + name + "'"@
    &&& at == span
}

/// Binds `name` to `t` among the narrowed names, replacing an earlier entry.
fn narrow_insert(narrowed: &mut Vec<(String, Type)>, name: String, t: Type)
    ensures
        ({
            let k = field_index(old(narrowed)@, name@);
            if k >= 0 {
                final(narrowed)@ == old(narrowed)@.update(k, (name, t))
            } else {
                final(narrowed)@ == old(narrowed)@.push((name, t))
            }
        }),
{
    match find_field(narrowed, &name) {
        Some(i) => {
            narrowed.set(i, (name, t));
        },
        None => narrowed.push((name, t)),
    }
}

/// Removes the entry for `name` from the narrowed names.
fn narrow_remove(narrowed: &mut Vec<(String, Type)>, name: &String)
    ensures
        ({
            let k = field_index(old(narrowed)@, name@);
            if k >= 0 {
                final(narrowed)@ == old(narrowed)@.remove(k)
            } else {
                final(narrowed)@ == old(narrowed)@
            }
        }),
{
    match find_field(narrowed, name) {
        Some(i) => {
            narrowed.remove(i);
        },
        None => {},
    }
}

/// How many times `c` occurs in `v`.
pub open spec fn count_char(v: Seq<char>, c: char) -> nat
    decreases v.len(),
{
    if v.len() == 0 {
        0
    } else {
        count_char(v.drop_last(), c) + (if v.last() == c {
            1nat
        } else {
            0nat
        })
    }
}

/// How many decimal digits `v` holds.
pub open spec fn count_digits(v: Seq<char>) -> nat
    decreases v.len(),
{
    if v.len() == 0 {
        0
    } else {
        count_digits(v.drop_last()) + (if '0' <= v.last() <= '9' {
            1nat
        } else {
            0nat
        })
    }
}

/// `v` is a numeral: digits with at most one `.`, and at least one digit.
pub open spec fn is_numeral(v: Seq<char>) -> bool {
    &&& forall|i: int| 0 <= i < v.len() ==> (#[trigger] v[i] == '.' || '0' <= v[i] <= '9')
    &&& count_char(v, '.') <= 1
    &&& count_digits(v) >= 1
}

/// A numeral `digits[.digits]` in canonical form, if `s` is one.
fn parse_numeral(s: &String) -> (r: Option<String>)
    ensures
        r is Some <==> is_numeral(s@),
        r matches Some(x) ==> x@ == crate::lexer::canonical_numeral(s@),
{
    let v = crate::text::chars_of(s.as_str());
    if v.len() == 0 {
        return None;
    }
    let mut i: usize = 0;
    let mut dots: usize = 0;
    let mut digits: usize = 0;
    while i < v.len()
        invariant
            i <= v.len(),
            v@ == s@,
            dots <= i,
            digits <= i,
            dots == count_char(v@.take(i as int), '.'),
            digits == count_digits(v@.take(i as int)),
            forall|k: int| 0 <= k < i ==> (#[trigger] v@[k] == '.' || '0' <= v@[k] <= '9'),
        decreases v.len() - i,
    {
        assert(v@.take(i + 1).drop_last() =~= v@.take(i as int));
        if v[i] == '.' {
            dots += 1;
        } else if '0' <= v[i] && v[i] <= '9' {
            digits += 1;
        } else {
            return None;
        }
        i += 1;
    }
    assert(v@.take(v.len() as int) =~= v@);
    if dots > 1 || digits == 0 {
        return None;
    }
    assert(v@.subrange(0, v.len() as int) =~= v@);
    Some(crate::lexer::canonical_numeral_exec(&v, 0, v.len()))
}

/// A quote character.
pub open spec fn is_quote(c: char) -> bool {
    c == '"' || c == '\''
}

/// `r` is `s` without its leading and trailing quote characters.
pub open spec fn quotes_trimmed(s: Seq<char>, r: Seq<char>) -> bool {
    exists|a: int, b: int|
        {
            &&& 0 <= a <= b <= s.len()
            &&& r == s.subrange(a, b)
            &&& forall|k: int| 0 <= k < a ==> is_quote(#[trigger] s[k])
            &&& forall|k: int| b <= k < s.len() ==> is_quote(#[trigger] s[k])
            &&& a < s.len() ==> !is_quote(s[a])
            &&& a < b ==> !is_quote(s[b - 1])
        }
}

/// The type of an enum member that is the `k`-th (from 0) without a value:
/// with none, the number `k`; with a numeral, that number; with any other
/// value, that string (without quotes around it).
pub open spec fn enum_member_typed(m: EnumMember, k: nat, t: Type) -> bool {
    match m.value {
        None => t matches Type::Literal(LiteralValue::Number(n)) && n@ == crate::text::decimal(k),
        Some(v) => if v@.len() > 0 && is_quote(v@[0]) {
            t matches Type::Literal(LiteralValue::String(x)) && quotes_trimmed(v@, x@)
        } else if is_numeral(v@) {
            t matches Type::Literal(LiteralValue::Number(n)) && n@ == crate::lexer::canonical_numeral(v@)
        } else {
            t matches Type::Literal(LiteralValue::String(x)) && x@ == v@
        },
    }
}

/// `ms` are the members of the enum type of `members`: their names, in
/// order, each with its member type.
pub open spec fn enum_members_typed(members: Seq<EnumMember>, ms: Seq<(String, Type)>) -> bool {
    &&& ms.len() == members.len()
    &&& forall|j: int|
        0 <= j < ms.len() ==> (#[trigger] ms[j]).0@ == members[j].name@ && enum_member_typed(
            members[j],
            unvalued(members.take(j)),
            ms[j].1,
        )
}

/// `s` without leading and trailing quote characters.
fn trim_quotes(s: &String) -> (r: String)
    ensures
        quotes_trimmed(s@, r@),
{
    let v = crate::text::chars_of(s.as_str());
    let mut a: usize = 0;
    while a < v.len() && (v[a] == '"' || v[a] == '\'')
        invariant
            a <= v.len(),
            v@ == s@,
            forall|k: int| 0 <= k < a ==> is_quote(#[trigger] s@[k]),
        decreases v.len() - a,
    {
        a += 1;
    }
    let mut b: usize = v.len();
    while b > a && (v[b - 1] == '"' || v[b - 1] == '\'')
        invariant
            a <= b <= v.len(),
            v@ == s@,
            forall|k: int| 0 <= k < a ==> is_quote(#[trigger] s@[k]),
            a < v.len() ==> !is_quote(s@[a as int]),
            forall|k: int| b <= k < s@.len() ==> is_quote(#[trigger] s@[k]),
        decreases b,
    {
        b -= 1;
    }
    crate::text::string_from_chars(&v, a, b)
}

impl TypeChecker {
    /// Checks every statement of a program, in order.
    pub fn check(&mut self, program: &Program, env: &mut TypeEnv)
        requires
            old(env).wf(),
        ensures
            inner_only(*old(env), *final(env)),
            errors_grow(old(self).errors@, final(self).errors@),
            old(self).same_setting(*final(self)),
            forall|j: int|
                0 <= j < program.body@.len() ==> binds_declared(
                    #[trigger] program.body@[j],
                    *final(env),
                ),
            forall|j: int|
                0 <= j < program.body@.len() ==> params_reported(
                    #[trigger] program.body@[j],
                    old(self).options.strict == Some(true),
                    old(self).errors@,
                    final(self).errors@,
                ),
    {
        self.check_statements(&program.body, env);
    }

    /// Checks statements one after another in the current scope.
    pub fn check_statements(&mut self, stmts: &Vec<Statement>, env: &mut TypeEnv)
        requires
            old(env).wf(),
        ensures
            inner_only(*old(env), *final(env)),
            errors_grow(old(self).errors@, final(self).errors@),
            old(self).same_setting(*final(self)),
            forall|j: int| 0 <= j < stmts@.len() ==> binds_declared(#[trigger] stmts@[j], *final(env)),
            stmts@.len() == 0 ==> *final(self) == *old(self) && *final(env) == *old(env),
            forall|j: int|
                0 <= j < stmts@.len() ==> params_reported(
                    #[trigger] stmts@[j],
                    old(self).options.strict == Some(true),
                    old(self).errors@,
                    final(self).errors@,
                ),
        decreases stmts@, 0nat,
    {
        let mut i: usize = 0;
        while i < stmts.len()
            invariant
                i == 0 ==> *self == *old(self) && *env == *old(env),
                i <= stmts.len(),
                inner_only(*old(env), *env),
                errors_grow(old(self).errors@, self.errors@),
                old(self).same_setting(*self),
                forall|j: int| 0 <= j < i ==> binds_declared(#[trigger] stmts@[j], *env),
                forall|j: int|
                    0 <= j < i ==> params_reported(
                        #[trigger] stmts@[j],
                        old(self).options.strict == Some(true),
                        old(self).errors@,
                        self.errors@,
                    ),
            decreases stmts.len() - i,
        {
            let ghost e0 = *env;
            let ghost errs0 = self.errors@;
            self.check_statement(&stmts[i], env);
            proof {
                let strict = old(self).options.strict == Some(true);
                assert forall|j: int| 0 <= j < i + 1 implies binds_declared(
                    #[trigger] stmts@[j],
                    *env,
                ) by {
                    if j < i {
                        lemma_binds_declared_kept(stmts@[j], e0, *env);
                    }
                }
                assert forall|j: int|
                    0 <= j < i + 1 implies params_reported(
                    #[trigger] stmts@[j],
                    strict,
                    old(self).errors@,
                    self.errors@,
                ) by {
                    match stmts@[j] {
                        Statement::FunctionDeclaration { params, .. } => {
                            if j < i {
                                lemma_implicit_anys_kept(
                                    params@,
                                    params@.len() as int,
                                    strict,
                                    old(self).errors@,
                                    errs0,
                                    self.errors@,
                                );
                            } else {
                                lemma_implicit_anys_from(
                                    params@,
                                    params@.len() as int,
                                    strict,
                                    old(self).errors@,
                                    errs0,
                                    self.errors@,
                                );
                            }
                        },
                        _ => {},
                    }
                }
            }
            i += 1;
        }
    }

    /// Checks a statement in a scope of its own.
    fn check_scoped(&mut self, stmt: &Statement, env: &mut TypeEnv)
        requires
            old(env).wf(),
        ensures
            final(env).wf(),
            final(env).scopes() == old(env).scopes(),
            errors_grow(old(self).errors@, final(self).errors@),
            old(self).same_setting(*final(self)),
            stmt is ReturnStatement ==> return_checked(
                *stmt,
                old(self).current_return_type,
                old(self).errors@,
                final(self).errors@,
            ),
        decreases stmt, 3nat,
    {
        env.push_scope();
        let ghost pushed = env.scopes();
        assert(pushed.drop_last() =~= old(env).scopes());
        self.check_statement(stmt, env);
        assert(env.depth() > 1);
        env.pop_scope();
    }

    /// Checks statements in a scope of their own.
    fn check_block(&mut self, stmts: &Vec<Statement>, env: &mut TypeEnv)
        requires
            old(env).wf(),
        ensures
            final(env).wf(),
            final(env).scopes() == old(env).scopes(),
            errors_grow(old(self).errors@, final(self).errors@),
            old(self).same_setting(*final(self)),
            stmts@.len() == 0 ==> *final(self) == *old(self),
        decreases stmts@, 1nat,
    {
        env.push_scope();
        let ghost pushed = env.scopes();
        assert(pushed.drop_last() =~= old(env).scopes());
        self.check_statements(stmts, env);
        assert(env.depth() > 1);
        env.pop_scope();
    }

    /// Binds a declared name (or the names of a pattern) to `t`.
    fn declare_target(&mut self, id: &Expression, t: Type, span: Span, env: &mut TypeEnv)
        requires
            old(env).wf(),
        ensures
            inner_only(*old(env), *final(env)),
            errors_grow(old(self).errors@, final(self).errors@),
            old(self).same_setting(*final(self)),
            *id matches Expression::Identifier { name, .. } ==> {
                &&& final(env).binds_here(name@)
                &&& !old(env).binds_here(name@) ==> final(env).binding(name@) == Some(t)
                    && final(self).errors@ == old(self).errors@
                &&& old(env).binds_here(name@) ==> duplicate_reported(
                    old(self).errors@,
                    final(self).errors@,
                    name@,
                    span,
                )
            },
    {
        match id {
            Expression::Identifier { name, .. } => {
                let ghost before = self.errors@;
                match env.declare(name.as_str(), t) {
                    Ok(()) => {},
                    Err(msg) => {
                        self.errors.push(TypeError::DuplicateIdentifier(msg, span));
                        assert(self.errors@.drop_last() =~= before);
                    },
                }
            },
            Expression::ObjectPattern { .. } | Expression::ArrayPattern { .. } => {
                self.declare_pattern_names(id, t, env, span);
            },
            _ => {},
        }
    }

    /// A declarator: its initializer is checked against its annotation, and
    /// its name bound to the annotated type, else the inferred one, else
    /// `any`.
    fn check_declarator(&mut self, decl: &VariableDeclarator, env: &mut TypeEnv)
        requires
            old(env).wf(),
        ensures
            inner_only(*old(env), *final(env)),
            errors_grow(old(self).errors@, final(self).errors@),
            old(self).same_setting(*final(self)),
            *decl.id matches Expression::Identifier { name, .. } ==> {
                &&& final(env).binds_here(name@)
                &&& !old(env).binds_here(name@) && decl.type_ann is None ==> match decl.init {
                    Some(init) => final(env).binding(name@) matches Some(t) && infers_simply(*init, t),
                    None => final(env).binding(name@) == Some(Type::Any),
                }
                &&& !old(env).binds_here(name@) ==> annotated_simple_checked(
                    *decl,
                    old(self).errors@,
                    final(self).errors@,
                    final(env).binding(name@),
                )
            },
        decreases decl, 0nat,
    {
        let inferred = match &decl.init {
            Some(init) => Some(self.infer_expression(init, env)),
            None => None,
        };
        let ghost mut resolved: Type = Type::Any;
        let ghost before_check = self.errors@;
        let declared = match &decl.type_ann {
            Some(ann) => {
                let t = self.type_ann_to_type(ann, env);
                proof {
                    resolved = t;
                }
                let ghost mid = self.errors@;
                match &inferred {
                    Some(it) => match check_assignable(it, &t, decl.span) {
                        Some(e) => {
                            self.errors.push(e);
                            assert(self.errors@.drop_last() =~= mid);
                        },
                        None => {},
                    },
                    None => {},
                }
                Some(t)
            },
            None => None,
        };
        let final_type = declared_type(declared, inferred);
        self.declare_target(&decl.id, final_type, decl.span, env);
        assert(decl.type_ann is Some && decl.init is Some && !resolved_in_env(decl.type_ann->0)
            && simple_type(*decl.init->0) is Some ==> converts(decl.type_ann->0, resolved));
    }

    /// The import bindings: each imported name is bound to the type the
    /// imported module exports under it (`any` when it is not known).
    fn check_import(&mut self, specifiers: &Vec<ImportSpecifier>, source: &String, env: &mut TypeEnv)
        requires
            old(env).wf(),
        ensures
            forall|j: int| 0 <= j < specifiers@.len() ==> final(env).binds_here(#[trigger] specifiers@[j].local@),
            inner_only(*old(env), *final(env)),
            errors_grow(old(self).errors@, final(self).errors@),
            old(self).same_setting(*final(self)),
    {
        let key = self.module_key(source);
        let mut exports: Option<usize> = None;
        let mut m: usize = 0;
        while m < self.module_registry.len() && exports.is_none()
            invariant
                m <= self.module_registry.len(),
                exports matches Some(k) ==> k < self.module_registry@.len(),
            decreases self.module_registry.len() - m,
        {
            if crate::text::str_eq(self.module_registry[m].0.as_str(), key.as_str()) {
                exports = Some(m);
            }
            m += 1;
        }
        let mut i: usize = 0;
        while i < specifiers.len()
            invariant
                i <= specifiers.len(),
                inner_only(*old(env), *env),
                errors_grow(old(self).errors@, self.errors@),
                old(self).same_setting(*self),
                exports matches Some(m) ==> m < self.module_registry@.len(),
                forall|j: int| 0 <= j < i ==> env.binds_here(#[trigger] specifiers@[j].local@),
            decreases specifiers.len() - i,
        {
            let ghost e0 = *env;
            let s = &specifiers[i];
            let name = if s.is_default {
                crate::text::string_of_str("default")
            } else {
                match &s.imported {
                    Some(im) => im.clone(),
                    None => s.local.clone(),
                }
            };
            let ty = match exports {
                Some(m) => match find_field(&self.module_registry[m].1, &name) {
                    Some(k) => self.module_registry[m].1[k].1.clone(),
                    None => Type::Any,
                },
                None => Type::Any,
            };
            let _ = env.declare(s.local.as_str(), ty);
            proof {
                assert forall|j: int| 0 <= j < i + 1 implies env.binds_here(
                    #[trigger] specifiers@[j].local@,
                ) by {
                    if j < i {
                        assert(e0.binds_here(specifiers@[j].local@));
                    }
                }
            }
            i += 1;
        }
    }

    /// The registry key of an imported module: a relative source resolved
    /// against the directory of the current module (as a `.ts` file), a
    /// path alias resolved against the project root, any other source as
    /// it is.
    pub fn module_key(&self, source: &String) -> (r: String)
        ensures
            r@ == module_key_of(self.current_module@, self.root_dir@, source@, self.options),
    {
        let starts_with_dot = {
            let v = crate::text::chars_of(source.as_str());
            v.len() > 0 && v[0] == '.'
        };
        if starts_with_dot && !self.current_module.as_str().is_empty() {
            let dir = match crate::paths::path_parent(self.current_module.as_str()) {
                Some(d) => d,
                None => self.current_module.clone(),
            };
            let joined = crate::paths::path_join(dir.as_str(), source.as_str());
            return crate::paths::path_with_extension(joined.as_str(), "ts");
        }
        if crate::config::alias_resolvable(source.as_str(), &self.options) {
            match crate::config::resolve_path_alias(source.as_str(), source.as_str(), &self.options) {
                Some(resolved) => {
                    return crate::paths::path_join(self.root_dir.as_str(), resolved.as_str());
                },
                None => {},
            }
        }
        source.clone()
    }

    /// A function declaration: its type parameters and its name are bound in
    /// the current scope; its body is checked in a scope of its own, with
    /// its parameters bound and its return type expected (the `T` of a
    /// `Promise<T>` for an async function).
    #[verifier::loop_isolation(false)]
    fn check_function(&mut self, stmt: &Statement, env: &mut TypeEnv)
        requires
            old(env).wf(),
            stmt is FunctionDeclaration,
        ensures
            binds_declared(*stmt, *final(env)),
            inner_only(*old(env), *final(env)),
            errors_grow(old(self).errors@, final(self).errors@),
            old(self).same_setting(*final(self)),
            function_reported(
                *stmt,
                *old(env),
                old(self).options.strict == Some(true),
                old(self).errors@,
                final(self).errors@,
            ),
        decreases stmt, 1nat,
    {
        match stmt {
            Statement::FunctionDeclaration {
                name,
                params,
                return_type,
                body,
                is_async,
                type_params,
                span,
            } => {
                let mut i: usize = 0;
                while i < type_params.len()
                    invariant
                        i <= type_params.len(),
                        inner_only(*old(env), *env),
                        errors_grow(old(self).errors@, self.errors@),
                        old(self).same_setting(*self),
                        i == 0 ==> *env == *old(env) && *self == *old(self),
                    decreases type_params.len() - i,
                {
                    let ghost e0 = *env;
                    let c = match &type_params[i].1 {
                        Some(ann) => Some(Box::new(self.type_ann_to_type(ann, env))),
                        None => None,
                    };
                    let ghost e1 = *env;
                    let tp = &type_params[i].0;
                    let _ = env.declare(tp.as_str(), Type::TypeParam(tp.clone(), c));
                    proof {
                        crate::type_checker::env::lemma_keeps_bound_chain(*old(env), e0, e1);
                        crate::type_checker::env::lemma_keeps_bound_chain(*old(env), e1, *env);
                    }
                    i += 1;
                }
                let ghost e2 = *env;
                let ghost errs0 = self.errors@;
                let param_types = self.param_types(params, env);
                let ghost errs1 = self.errors@;
                let ret = match return_type {
                    Some(ann) => self.type_ann_to_type(ann, env),
                    None => Type::Any,
                };
                let ghost e3 = *env;
                let body_return = if *is_async {
                    match &ret {
                        Type::Promise(inner) => (**inner).clone(),
                        _ => ret.clone(),
                    }
                } else {
                    ret.clone()
                };
                let fn_type = Type::Function {
                    params: param_types.clone(),
                    return_type: Box::new(ret),
                };
                match env.declare(name.as_str(), fn_type) {
                    Ok(()) => {},
                    Err(msg) => {
                        // The report points at the first parameter; a function
                        // without parameters is reported at its declaration.
                        let at = if params.len() > 0 {
                            params[0].span
                        } else {
                            *span
                        };
                        self.errors.push(TypeError::DuplicateIdentifier(msg, at));
                    },
                }
                let ghost errs2 = self.errors@;
                proof {
                    crate::type_checker::env::lemma_keeps_bound_chain(*old(env), e2, e3);
                    assert(errors_grow(errs1, errs2));
                    if old(env).binds_here(name@) {
                        assert(e3.binds_here(name@));
                        let k = errs2.len() - 1;
                        assert(errs2[k] matches TypeError::DuplicateIdentifier(msg, _) && msg@
                            == "Duplicate identifier '"@ + name@ + "'"@);
                        assert(duplicate_among(name@, old(self).errors@, errs2));
                    }
                }
                let ghost mid = *env;
                proof {
                    crate::type_checker::env::lemma_keeps_bound_chain(*old(env), e2, e3);
                    crate::type_checker::env::lemma_keeps_bound_chain(*old(env), e3, mid);
                }
                env.push_scope();
                assert(env.scopes().drop_last() =~= mid.scopes());
                self.declare_params(params, &param_types, env);
                let ghost errs3 = self.errors@;
                let prev_ret = self.current_return_type.take();
                self.current_return_type = Some(body_return);
                self.check_statement(body, env);
                self.current_return_type = prev_ret;
                let ghost errs4 = self.errors@;
                assert(env.depth() > 1);
                env.pop_scope();
                assert(env.scopes() =~= mid.scopes());
                proof {
                    crate::type_checker::env::lemma_keeps_bound_chain(*old(env), mid, *env);
                    let strict = old(self).options.strict == Some(true);
                    let n = params@.len() as int;
                    lemma_implicit_anys_kept(params@, n, strict, errs0, errs1, errs2);
                    lemma_implicit_anys_kept(params@, n, strict, errs0, errs2, errs3);
                    lemma_implicit_anys_kept(params@, n, strict, errs0, errs3, errs4);
                    if old(env).binds_here(name@) {
                        lemma_duplicate_kept(name@, errs0, errs2, errs3);
                        lemma_duplicate_kept(name@, errs0, errs3, errs4);
                    }
                    if type_params@.len() == 0 && params@.len() == 0 && return_type is None
                        && body_is_empty_block(**body) {
                        assert(e2 == *old(env));
                        assert(e3 == *old(env));
                        assert(errs1 == errs0);
                        assert(errs3 == errs2);
                        assert(errs4 == errs3);
                        if old(env).binds_here(name@) {
                            assert(errs2.drop_last() =~= errs1);
                        }
                    }
                }
            },
            _ => {},
        }
    }

    /// The fields and methods of a class as an object type, starting from
    /// the fields of its superclass.
    fn class_instance_type(
        &mut self,
        super_fields: Vec<(String, Type)>,
        body: &ClassBody,
        env: &mut TypeEnv,
    ) -> (r: Type)
        requires
            old(env).wf(),
        ensures
            final(env).wf(),
            final(env).scopes() == old(env).scopes(),
            errors_grow(old(self).errors@, final(self).errors@),
            old(self).same_setting(*final(self)),
            r matches Type::Object { fields } && fields@.len() >= super_fields@.len() && (forall|k: int|
                0 <= k < super_fields@.len() ==> (#[trigger] fields@[k]).0@ == super_fields@[k].0@)
                && (body.fields@.len() == 0 && body.methods@.len() == 0 ==> fields@
                == super_fields@),
        decreases body, 0nat,
    {
        let ghost sup = super_fields@;
        let mut fields = super_fields;
        let mut i: usize = 0;
        while i < body.fields.len()
            invariant
                fields@.len() >= sup.len(),
                forall|k: int| 0 <= k < sup.len() ==> (#[trigger] fields@[k]).0@ == sup[k].0@,
                i == 0 ==> fields@ == sup,
                i <= body.fields.len(),
                env.wf(),
                env.scopes() == old(env).scopes(),
                errors_grow(old(self).errors@, self.errors@),
                old(self).same_setting(*self),
            decreases body.fields.len() - i,
        {
            let f = &body.fields[i];
            let field_type = match &f.type_ann {
                Some(ann) => self.type_ann_to_type(ann, env),
                None => match &f.init {
                    Some(init) => self.infer_expression(init, env),
                    None => Type::Any,
                },
            };
            let field_name = match &f.key {
                PropertyKey::Identifier(n) => Some(n.clone()),
                PropertyKey::String(n) => Some(n.clone()),
                PropertyKey::Expression(_) => None,
            };
            let ghost before = fields@;
            match field_name {
                Some(n) => match find_field(&fields, &n) {
                    Some(k) => {
                        proof {
                            crate::type_checker::ty::lemma_field_index(fields@, n@);
                        }
                        fields.set(k, (n, field_type));
                    },
                    None => fields.push((n, field_type)),
                },
                None => {},
            }
            assert forall|k: int| 0 <= k < sup.len() implies (#[trigger] fields@[k]).0@ == sup[k].0@ by {
                assert(before[k].0@ == sup[k].0@);
            }
            i += 1;
        }
        let mut j: usize = 0;
        while j < body.methods.len()
            invariant
                fields@.len() >= sup.len(),
                forall|k: int| 0 <= k < sup.len() ==> (#[trigger] fields@[k]).0@ == sup[k].0@,
                j == 0 && body.fields@.len() == 0 ==> fields@ == sup,
                j <= body.methods.len(),
                env.wf(),
                env.scopes() == old(env).scopes(),
                errors_grow(old(self).errors@, self.errors@),
                old(self).same_setting(*self),
            decreases body.methods.len() - j,
        {
            let m = &body.methods[j];
            if m.kind != MethodKind::Constructor {
                let param_types = self.param_types(&m.params, env);
                let method_ret = match &m.return_type {
                    Some(ann) => self.type_ann_to_type(ann, env),
                    None => Type::Any,
                };
                let method_type = Type::Function {
                    params: param_types,
                    return_type: Box::new(method_ret),
                };
                let method_name = match &m.key {
                    PropertyKey::Identifier(n) => Some(n.clone()),
                    PropertyKey::String(n) => Some(n.clone()),
                    PropertyKey::Expression(_) => None,
                };
                let ghost before = fields@;
                match method_name {
                    Some(n) => match find_field(&fields, &n) {
                        Some(k) => {
                            proof {
                                crate::type_checker::ty::lemma_field_index(fields@, n@);
                            }
                            fields.set(k, (n, method_type));
                        },
                        None => fields.push((n, method_type)),
                    },
                    None => {},
                }
                assert forall|k: int| 0 <= k < sup.len() implies (#[trigger] fields@[k]).0@
                    == sup[k].0@ by {
                    assert(before[k].0@ == sup[k].0@);
                }
            }
            j += 1;
        }
        Type::Object { fields }
    }

    /// A class: its name is bound to the object type of its instances; each
    /// method body is checked in a scope of its own, with `this` of that
    /// type and the method's return type expected.
    #[verifier::loop_isolation(false)]
    fn check_class(&mut self, stmt: &Statement, env: &mut TypeEnv)
        requires
            old(env).wf(),
            stmt is ClassDeclaration,
        ensures
            binds_declared(*stmt, *final(env)),
            inner_only(*old(env), *final(env)),
            errors_grow(old(self).errors@, final(self).errors@),
            old(self).same_setting(*final(self)),
        decreases stmt, 1nat,
    {
        match stmt {
            Statement::ClassDeclaration { name, superclass, body, .. } => {
                let super_fields = match superclass {
                    Some(sc) => {
                        let super_type = self.infer_expression(sc, env);
                        match super_type {
                            Type::Object { fields } => fields,
                            _ => Vec::new(),
                        }
                    },
                    None => Vec::new(),
                };
                let instance_type = self.class_instance_type(super_fields, body, env);
                let ghost e1 = *env;
                let _ = env.declare(name.as_str(), instance_type.clone());
                proof {
                    crate::type_checker::env::lemma_keeps_bound_refl(*old(env));
                    crate::type_checker::env::lemma_keeps_bound_chain(*old(env), *old(env), e1);
                    crate::type_checker::env::lemma_keeps_bound_chain(*old(env), e1, *env);
                }
                let prev_class = self.current_class_type.take();
                self.current_class_type = Some(instance_type);
                let ghost mid = *env;
                let mut j: usize = 0;
                while j < body.methods.len()
                    invariant
                        j <= body.methods.len(),
                        env.wf(),
                        env.scopes() == mid.scopes(),
                        errors_grow(old(self).errors@, self.errors@),
                        old(self).same_setting(*self),
                    decreases body.methods.len() - j,
                {
                    let m = &body.methods[j];
                    env.push_scope();
                    assert(env.scopes().drop_last() =~= mid.scopes());
                    let mut k: usize = 0;
                    while k < m.params.len()
                        invariant
                            k <= m.params.len(),
                            env.wf(),
                            env.depth() == mid.depth() + 1,
                            env.scopes().drop_last() == mid.scopes(),
                            errors_grow(old(self).errors@, self.errors@),
                            old(self).same_setting(*self),
                        decreases m.params.len() - k,
                    {
                        let p = &m.params[k];
                        let pt = match &p.type_ann {
                            Some(ann) => self.type_ann_to_type(ann, env),
                            None => Type::Any,
                        };
                        let _ = env.declare(p.name.as_str(), pt);
                        k += 1;
                    }
                    let method_ret = match &m.return_type {
                        Some(ann) => self.type_ann_to_type(ann, env),
                        None => {
                            if m.kind == MethodKind::Constructor {
                                Type::Void
                            } else {
                                Type::Any
                            }
                        },
                    };
                    let prev_ret = self.current_return_type.take();
                self.current_return_type = Some(method_ret);
                    self.check_statement(&m.body, env);
                    self.current_return_type = prev_ret;
                    assert(env.depth() > 1);
                    env.pop_scope();
                    assert(env.scopes() =~= mid.scopes());
                    j += 1;
                }
                self.current_class_type = prev_class;
                proof {
                    crate::type_checker::env::lemma_keeps_bound_chain(*old(env), mid, *env);
                }
            },
            _ => {},
        }
    }

    /// An enum: each member is bound to its literal type (a string value, a
    /// numeric value, or the next number counting from 0 when none is
    /// given), and the enum name to the enum type.
    fn check_enum(&mut self, name: &String, members: &Vec<EnumMember>, env: &mut TypeEnv)
        requires
            old(env).wf(),
        ensures
            final(env).binds_here(name@),
            inner_only(*old(env), *final(env)),
            errors_grow(old(self).errors@, final(self).errors@),
            old(self).same_setting(*final(self)),
            *final(self) == *old(self),
            !old(env).binds_here(name@) && (forall|j: int|
                0 <= j < members@.len() ==> #[trigger] members@[j].name@ != name@) ==> ({
                let b = final(env).binding(name@);
                b matches Some(Type::Enum { name: n, members: ms }) && n@ == name@
                    && enum_members_typed(members@, ms@)
            }),
    {
        let mut enum_members: Vec<(String, Type)> = Vec::new();
        let mut member_num: usize = 0;
        let mut i: usize = 0;
        while i < members.len()
            invariant
                i <= members.len(),
                member_num <= i,
                member_num == unvalued(members@.take(i as int)),
                inner_only(*old(env), *env),
                *self == *old(self),
                enum_members_typed(members@.take(i as int), enum_members@),
                !old(env).binds_here(name@) && (forall|j: int|
                    0 <= j < members@.len() ==> #[trigger] members@[j].name@ != name@)
                    ==> !env.binds_here(name@),
            decreases members.len() - i,
        {
            let m = &members[i];
            proof {
                assert(members@.take(i + 1).drop_last() =~= members@.take(i as int));
            }
            let member_type = match &m.value {
                Some(val) => {
                    let v = crate::text::chars_of(val.as_str());
                    if v.len() > 0 && (v[0] == '"' || v[0] == '\'') {
                        Type::Literal(LiteralValue::String(trim_quotes(val)))
                    } else {
                        match parse_numeral(val) {
                            Some(n) => Type::Literal(LiteralValue::Number(n)),
                            None => Type::Literal(LiteralValue::String(val.clone())),
                        }
                    }
                },
                None => {
                    let t = Type::Literal(
                        LiteralValue::Number(crate::text::usize_to_string(member_num)),
                    );
                    member_num += 1;
                    t
                },
            };
            let ghost before = enum_members@;
            enum_members.push((m.name.clone(), member_type.clone()));
            proof {
                let mi = members@.take(i + 1);
                assert(mi[i as int] == members@[i as int]);
                assert(mi.take(i as int) =~= members@.take(i as int));
                assert forall|j: int| 0 <= j < i implies #[trigger] mi.take(j) =~= members@.take(
                    i as int,
                ).take(j) by {}
                assert(enum_members_typed(mi, enum_members@));
            }
            let _ = env.declare(m.name.as_str(), member_type);
            i += 1;
        }
        proof {
            assert(members@.take(members@.len() as int) =~= members@);
        }
        let _ = env.declare(name.as_str(), Type::Enum { name: name.clone(), members: enum_members });
    }

    /// The guard of an `if` condition: a name and the type it has where the
    /// condition holds, for `typeof x === "..."`, `x === literal`,
    /// `x !== null`, `x instanceof C`, `x` and `!x`.
    pub fn detect_type_guard(&self, expr: &Expression, env: &TypeEnv) -> (r: Option<(String, Type)>)
        requires
            env.wf(),
        ensures
            guard_of(*expr, *env, gview(r)),
    {
        match expr {
            Expression::BinaryExpression { left, operator, right, .. } => match operator {
                BinaryOp::StrictEq | BinaryOp::Eq => {
                    match Self::try_narrow_typeof(left, right) {
                        Some(r) => {
                            return Some(r);
                        },
                        None => {},
                    }
                    match Self::try_narrow_typeof(right, left) {
                        Some(r) => {
                            return Some(r);
                        },
                        None => {},
                    }
                    match Self::narrow_strict_eq(left, right, env) {
                        Some(r) => {
                            return Some(r);
                        },
                        None => {},
                    }
                    Self::narrow_strict_eq(right, left, env)
                },
                BinaryOp::StrictNotEq | BinaryOp::NotEq => {
                    match Self::narrow_strict_neq(left, right, env) {
                        Some(r) => {
                            return Some(r);
                        },
                        None => {},
                    }
                    Self::narrow_strict_neq(right, left, env)
                },
                BinaryOp::Instanceof => match (&**left, &**right) {
                    (
                        Expression::Identifier { name, .. },
                        Expression::Identifier { name: class_name, .. },
                    ) => {
                        let narrowed = match env.lookup(class_name.as_str()) {
                            Some(t) => t,
                            None => Type::Any,
                        };
                        Some((name.clone(), narrowed))
                    },
                    _ => None,
                },
                _ => None,
            },
            Expression::Identifier { name, .. } => match env.lookup(name.as_str()) {
                Some(original) => {
                    let narrowed = Self::narrow_to_truthy(&original);
                    let ghost b = env.binding(name@)->0;
                    assert(ty_eq(original, b) && narrows(Narrowing::Truthy, original, narrowed));
                    if !type_eq(&narrowed, &original) {
                        let r = Some((name.clone(), narrowed));
                        assert(narrowed_by(name@, b, gview(r), Narrowing::Truthy));
                        r
                    } else {
                        assert(narrowed_by(name@, b, None, Narrowing::Truthy));
                        None
                    }
                },
                None => None,
            },
            Expression::UnaryExpression { operator: UnaryOp::Not, operand, .. } => match &**operand {
                Expression::Identifier { name, .. } => match env.lookup(name.as_str()) {
                    Some(original) => {
                        let narrowed = Self::narrow_to_falsy(&original);
                        let ghost b = env.binding(name@)->0;
                        assert(ty_eq(original, b) && narrows(Narrowing::Falsy, original, narrowed));
                        if !type_eq(&narrowed, &original) {
                            let r = Some((name.clone(), narrowed));
                            assert(narrowed_by(name@, b, gview(r), Narrowing::Falsy));
                            r
                        } else {
                            assert(narrowed_by(name@, b, None, Narrowing::Falsy));
                            None
                        }
                    },
                    None => None,
                },
                _ => None,
            },
            _ => None,
        }
    }

    /// `typeof x === "..."`: `x` narrowed to the named type.
    pub fn try_narrow_typeof(unary: &Expression, literal: &Expression) -> (r: Option<(String, Type)>)
        ensures
            gview(r) == typeof_guard(*unary, *literal),
    {
        match (unary, literal) {
            (
                Expression::UnaryExpression { operator: UnaryOp::TypeOf, operand, .. },
                Expression::StringLiteral { value, .. },
            ) => match &**operand {
                Expression::Identifier { name, .. } => Self::narrow_from_typeof(
                    name.as_str(),
                    value.as_str(),
                ),
                _ => None,
            },
            _ => None,
        }
    }

    /// `x === v` for a literal `v` (or `null`, `undefined`): `x` narrowed to
    /// the type of `v`, when that type and the type of `x` are related.
    pub fn narrow_strict_eq(name_expr: &Expression, value_expr: &Expression, env: &TypeEnv) -> (r:
        Option<(String, Type)>)
        requires
            env.wf(),
        ensures
            gview(r) == eq_guard(*name_expr, *value_expr, *env),
    {
        match name_expr {
            Expression::Identifier { name, .. } => {
                let target = match value_expr {
                    Expression::NullLiteral { .. } => Type::Null,
                    Expression::UndefinedLiteral { .. } => Type::Undefined,
                    Expression::StringLiteral { value, .. } => Type::Literal(
                        LiteralValue::String(value.clone()),
                    ),
                    Expression::NumberLiteral { value, .. } => Type::Literal(
                        LiteralValue::Number(value.clone()),
                    ),
                    Expression::BooleanLiteral { value, .. } => Type::Literal(
                        LiteralValue::Boolean(*value),
                    ),
                    _ => {
                        return None;
                    },
                };
                match env.lookup(name.as_str()) {
                    Some(original) => {
                        proof {
                            let b = env.binding(name@)->0;
                            crate::type_checker::ty::lemma_ty_eq_refl(target);
                            crate::type_checker::ty::law_assignable_respects_ty_eq(
                                original,
                                b,
                                target,
                                target,
                            );
                            crate::type_checker::ty::law_assignable_respects_ty_eq(
                                target,
                                target,
                                original,
                                b,
                            );
                        }
                        if original.is_assignable_to(&target) || target.is_assignable_to(&original) {
                            Some((name.clone(), target))
                        } else {
                            None
                        }
                    },
                    None => None,
                }
            },
            _ => None,
        }
    }

    /// `x !== null` (or `undefined`): `x` without that type, when that
    /// changes it.
    pub fn narrow_strict_neq(name_expr: &Expression, value_expr: &Expression, env: &TypeEnv) -> (r:
        Option<(String, Type)>)
        requires
            env.wf(),
        ensures
            neq_guard(*name_expr, *value_expr, *env, gview(r)),
    {
        match name_expr {
            Expression::Identifier { name, .. } => {
                let rm = match value_expr {
                    Expression::NullLiteral { .. } => Type::Null,
                    Expression::UndefinedLiteral { .. } => Type::Undefined,
                    _ => {
                        return None;
                    },
                };
                match env.lookup(name.as_str()) {
                    Some(original) => {
                        let narrowed = Self::remove_from_union(&original, &rm);
                        let ghost b = env.binding(name@)->0;
                        let ghost f = Narrowing::Without(rm);
                        assert(ty_eq(original, b) && narrows(f, original, narrowed));
                        if !type_eq(&narrowed, &original) {
                            let r = Some((name.clone(), narrowed));
                            assert(narrowed_by(name@, b, gview(r), f));
                            r
                        } else {
                            assert(narrowed_by(name@, b, None, f));
                            None
                        }
                    },
                    None => None,
                }
            },
            _ => None,
        }
    }

    /// An `if` statement: its branches are checked in scopes of their own,
    /// the consequent with the guard of the condition in force.
    fn check_if(&mut self, stmt: &Statement, env: &mut TypeEnv)
        requires
            old(env).wf(),
            stmt is IfStatement,
        ensures
            final(env).wf(),
            final(env).scopes() == old(env).scopes(),
            errors_grow(old(self).errors@, final(self).errors@),
            old(self).same_setting(*final(self)),
            *stmt matches Statement::IfStatement { consequent, alternate: None, .. } ==> (
            *consequent is ReturnStatement ==> return_checked(
                *consequent,
                old(self).current_return_type,
                old(self).errors@,
                final(self).errors@,
            )),
        decreases stmt, 1nat,
    {
        match stmt {
            Statement::IfStatement { test, consequent, alternate, .. } => {
                let guard = self.detect_type_guard(test, env);
                match &guard {
                    Some((name, t)) => narrow_insert(&mut self.narrowed, name.clone(), t.clone()),
                    None => {},
                }
                self.check_scoped(consequent, env);
                match &guard {
                    Some((name, _)) => narrow_remove(&mut self.narrowed, name),
                    None => {},
                }
                match alternate {
                    Some(alt) => self.check_scoped(alt, env),
                    None => {},
                }
            },
            _ => {},
        }
    }

    /// A `for` loop: its head and body are checked in a scope of their own.
    #[verifier::loop_isolation(false)]
    fn check_for(&mut self, stmt: &Statement, env: &mut TypeEnv)
        requires
            old(env).wf(),
            stmt is ForStatement,
        ensures
            final(env).wf(),
            final(env).scopes() == old(env).scopes(),
            errors_grow(old(self).errors@, final(self).errors@),
            old(self).same_setting(*final(self)),
            *stmt matches Statement::ForStatement { init: None, test: None, update: None, body, .. } ==> (
            *body is ReturnStatement ==> return_checked(
                *body,
                old(self).current_return_type,
                old(self).errors@,
                final(self).errors@,
            )),
        decreases stmt, 1nat,
    {
        match stmt {
            Statement::ForStatement { init, test, update, body, .. } => {
                env.push_scope();
                assert(env.scopes().drop_last() =~= old(env).scopes());
                match init {
                    Some(ForInit::VariableDeclaration { declarations, .. }) => {
                        let mut i: usize = 0;
                        while i < declarations.len()
                            invariant
                                i <= declarations.len(),
                                env.wf(),
                                env.depth() == old(env).depth() + 1,
                                env.scopes().drop_last() == old(env).scopes(),
                                errors_grow(old(self).errors@, self.errors@),
                                old(self).same_setting(*self),
                            decreases declarations.len() - i,
                        {
                            let d = &declarations[i];
                            let t = match &d.init {
                                Some(x) => self.infer_expression(x, env),
                                None => Type::Any,
                            };
                            self.declare_target(&d.id, t, d.span, env);
                            i += 1;
                        }
                    },
                    Some(ForInit::Expression(x)) => {
                        self.infer_expression(x, env);
                    },
                    None => {},
                }
                match test {
                    Some(t) => {
                        self.infer_expression(t, env);
                    },
                    None => {},
                }
                match update {
                    Some(u) => {
                        self.infer_expression(u, env);
                    },
                    None => {},
                }
                self.check_statement(body, env);
                assert(env.depth() > 1);
                env.pop_scope();
                assert(env.scopes() =~= old(env).scopes());
            },
            _ => {},
        }
    }

    /// A `return`: its value is checked against the expected return type;
    /// a bare `return` where neither `void` nor `any` is expected is
    /// reported.
    fn check_return(&mut self, stmt: &Statement, env: &mut TypeEnv)
        requires
            old(env).wf(),
            stmt is ReturnStatement,
        ensures
            final(env).wf(),
            final(env).scopes() == old(env).scopes(),
            errors_grow(old(self).errors@, final(self).errors@),
            old(self).same_setting(*final(self)),
            return_checked(
                *stmt,
                old(self).current_return_type,
                old(self).errors@,
                final(self).errors@,
            ),
        decreases stmt, 1nat,
    {
        match stmt {
            Statement::ReturnStatement { value, span } => {
                match value {
                    Some(v) => {
                        let ret_type = self.infer_expression(v, env);
                        let ghost mid = self.errors@;
                        match &self.current_return_type {
                            Some(expected) => match check_assignable(&ret_type, expected, *span) {
                                Some(e) => {
                                    self.errors.push(e);
                                    assert(self.errors@.drop_last() =~= mid);
                                },
                                None => {},
                            },
                            None => {},
                        }
                    },
                    None => match bare_return_error(&self.current_return_type, *span) {
                        Some(e) => {
                            self.errors.push(e);
                            assert(self.errors@.drop_last() =~= old(self).errors@);
                        },
                        None => {},
                    },
                }
            },
            _ => {},
        }
    }

    /// A `for ... of` loop binds its variable to the element type of what it
    /// walks (arrays, sets, maps as key-value tuples, strings); a `for ...
    /// in` loop binds it to `string`.
    fn check_for_in_of(&mut self, stmt: &Statement, env: &mut TypeEnv)
        requires
            old(env).wf(),
            stmt is ForInOfStatement,
        ensures
            final(env).wf(),
            final(env).scopes() == old(env).scopes(),
            errors_grow(old(self).errors@, final(self).errors@),
            old(self).same_setting(*final(self)),
            *stmt matches Statement::ForInOfStatement { right, body, .. } ==> (simple_type(*right)
                is Some ==> (*body is ReturnStatement ==> return_checked(
                *body,
                old(self).current_return_type,
                old(self).errors@,
                final(self).errors@,
            ))),
        decreases stmt, 1nat,
    {
        match stmt {
            Statement::ForInOfStatement { left, right, body, is_of, .. } => {
                let right_type = self.infer_expression(right, env);
                let elem_type = if *is_of {
                    match &right_type {
                        Type::Array(e) => (**e).clone(),
                        Type::SetType { value } => (**value).clone(),
                        Type::MapType { key, value } => {
                            let mut v = Vec::new();
                            v.push((**key).clone());
                            v.push((**value).clone());
                            Type::Tuple(v)
                        },
                        Type::String => Type::String,
                        _ => Type::Any,
                    }
                } else {
                    Type::String
                };
                env.push_scope();
                assert(env.scopes().drop_last() =~= old(env).scopes());
                let _ = env.declare(left.as_str(), elem_type);
                self.check_statement(body, env);
                assert(env.depth() > 1);
                env.pop_scope();
                assert(env.scopes() =~= old(env).scopes());
            },
            _ => {},
        }
    }

    /// A switch: each case value must relate to the discriminant at the
    /// level of primitive types; case bodies are checked in the current
    /// scope.
    #[verifier::loop_isolation(false)]
    fn check_switch(&mut self, stmt: &Statement, env: &mut TypeEnv)
        requires
            old(env).wf(),
            stmt is SwitchStatement,
        ensures
            inner_only(*old(env), *final(env)),
            errors_grow(old(self).errors@, final(self).errors@),
            old(self).same_setting(*final(self)),
            *stmt matches Statement::SwitchStatement { discriminant, cases, .. } ==> (simple_type(
                *discriminant,
            ) is Some && cases@.len() == 0 ==> *final(self) == *old(self)),
        decreases stmt, 1nat,
    {
        match stmt {
            Statement::SwitchStatement { discriminant, cases, .. } => {
                let disc_type = self.infer_expression(discriminant, env);
                let ghost s1 = *self;
                let disc_prim = disc_type.primitive();
                let mut i: usize = 0;
                while i < cases.len()
                    invariant
                        i == 0 ==> *self == s1,
                        i <= cases.len(),
                        inner_only(*old(env), *env),
                        errors_grow(old(self).errors@, self.errors@),
                        old(self).same_setting(*self),
                    decreases cases.len() - i,
                {
                    let ghost e0 = *env;
                    let c = &cases[i];
                    match &c.test {
                        Some(test) => {
                            let case_type = self.infer_expression(test, env);
                            let case_prim = case_type.primitive();
                            if !disc_prim.is_assignable_to(&case_prim)
                                && !case_prim.is_assignable_to(&disc_prim) {
                                let target = disc_type.to_text();
                                let value = case_type.to_text();
                                self.errors.push(
                                    TypeError::NotAssignable { target, value, span: test.span() },
                                );
                            }
                        },
                        None => {},
                    }
                    let ghost e1 = *env;
                    self.check_statements(&c.body, env);
                    proof {
                        crate::type_checker::env::lemma_keeps_bound_chain(*old(env), e0, e1);
                        crate::type_checker::env::lemma_keeps_bound_chain(*old(env), e1, *env);
                    }
                    i += 1;
                }
            },
            _ => {},
        }
    }

    /// A try statement: the catch body is checked in a scope of its own
    /// with the parameter bound to its annotation (`unknown` without one).
    fn check_try(&mut self, stmt: &Statement, env: &mut TypeEnv)
        requires
            old(env).wf(),
            stmt is TryStatement,
        ensures
            inner_only(*old(env), *final(env)),
            errors_grow(old(self).errors@, final(self).errors@),
            old(self).same_setting(*final(self)),
            *stmt matches Statement::TryStatement { body, handler: None, finalizer: None, .. } ==> (
            *body is ReturnStatement ==> return_checked(
                *body,
                old(self).current_return_type,
                old(self).errors@,
                final(self).errors@,
            )),
        decreases stmt, 1nat,
    {
        match stmt {
            Statement::TryStatement { body, handler, finalizer, .. } => {
                self.check_statement(body, env);
                let ghost after_body = *env;
                match handler {
                    Some(c) => {
                        let ghost mid = *env;
                        env.push_scope();
                        assert(env.scopes().drop_last() =~= mid.scopes());
                        let catch_type = match &c.type_ann {
                            Some(ann) => self.type_ann_to_type(ann, env),
                            None => Type::Unknown,
                        };
                        let _ = env.declare(c.param.as_str(), catch_type);
                        self.check_statements(&c.body, env);
                        assert(env.depth() > 1);
                        env.pop_scope();
                        assert(env.scopes() =~= mid.scopes());
                    },
                    None => {},
                }
                let ghost before_finally = *env;
                proof {
                    crate::type_checker::env::lemma_keeps_bound_chain(
                        *old(env),
                        after_body,
                        before_finally,
                    );
                }
                match finalizer {
                    Some(f) => self.check_statements(f, env),
                    None => {},
                }
                proof {
                    crate::type_checker::env::lemma_keeps_bound_refl(before_finally);
                    crate::type_checker::env::lemma_keeps_bound_chain(
                        *old(env),
                        before_finally,
                        *env,
                    );
                }
            },
            _ => {},
        }
    }

    /// Checks a statement. A statement only ever changes the innermost
    /// scope, and only adds errors.
    #[verifier::loop_isolation(false)]
    pub fn check_statement(&mut self, stmt: &Statement, env: &mut TypeEnv)
        requires
            old(env).wf(),
        ensures
            inner_only(*old(env), *final(env)),
            errors_grow(old(self).errors@, final(self).errors@),
            old(self).same_setting(*final(self)),
            binds_declared(*stmt, *final(env)),
            stmt is ReturnStatement ==> return_checked(
                *stmt,
                old(self).current_return_type,
                old(self).errors@,
                final(self).errors@,
            ),
            single_declaration_checked(*stmt, *old(env), old(self).errors@, final(self).errors@, *final(env)),
            stmt is BlockStatement || stmt is IfStatement || stmt is ForStatement
                || stmt is ForInOfStatement ==> final(env).scopes() == old(env).scopes(),
            stmt matches Statement::BlockStatement { body, .. } && body@.len() == 0 ==> *final(self)
                == *old(self),
            function_reported(
                *stmt,
                *old(env),
                old(self).options.strict == Some(true),
                old(self).errors@,
                final(self).errors@,
            ),
            *stmt matches Statement::ExpressionStatement { expression, .. } ==> inference_reported(
                *expression,
                old(self).narrowed@,
                *old(env),
                old(self).errors@,
                final(self).errors@,
            ),
            *stmt matches Statement::ThrowStatement { argument, .. } ==> inference_reported(
                *argument,
                old(self).narrowed@,
                *old(env),
                old(self).errors@,
                final(self).errors@,
            ),
            stmt matches Statement::EnumDeclaration { name, members, .. } ==> {
                &&& *final(self) == *old(self)
                &&& !old(env).binds_here(name@) && (forall|j: int|
                    0 <= j < members@.len() ==> #[trigger] members@[j].name@ != name@) ==> ({
                    let b = final(env).binding(name@);
                    b matches Some(Type::Enum { name: n, members: ms }) && n@ == name@
                        && enum_members_typed(members@, ms@)
                })
            },
        decreases stmt, 2nat,
    {
        match stmt {
            Statement::ExpressionStatement { expression, .. } => {
                self.infer_expression(expression, env);
                proof {
                    crate::type_checker::env::lemma_keeps_bound_refl(*old(env));
                    crate::type_checker::env::lemma_keeps_bound_chain(*old(env), *old(env), *env);
                }
            },
            Statement::VariableDeclaration { declarations, .. } => {
                let mut i: usize = 0;
                while i < declarations.len()
                    invariant
                        i <= declarations.len(),
                        inner_only(*old(env), *env),
                        errors_grow(old(self).errors@, self.errors@),
                        old(self).same_setting(*self),
                        forall|j: int|
                            0 <= j < i ==> (#[trigger] plain_name(*declarations@[j].id) matches Some(
                                n,
                            ) ==> env.binds_here(n)),
                        i == 0 ==> *env == *old(env) && self.errors@ == old(self).errors@,
                        i == 1 && declarations@.len() == 1 ==> single_declaration_checked(
                            *stmt,
                            *old(env),
                            old(self).errors@,
                            self.errors@,
                            *env,
                        ),
                    decreases declarations.len() - i,
                {
                    let ghost e0 = *env;
                    self.check_declarator(&declarations[i], env);
                    proof {
                        assert forall|j: int|
                            0 <= j < i + 1 implies (#[trigger] plain_name(*declarations@[j].id)
                            matches Some(n) ==> env.binds_here(n)) by {
                            if j < i {
                                match plain_name(*declarations@[j].id) {
                                    Some(n) => {
                                        assert(e0.binds_here(n));
                                    },
                                    None => {},
                                }
                            }
                        }
                    }
                    i += 1;
                }
            },
            Statement::BlockStatement { body, .. } => self.check_block(body, env),
            Statement::IfStatement { .. } => self.check_if(stmt, env),
            Statement::WhileStatement { test, body, .. } => {
                self.infer_expression(test, env);
                let ghost e1 = *env;
                self.check_statement(body, env);
                proof {
                    crate::type_checker::env::lemma_keeps_bound_refl(*old(env));
                    crate::type_checker::env::lemma_keeps_bound_chain(*old(env), *old(env), e1);
                    crate::type_checker::env::lemma_keeps_bound_chain(*old(env), e1, *env);
                }
            },
            Statement::ForStatement { .. } => self.check_for(stmt, env),
            Statement::ReturnStatement { .. } => self.check_return(stmt, env),
            Statement::FunctionDeclaration { .. } => self.check_function(stmt, env),
            Statement::ImportDeclaration { specifiers, source, .. } => {
                self.check_import(specifiers, source, env);
            },
            Statement::TypeAliasDeclaration { name, type_annotation, .. } => {
                let resolved = self.type_ann_to_type(type_annotation, env);
                let ghost e1 = *env;
                let _ = env.declare(name.as_str(), resolved);
                proof {
                    crate::type_checker::env::lemma_keeps_bound_refl(*old(env));
                    crate::type_checker::env::lemma_keeps_bound_chain(*old(env), *old(env), e1);
                    crate::type_checker::env::lemma_keeps_bound_chain(*old(env), e1, *env);
                }
            },
            Statement::InterfaceDeclaration { .. } => {},
            Statement::ExportDeclaration { declaration, .. } => {
                self.check_statement(declaration, env);
            },
            Statement::ForInOfStatement { .. } => self.check_for_in_of(stmt, env),
            Statement::SwitchStatement { .. } => self.check_switch(stmt, env),
            Statement::ThrowStatement { argument, .. } => {
                self.infer_expression(argument, env);
                proof {
                    crate::type_checker::env::lemma_keeps_bound_refl(*old(env));
                    crate::type_checker::env::lemma_keeps_bound_chain(*old(env), *old(env), *env);
                }
            },
            Statement::TryStatement { .. } => self.check_try(stmt, env),
            Statement::BreakStatement { .. } => {},
            Statement::ContinueStatement { .. } => {},
            Statement::LabeledStatement { body, .. } => {
                self.check_statement(body, env);
            },
            Statement::DoWhileStatement { test, body, .. } => {
                self.check_statement(body, env);
                let ghost e1 = *env;
                self.infer_expression(test, env);
                proof {
                    crate::type_checker::env::lemma_keeps_bound_chain(*old(env), e1, *env);
                }
            },
            Statement::ClassDeclaration { .. } => self.check_class(stmt, env),
            Statement::EnumDeclaration { name, members, .. } => self.check_enum(name, members, env),
        }
    }
}

} // verus!
