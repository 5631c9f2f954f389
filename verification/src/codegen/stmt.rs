//! Printing of statements.
use vstd::prelude::*;

use crate::ast::{
    CatchClause, ClassBody, ClassField, EnumMember, Expression, ForInit, ImportSpecifier,
    MethodDefinition, MethodKind, PropertyKey, Statement, SwitchCase, VariableDeclarator,
    VariableKind, Visibility,
};
use crate::codegen::expr::{gen_expression, gen_opt_after, gen_params};
use crate::codegen::printed::{
    any_listed, case_head, case_text, cases_text, catch_text, decl_text, decls_text, deeper,
    else_text, enum_members_text, field_key_text, field_text, fields_text, finally_text,
    first_default_local, for_init_text, has_default, import_clause, import_items, import_listed,
    jump_text, keyword_text, method_key_text, method_text, methods_text, static_text, stmt_text,
    stmts_text, visibility_text, indent_text, params_text,
    opt_after, expr_text, async_text, sep, enum_member_text, quoted, unvalued,
};
use crate::codegen::{map_grows, Codegen};

verus! {

fn keyword(k: &VariableKind) -> (s: &'static str)
    ensures
        s@ == keyword_text(*k),
{
    match k {
        VariableKind::Let => "let",
        VariableKind::Const => "const",
        VariableKind::Var => "var",
    }
}

fn visibility(v: Option<Visibility>) -> (s: &'static str)
    ensures
        s@ == visibility_text(v),
{
    match v {
        Some(Visibility::Public) => "public ",
        Some(Visibility::Private) => "private ",
        Some(Visibility::Protected) => "protected ",
        None => "",
    }
}

proof fn lemma_first_default(ss: Seq<ImportSpecifier>, k: int)
    requires
        0 <= k < ss.len(),
        ss[k].is_default,
        forall|j: int| 0 <= j < k ==> !(#[trigger] ss[j]).is_default,
    ensures
        first_default_local(ss) == ss[k].local@,
    decreases k,
{
    if k > 0 {
        lemma_first_default(ss.drop_first(), k - 1);
    }
}

impl Codegen {
    /// Appends statements one after another at the current level.
    #[verifier::rlimit(50)]
    pub fn gen_statements(&mut self, ss: &Vec<Statement>)
        requires
            old(self).wf(),
        ensures
            final(self).wf(),
            final(self).output@ == old(self).output@ + stmts_text(ss@, old(self).indent as nat),
            final(self).indent == old(self).indent,
            map_grows(old(self).source_map_of(), final(self).source_map_of()),
        decreases ss@, 0nat,
    {
        let ghost ind = self.indent as nat;
        let mut i: usize = 0;
        while i < ss.len()
            invariant
                i <= ss.len(),
                self.wf(),
                self.output@ == old(self).output@ + stmts_text(ss@.subrange(0, i as int), ind),
                self.indent == old(self).indent,
                ind == self.indent as nat,
                map_grows(old(self).source_map_of(), self.source_map_of()),
            decreases ss.len() - i,
        {
            let ghost before = self.output@;
            self.gen_statement(&ss[i]);
            assert(ss@.subrange(0, i + 1).drop_last() =~= ss@.subrange(0, i as int));
            assert(stmts_text(ss@.subrange(0, i + 1), ind) == stmts_text(
                ss@.subrange(0, i as int),
                ind,
            ) + stmt_text(ss@[i as int], ind));
            assert(self.output@ =~= before + stmt_text(ss@[i as int], ind));
            i += 1;
        }
        assert(ss@.subrange(0, ss@.len() as int) =~= ss@);
    }

    /// Appends statements one level deeper than the current level.
    #[verifier::rlimit(50)]
    pub fn gen_nested(&mut self, ss: &Vec<Statement>)
        requires
            old(self).wf(),
        ensures
            final(self).wf(),
            final(self).output@ == old(self).output@ + stmts_text(
                ss@,
                deeper(old(self).indent as nat),
            ),
            final(self).indent == old(self).indent,
            map_grows(old(self).source_map_of(), final(self).source_map_of()),
        decreases ss@, 1nat,
    {
        let saved = self.indent;
        if self.indent < usize::MAX {
            self.indent = self.indent + 1;
        }
        self.gen_statements(ss);
        self.indent = saved;
    }

    /// Appends one declarator.
    #[verifier::rlimit(50)]
    fn gen_decl(&mut self, x: &VariableDeclarator)
        requires
            old(self).wf(),
        ensures
            final(self).wf(),
            final(self).output@ == old(self).output@ + decl_text(*x, old(self).indent as nat),
            final(self).indent == old(self).indent,
            map_grows(old(self).source_map_of(), final(self).source_map_of()),
        decreases x, 0nat,
    {
        gen_expression(self, &x.id);
        gen_opt_after(self, " = ", &x.init);
    }

    /// Appends declarators, separated by `, `.
    #[verifier::rlimit(50)]
    fn gen_decls(&mut self, xs: &Vec<VariableDeclarator>)
        requires
            old(self).wf(),
        ensures
            final(self).wf(),
            final(self).output@ == old(self).output@ + decls_text(xs@, old(self).indent as nat),
            final(self).indent == old(self).indent,
            map_grows(old(self).source_map_of(), final(self).source_map_of()),
        decreases xs@, 0nat,
    {
        let ghost ind = self.indent as nat;
        let mut i: usize = 0;
        while i < xs.len()
            invariant
                i <= xs.len(),
                self.wf(),
                self.output@ == old(self).output@ + decls_text(xs@.subrange(0, i as int), ind),
                self.indent == old(self).indent,
                ind == self.indent as nat,
                map_grows(old(self).source_map_of(), self.source_map_of()),
            decreases xs.len() - i,
        {
            if i > 0 {
                self.emit(", ");
            }
            self.gen_decl(&xs[i]);
            assert(xs@.subrange(0, i + 1).drop_last() =~= xs@.subrange(0, i as int));
            assert(decls_text(xs@.subrange(0, i + 1), ind) == decls_text(xs@.subrange(0, i as int), ind)
                + sep((i + 1) as nat) + decl_text(xs@[i as int], ind));
            i += 1;
        }
        assert(xs@.subrange(0, xs@.len() as int) =~= xs@);
    }

    /// Appends the head line of a switch case.
    #[verifier::rlimit(50)]
    fn gen_case_head(&mut self, test: &Option<Box<Expression>>)
        requires
            old(self).wf(),
        ensures
            final(self).wf(),
            final(self).output@ == old(self).output@ + case_head(*test, old(self).indent as nat),
            final(self).indent == old(self).indent,
            map_grows(old(self).source_map_of(), final(self).source_map_of()),
        decreases test, 0nat,
    {
        match test {
            Some(t) => {
                self.emit("case ");
                gen_expression(self, t);
                self.emit(":\n");
            },
            None => self.emit("default:\n"),
        }
    }

    /// Appends one switch case at the current level.
    #[verifier::rlimit(50)]
    fn gen_case(&mut self, x: &SwitchCase)
        requires
            old(self).wf(),
        ensures
            final(self).wf(),
            final(self).output@ == old(self).output@ + case_text(*x, old(self).indent as nat),
            final(self).indent == old(self).indent,
            map_grows(old(self).source_map_of(), final(self).source_map_of()),
        decreases x, 0nat,
    {
        self.gen_indent();
        self.gen_case_head(&x.test);
        self.gen_nested(&x.body);
    }

    /// Appends the cases of a switch at the current level.
    #[verifier::rlimit(50)]
    fn gen_cases(&mut self, xs: &Vec<SwitchCase>)
        requires
            old(self).wf(),
        ensures
            final(self).wf(),
            final(self).output@ == old(self).output@ + cases_text(xs@, old(self).indent as nat),
            final(self).indent == old(self).indent,
            map_grows(old(self).source_map_of(), final(self).source_map_of()),
        decreases xs@, 0nat,
    {
        let ghost ind = self.indent as nat;
        let mut i: usize = 0;
        while i < xs.len()
            invariant
                i <= xs.len(),
                self.wf(),
                self.output@ == old(self).output@ + cases_text(xs@.subrange(0, i as int), ind),
                self.indent == old(self).indent,
                ind == self.indent as nat,
                map_grows(old(self).source_map_of(), self.source_map_of()),
            decreases xs.len() - i,
        {
            self.gen_case(&xs[i]);
            assert(xs@.subrange(0, i + 1).drop_last() =~= xs@.subrange(0, i as int));
            assert(cases_text(xs@.subrange(0, i + 1), ind) == cases_text(xs@.subrange(0, i as int), ind)
                + case_text(xs@[i as int], ind));
            i += 1;
        }
        assert(xs@.subrange(0, xs@.len() as int) =~= xs@);
    }

    /// Appends `static ` for a static member.
    #[verifier::rlimit(50)]
    fn gen_static(&mut self, is_static: bool)
        requires
            old(self).wf(),
        ensures
            final(self).wf(),
            final(self).output@ == old(self).output@ + static_text(is_static),
            final(self).indent == old(self).indent,
            final(self).source_map_of() == old(self).source_map_of(),
    {
        if is_static {
            self.emit("static ");
        }
    }

    /// Appends a class field name.
    #[verifier::rlimit(50)]
    fn gen_field_key(&mut self, k: &PropertyKey)
        requires
            old(self).wf(),
        ensures
            final(self).wf(),
            final(self).output@ == old(self).output@ + field_key_text(*k, old(self).indent as nat),
            final(self).indent == old(self).indent,
            map_grows(old(self).source_map_of(), final(self).source_map_of()),
        decreases k, 0nat,
    {
        match k {
            PropertyKey::Identifier(n) => self.emit(n.as_str()),
            PropertyKey::String(n) => {
                self.emit_quoted(n.as_str());
            },
            PropertyKey::Expression(x) => {
                self.emit("[");
                gen_expression(self, x);
                self.emit("]");
            },
        }
    }

    /// Appends one class field line.
    #[verifier::rlimit(50)]
    fn gen_field(&mut self, x: &ClassField)
        requires
            old(self).wf(),
        ensures
            final(self).wf(),
            final(self).output@ == old(self).output@ + field_text(*x, old(self).indent as nat),
            final(self).indent == old(self).indent,
            map_grows(old(self).source_map_of(), final(self).source_map_of()),
        decreases x, 0nat,
    {
        self.gen_indent();
        self.emit(visibility(x.visibility));
        self.gen_static(x.is_static);
        self.gen_field_key(&x.key);
        gen_opt_after(self, " = ", &x.init);
        self.emit(";\n");
    }

    /// Appends class fields at the current level.
    #[verifier::rlimit(50)]
    fn gen_fields(&mut self, xs: &Vec<ClassField>)
        requires
            old(self).wf(),
        ensures
            final(self).wf(),
            final(self).output@ == old(self).output@ + fields_text(xs@, old(self).indent as nat),
            final(self).indent == old(self).indent,
            map_grows(old(self).source_map_of(), final(self).source_map_of()),
        decreases xs@, 0nat,
    {
        let ghost ind = self.indent as nat;
        let mut i: usize = 0;
        while i < xs.len()
            invariant
                i <= xs.len(),
                self.wf(),
                self.output@ == old(self).output@ + fields_text(xs@.subrange(0, i as int), ind),
                self.indent == old(self).indent,
                ind == self.indent as nat,
                map_grows(old(self).source_map_of(), self.source_map_of()),
            decreases xs.len() - i,
        {
            self.gen_field(&xs[i]);
            assert(xs@.subrange(0, i + 1).drop_last() =~= xs@.subrange(0, i as int));
            assert(fields_text(xs@.subrange(0, i + 1), ind) == fields_text(xs@.subrange(0, i as int), ind)
                + field_text(xs@[i as int], ind));
            i += 1;
        }
        assert(xs@.subrange(0, xs@.len() as int) =~= xs@);
    }

    /// Appends a class method name and the opening parenthesis.
    #[verifier::rlimit(50)]
    fn gen_method_key(&mut self, k: &PropertyKey, kind: MethodKind)
        requires
            old(self).wf(),
        ensures
            final(self).wf(),
            final(self).output@ == old(self).output@ + method_key_text(*k, kind, old(self).indent as nat),
            final(self).indent == old(self).indent,
            map_grows(old(self).source_map_of(), final(self).source_map_of()),
        decreases k, 0nat,
    {
        match k {
            PropertyKey::Identifier(n) => {
                if kind == MethodKind::Constructor {
                    self.emit("constructor(");
                } else {
                    self.emit(n.as_str());
                    self.emit("(");
                }
            },
            PropertyKey::String(n) => {
                self.emit_quoted(n.as_str());
                self.emit("(");
            },
            PropertyKey::Expression(x) => {
                self.emit("[");
                gen_expression(self, x);
                self.emit("](");
            },
        }
    }

    /// Appends one class method.
    #[verifier::rlimit(50)]
    fn gen_method(&mut self, x: &MethodDefinition)
        requires
            old(self).wf(),
        ensures
            final(self).wf(),
            final(self).output@ == old(self).output@ + method_text(*x, old(self).indent as nat),
            final(self).indent == old(self).indent,
            map_grows(old(self).source_map_of(), final(self).source_map_of()),
        decreases x, 0nat,
    {
        let ghost o = self.output@;
        let ghost ind = self.indent as nat;
        self.gen_indent();
        self.emit(visibility(x.visibility));
        self.gen_static(x.is_static);
        self.gen_method_key(&x.key, x.kind);
        gen_params(self, &x.params);
        self.emit(") ");
        let ghost head = indent_text(ind) + visibility_text(x.visibility) + static_text(x.is_static)
            + method_key_text(x.key, x.kind, ind) + params_text(x.params@, ind) + ") "@;
        assert(self.output@ =~= o + head);
        let ghost o2 = self.output@;
        self.gen_statement(&x.body);
        assert(self.output@ =~= o2 + stmt_text(*x.body, ind));
        assert(self.output@ =~= o + (head + stmt_text(*x.body, ind)));
    }

    /// Appends class methods at the current level.
    #[verifier::rlimit(50)]
    fn gen_methods(&mut self, xs: &Vec<MethodDefinition>)
        requires
            old(self).wf(),
        ensures
            final(self).wf(),
            final(self).output@ == old(self).output@ + methods_text(xs@, old(self).indent as nat),
            final(self).indent == old(self).indent,
            map_grows(old(self).source_map_of(), final(self).source_map_of()),
        decreases xs@, 0nat,
    {
        let ghost ind = self.indent as nat;
        let mut i: usize = 0;
        while i < xs.len()
            invariant
                i <= xs.len(),
                self.wf(),
                self.output@ == old(self).output@ + methods_text(xs@.subrange(0, i as int), ind),
                self.indent == old(self).indent,
                ind == self.indent as nat,
                map_grows(old(self).source_map_of(), self.source_map_of()),
            decreases xs.len() - i,
        {
            self.gen_method(&xs[i]);
            assert(xs@.subrange(0, i + 1).drop_last() =~= xs@.subrange(0, i as int));
            assert(methods_text(xs@.subrange(0, i + 1), ind) == methods_text(xs@.subrange(0, i as int), ind)
                + method_text(xs@[i as int], ind));
            i += 1;
        }
        assert(xs@.subrange(0, xs@.len() as int) =~= xs@);
    }

    /// Appends the listed import specifiers, separated by `, `.
    #[verifier::rlimit(50)]
    fn gen_import_items(&mut self, ss: &Vec<ImportSpecifier>, named_only: bool)
        requires
            old(self).wf(),
        ensures
            final(self).wf(),
            final(self).output@ == old(self).output@ + import_items(ss@, named_only),
            final(self).indent == old(self).indent,
            final(self).source_map_of() == old(self).source_map_of(),
    {
        let mut listed_any = false;
        let mut i: usize = 0;
        while i < ss.len()
            invariant
                i <= ss.len(),
                self.wf(),
                self.output@ == old(self).output@ + import_items(
                    ss@.subrange(0, i as int),
                    named_only,
                ),
                listed_any == any_listed(ss@.subrange(0, i as int), named_only),
                self.indent == old(self).indent,
                self.source_map_of() == old(self).source_map_of(),
            decreases ss.len() - i,
        {
            let s = &ss[i];
            let ghost pre = ss@.subrange(0, i as int);
            let ghost next = ss@.subrange(0, i + 1);
            assert(next.drop_last() =~= pre);
            if !named_only || !s.is_default {
                if listed_any {
                    self.emit(", ");
                }
                match &s.imported {
                    Some(im) => {
                        self.emit(im.as_str());
                        self.emit(" as ");
                        self.emit(s.local.as_str());
                    },
                    None => self.emit(s.local.as_str()),
                }
                listed_any = true;
                assert(import_listed(next[i as int], named_only));
            } else {
                assert forall|j: int| 0 <= j < next.len() && import_listed(
                    #[trigger] next[j],
                    named_only,
                ) implies j < i by {
                    if j == i {
                        assert(next[j] == ss@[i as int]);
                    }
                }
                proof {
                    if any_listed(next, named_only) {
                        let j = choose|j: int| 0 <= j < next.len() && import_listed(
                            #[trigger] next[j],
                            named_only,
                        );
                        assert(pre[j] == next[j]);
                    }
                }
                proof {
                    if any_listed(pre, named_only) {
                        let j = choose|j: int| 0 <= j < pre.len() && import_listed(
                            #[trigger] pre[j],
                            named_only,
                        );
                        assert(pre[j] == next[j]);
                    }
                }
            }
            i += 1;
        }
        assert(ss@.subrange(0, ss@.len() as int) =~= ss@);
    }

    /// Appends an import declaration that is not type-only.
    #[verifier::rlimit(50)]
    fn gen_import(&mut self, ss: &Vec<ImportSpecifier>, source: &String)
        requires
            old(self).wf(),
        ensures
            final(self).wf(),
            final(self).output@ == old(self).output@ + "import "@ + import_clause(ss@)
                + " from "@ + quoted(source@) + ";\n"@,
            final(self).indent == old(self).indent,
            final(self).source_map_of() == old(self).source_map_of(),
    {
        let mut named = false;
        let mut has_def = false;
        let mut first_default: usize = 0;
        let mut i: usize = 0;
        while i < ss.len()
            invariant
                i <= ss.len(),
                named == any_listed(ss@.subrange(0, i as int), true),
                has_def == has_default(ss@.subrange(0, i as int)),
                has_def ==> first_default < i && ss@[first_default as int].is_default,
                has_def ==> forall|j: int| 0 <= j < first_default ==> !(#[trigger] ss@[j]).is_default,
                !has_def ==> forall|j: int| 0 <= j < i ==> !(#[trigger] ss@[j]).is_default,
            decreases ss.len() - i,
        {
            let ghost pre = ss@.subrange(0, i as int);
            let ghost next = ss@.subrange(0, i + 1);
            if ss[i].is_default {
                if !has_def {
                    first_default = i;
                }
                has_def = true;
                assert(next[i as int].is_default);
                proof {
                    if any_listed(next, true) {
                        let j = choose|j: int| 0 <= j < next.len() && import_listed(#[trigger] next[j], true);
                        assert(pre[j] == next[j]);
                    }
                }
                proof {
                    if any_listed(pre, true) {
                        let j = choose|j: int| 0 <= j < pre.len() && import_listed(#[trigger] pre[j], true);
                        assert(pre[j] == next[j]);
                    }
                }
            } else {
                named = true;
                assert(import_listed(next[i as int], true));
                proof {
                    if has_default(next) {
                        let j = choose|j: int| 0 <= j < next.len() && (#[trigger] next[j]).is_default;
                        assert(pre[j] == next[j]);
                    }
                }
                proof {
                    if has_default(pre) {
                        let j = choose|j: int| 0 <= j < pre.len() && (#[trigger] pre[j]).is_default;
                        assert(pre[j] == next[j]);
                    }
                }
            }
            i += 1;
        }
        assert(ss@.subrange(0, ss@.len() as int) =~= ss@);
        self.emit("import ");
        if has_def && !named {
            self.emit(ss[0].local.as_str());
        } else if has_def && named {
            proof {
                lemma_first_default(ss@, first_default as int);
            }
            self.emit(ss[first_default].local.as_str());
            self.emit(", ");
            self.emit("{ ");
            self.gen_import_items(ss, true);
            self.emit(" }");
        } else {
            self.emit("{ ");
            self.gen_import_items(ss, false);
            self.emit(" }");
        }
        self.emit(" from ");
        self.emit_quoted(source.as_str());
        self.emit(";\n");
    }

    /// Appends one enum member, the `k`-th (from 0) without a value if it
    /// has none.
    #[verifier::rlimit(50)]
    fn gen_enum_member(&mut self, m: &EnumMember, k: usize)
        requires
            old(self).wf(),
        ensures
            final(self).wf(),
            final(self).output@ == old(self).output@ + enum_member_text(*m, k as nat),
            final(self).indent == old(self).indent,
            final(self).source_map_of() == old(self).source_map_of(),
    {
        let ghost o = self.output@;
        self.emit_quoted(m.name.as_str());
        self.emit(": ");
        match &m.value {
            Some(v) => self.emit_quoted(v.as_str()),
            None => {
                let mut t = String::new();
                crate::text::push_decimal(&mut t, k);
                assert(t@ =~= crate::text::decimal(k as nat));
                self.emit(t.as_str());
            },
        }
        assert(self.output@ =~= o + enum_member_text(*m, k as nat));
    }

    /// Appends the members of an enum object.
    #[verifier::rlimit(50)]
    fn gen_enum_members(&mut self, ms: &Vec<EnumMember>)
        requires
            old(self).wf(),
        ensures
            final(self).wf(),
            final(self).output@ == old(self).output@ + enum_members_text(ms@),
            final(self).indent == old(self).indent,
            final(self).source_map_of() == old(self).source_map_of(),
    {
        let mut i: usize = 0;
        let mut k: usize = 0;
        while i < ms.len()
            invariant
                i <= ms.len(),
                k <= i,
                k == unvalued(ms@.subrange(0, i as int)),
                self.wf(),
                self.output@ == old(self).output@ + enum_members_text(ms@.subrange(0, i as int)),
                self.indent == old(self).indent,
                self.source_map_of() == old(self).source_map_of(),
            decreases ms.len() - i,
        {
            if i > 0 {
                self.emit(", ");
            }
            self.gen_enum_member(&ms[i], k);
            assert(ms@.subrange(0, i + 1).drop_last() =~= ms@.subrange(0, i as int));
            if ms[i].value.is_none() {
                k += 1;
            }
            i += 1;
        }
        assert(ms@.subrange(0, ms@.len() as int) =~= ms@);
    }

    /// Appends `else` and the alternative, if there is one.
    #[verifier::rlimit(50)]
    fn gen_else(&mut self, alt: &Option<Box<Statement>>)
        requires
            old(self).wf(),
        ensures
            final(self).wf(),
            final(self).output@ == old(self).output@ + else_text(*alt, old(self).indent as nat),
            final(self).indent == old(self).indent,
            map_grows(old(self).source_map_of(), final(self).source_map_of()),
        decreases alt, 0nat,
    {
        let ghost o = self.output@;
        match alt {
            Some(a) => {
                self.emit("else ");
                self.gen_statement(a);
                assert(self.output@ =~= o + ("else "@ + stmt_text(**a, self.indent as nat)));
            },
            None => {},
        }
    }

    /// Appends the initializer part of a `for` head.
    #[verifier::rlimit(50)]
    fn gen_for_init(&mut self, init: &Option<ForInit>)
        requires
            old(self).wf(),
        ensures
            final(self).wf(),
            final(self).output@ == old(self).output@ + for_init_text(*init, old(self).indent as nat),
            final(self).indent == old(self).indent,
            map_grows(old(self).source_map_of(), final(self).source_map_of()),
        decreases init, 0nat,
    {
        match init {
            Some(ForInit::Expression(x)) => gen_expression(self, x),
            Some(ForInit::VariableDeclaration { kind, declarations }) => {
                self.emit(keyword(kind));
                self.emit(" ");
                self.gen_decls(declarations);
            },
            None => {},
        }
    }

    /// Appends the catch clause of a try statement, if there is one.
    #[verifier::rlimit(50)]
    fn gen_catch(&mut self, h: &Option<CatchClause>)
        requires
            old(self).wf(),
        ensures
            final(self).wf(),
            final(self).output@ == old(self).output@ + catch_text(*h, old(self).indent as nat),
            final(self).indent == old(self).indent,
            map_grows(old(self).source_map_of(), final(self).source_map_of()),
        decreases h, 0nat,
    {
        let ghost o = self.output@;
        let ghost ind = self.indent as nat;
        match h {
            Some(c) => {
                self.emit(" catch (");
                self.emit(c.param.as_str());
                self.emit(")");
                self.emit(" {\n");
                let ghost head = " catch ("@ + c.param@ + ")"@
                    + " {\n"@;
                assert(self.output@ =~= o + head);
                let ghost o1 = self.output@;
                self.gen_nested(&c.body);
                self.gen_indent();
                self.emit("}\n");
                let ghost tail = stmts_text(c.body@, deeper(ind)) + indent_text(ind) + "}\n"@;
                assert(self.output@ =~= o1 + tail);
                assert(self.output@ =~= o + (head + tail));
            },
            None => {},
        }
    }

    /// Appends the finally clause of a try statement, if there is one.
    #[verifier::rlimit(50)]
    fn gen_finally(&mut self, f: &Option<Vec<Statement>>)
        requires
            old(self).wf(),
        ensures
            final(self).wf(),
            final(self).output@ == old(self).output@ + finally_text(*f, old(self).indent as nat),
            final(self).indent == old(self).indent,
            map_grows(old(self).source_map_of(), final(self).source_map_of()),
        decreases f, 0nat,
    {
        match f {
            Some(b) => {
                self.emit(" finally {\n");
                self.gen_nested(b);
                self.gen_indent();
                self.emit("}\n");
            },
            None => {},
        }
    }

    /// Appends a `break` or `continue` line.
    #[verifier::rlimit(50)]
    fn gen_jump(&mut self, keyword: &str, label: &Option<String>)
        requires
            old(self).wf(),
        ensures
            final(self).wf(),
            final(self).output@ == old(self).output@ + jump_text(keyword@, *label),
            final(self).indent == old(self).indent,
            final(self).source_map_of() == old(self).source_map_of(),
    {
        self.emit(keyword);
        match label {
            Some(l) => {
                self.emit(" ");
                self.emit(l.as_str());
                self.emit(";\n");
            },
            None => self.emit(";\n"),
        }
    }

    /// Appends an expression statement.
    #[verifier::rlimit(50)]
    fn gen_expression_statement(&mut self, stmt: &Statement)
        requires
            old(self).wf(),
            stmt is ExpressionStatement,
        ensures
            final(self).wf(),
            final(self).output@ == old(self).output@ + stmt_text(*stmt, old(self).indent as nat),
            final(self).indent == old(self).indent,
            map_grows(old(self).source_map_of(), final(self).source_map_of()),
        decreases stmt, 1nat,
    {
        match stmt {
            Statement::ExpressionStatement { expression, .. } => {
                gen_expression(self, expression);
                self.emit(";\n");
            },
            _ => {},
        }
    }

    /// Appends a variable declaration.
    #[verifier::rlimit(50)]
    fn gen_variable_declaration(&mut self, stmt: &Statement)
        requires
            old(self).wf(),
            stmt is VariableDeclaration,
        ensures
            final(self).wf(),
            final(self).output@ == old(self).output@ + stmt_text(*stmt, old(self).indent as nat),
            final(self).indent == old(self).indent,
            map_grows(old(self).source_map_of(), final(self).source_map_of()),
        decreases stmt, 1nat,
    {
        match stmt {
            Statement::VariableDeclaration { kind, declarations, .. } => {
                self.emit(keyword(kind));
                self.emit(" ");
                self.gen_decls(declarations);
                self.emit(";\n");
            },
            _ => {},
        }
    }

    /// Appends a block.
    #[verifier::rlimit(50)]
    fn gen_block(&mut self, stmt: &Statement)
        requires
            old(self).wf(),
            stmt is BlockStatement,
        ensures
            final(self).wf(),
            final(self).output@ == old(self).output@ + stmt_text(*stmt, old(self).indent as nat),
            final(self).indent == old(self).indent,
            map_grows(old(self).source_map_of(), final(self).source_map_of()),
        decreases stmt, 1nat,
    {
        match stmt {
            Statement::BlockStatement { body, .. } => {
                self.emit("{\n");
                self.gen_nested(body);
                self.gen_indent();
                self.emit("}\n");
            },
            _ => {},
        }
    }

    /// Appends an if statement.
    #[verifier::rlimit(50)]
    fn gen_if(&mut self, stmt: &Statement)
        requires
            old(self).wf(),
            stmt is IfStatement,
        ensures
            final(self).wf(),
            final(self).output@ == old(self).output@ + stmt_text(*stmt, old(self).indent as nat),
            final(self).indent == old(self).indent,
            map_grows(old(self).source_map_of(), final(self).source_map_of()),
        decreases stmt, 1nat,
    {
        match stmt {
            Statement::IfStatement { test, consequent, alternate, .. } => {
                self.gen_indent();
                self.emit("if (");
                gen_expression(self, test);
                self.emit(") ");
                self.gen_statement(consequent);
                self.gen_else(alternate);
            },
            _ => {},
        }
    }

    /// Appends a while loop.
    #[verifier::rlimit(50)]
    fn gen_while(&mut self, stmt: &Statement)
        requires
            old(self).wf(),
            stmt is WhileStatement,
        ensures
            final(self).wf(),
            final(self).output@ == old(self).output@ + stmt_text(*stmt, old(self).indent as nat),
            final(self).indent == old(self).indent,
            map_grows(old(self).source_map_of(), final(self).source_map_of()),
        decreases stmt, 1nat,
    {
        match stmt {
            Statement::WhileStatement { test, body, .. } => {
                self.gen_indent();
                self.emit("while (");
                gen_expression(self, test);
                self.emit(") ");
                self.gen_statement(body);
            },
            _ => {},
        }
    }

    /// Appends a `for` loop.
    #[verifier::rlimit(50)]
    fn gen_for(&mut self, stmt: &Statement)
        requires
            old(self).wf(),
            stmt is ForStatement,
        ensures
            final(self).wf(),
            final(self).output@ == old(self).output@ + stmt_text(*stmt, old(self).indent as nat),
            final(self).indent == old(self).indent,
            map_grows(old(self).source_map_of(), final(self).source_map_of()),
        decreases stmt, 1nat,
    {
        match stmt {
            Statement::ForStatement { init, test, update, body, .. } => {
                self.gen_indent();
                self.emit("for (");
                self.gen_for_init(init);
                self.emit("; ");
                gen_opt_after(self, "", test);
                self.emit("; ");
                gen_opt_after(self, "", update);
                self.emit(") ");
                self.gen_statement(body);
            },
            _ => {},
        }
    }

    /// Appends a return statement.
    #[verifier::rlimit(50)]
    fn gen_return(&mut self, stmt: &Statement)
        requires
            old(self).wf(),
            stmt is ReturnStatement,
        ensures
            final(self).wf(),
            final(self).output@ == old(self).output@ + stmt_text(*stmt, old(self).indent as nat),
            final(self).indent == old(self).indent,
            map_grows(old(self).source_map_of(), final(self).source_map_of()),
        decreases stmt, 1nat,
    {
        match stmt {
            Statement::ReturnStatement { value, .. } => {
                self.gen_indent();
                self.emit("return");
                gen_opt_after(self, " ", value);
                self.emit(";\n");
            },
            _ => {},
        }
    }

    /// Appends a function declaration.
    #[verifier::rlimit(50)]
    fn gen_function(&mut self, stmt: &Statement)
        requires
            old(self).wf(),
            stmt is FunctionDeclaration,
        ensures
            final(self).wf(),
            final(self).output@ == old(self).output@ + stmt_text(*stmt, old(self).indent as nat),
            final(self).indent == old(self).indent,
            map_grows(old(self).source_map_of(), final(self).source_map_of()),
        decreases stmt, 1nat,
    {
        match stmt {
            Statement::FunctionDeclaration { name, params, body, is_async, .. } => {
                let ghost o = self.output@;
                let ghost ind = self.indent as nat;
                self.gen_indent();
                if *is_async {
                    self.emit("async ");
                }
                self.emit("function ");
                self.emit(name.as_str());
                let ghost head = indent_text(ind) + async_text(*is_async) + "function "@ + name@;
                assert(self.output@ =~= o + head);
                let ghost o1 = self.output@;
                self.emit("(");
                gen_params(self, params);
                self.emit(") ");
                self.gen_statement(body);
                let ghost tail = "("@ + params_text(params@, ind) + ") "@ + stmt_text(**body, ind);
                assert(self.output@ =~= o1 + tail);
                assert(self.output@ =~= o + (head + tail));
            },
            _ => {},
        }
    }

    /// Appends an import declaration; a type-only import prints nothing.
    #[verifier::rlimit(50)]
    fn gen_import_declaration(&mut self, stmt: &Statement)
        requires
            old(self).wf(),
            stmt is ImportDeclaration,
        ensures
            final(self).wf(),
            final(self).output@ == old(self).output@ + stmt_text(*stmt, old(self).indent as nat),
            final(self).indent == old(self).indent,
            map_grows(old(self).source_map_of(), final(self).source_map_of()),
        decreases stmt, 1nat,
    {
        match stmt {
            Statement::ImportDeclaration { specifiers, source, is_type, .. } => {
                if !*is_type {
                    self.gen_indent();
                    self.gen_import(specifiers, source);
                }
            },
            _ => {},
        }
    }

    /// Appends an export declaration.
    #[verifier::rlimit(50)]
    fn gen_export(&mut self, stmt: &Statement)
        requires
            old(self).wf(),
            stmt is ExportDeclaration,
        ensures
            final(self).wf(),
            final(self).output@ == old(self).output@ + stmt_text(*stmt, old(self).indent as nat),
            final(self).indent == old(self).indent,
            map_grows(old(self).source_map_of(), final(self).source_map_of()),
        decreases stmt, 1nat,
    {
        match stmt {
            Statement::ExportDeclaration { declaration, .. } => {
                self.gen_indent();
                self.emit("export ");
                self.gen_statement(declaration);
            },
            _ => {},
        }
    }

    /// Appends a `for ... of` or `for ... in` loop.
    #[verifier::rlimit(50)]
    fn gen_for_in_of(&mut self, stmt: &Statement)
        requires
            old(self).wf(),
            stmt is ForInOfStatement,
        ensures
            final(self).wf(),
            final(self).output@ == old(self).output@ + stmt_text(*stmt, old(self).indent as nat),
            final(self).indent == old(self).indent,
            map_grows(old(self).source_map_of(), final(self).source_map_of()),
        decreases stmt, 1nat,
    {
        match stmt {
            Statement::ForInOfStatement { kind, left, right, body, is_of, .. } => {
                let ghost o = self.output@;
                let ghost ind = self.indent as nat;
                self.gen_indent();
                self.emit("for (");
                self.emit(keyword(kind));
                self.emit(" ");
                self.emit(left.as_str());
                if *is_of {
                    self.emit(" of ");
                } else {
                    self.emit(" in ");
                }
                let ghost head = indent_text(ind) + "for ("@ + keyword_text(*kind) + " "@ + left@
                    + (if *is_of {
                    " of "@
                } else {
                    " in "@
                });
                assert(self.output@ =~= o + head);
                let ghost o1 = self.output@;
                gen_expression(self, right);
                self.emit(") ");
                self.gen_statement(body);
                let ghost tail = expr_text(**right, ind) + ") "@ + stmt_text(**body, ind);
                assert(self.output@ =~= o1 + tail);
                assert(self.output@ =~= o + (head + tail));
            },
            _ => {},
        }
    }

    /// Appends a switch statement.
    #[verifier::rlimit(50)]
    fn gen_switch(&mut self, stmt: &Statement)
        requires
            old(self).wf(),
            stmt is SwitchStatement,
        ensures
            final(self).wf(),
            final(self).output@ == old(self).output@ + stmt_text(*stmt, old(self).indent as nat),
            final(self).indent == old(self).indent,
            map_grows(old(self).source_map_of(), final(self).source_map_of()),
        decreases stmt, 1nat,
    {
        match stmt {
            Statement::SwitchStatement { discriminant, cases, .. } => {
                self.gen_indent();
                self.emit("switch (");
                gen_expression(self, discriminant);
                self.emit(") {\n");
                self.gen_nested_cases(cases);
                self.gen_indent();
                self.emit("}\n");
            },
            _ => {},
        }
    }

    /// Appends a throw statement.
    #[verifier::rlimit(50)]
    fn gen_throw(&mut self, stmt: &Statement)
        requires
            old(self).wf(),
            stmt is ThrowStatement,
        ensures
            final(self).wf(),
            final(self).output@ == old(self).output@ + stmt_text(*stmt, old(self).indent as nat),
            final(self).indent == old(self).indent,
            map_grows(old(self).source_map_of(), final(self).source_map_of()),
        decreases stmt, 1nat,
    {
        match stmt {
            Statement::ThrowStatement { argument, .. } => {
                self.gen_indent();
                self.emit("throw ");
                gen_expression(self, argument);
                self.emit(";\n");
            },
            _ => {},
        }
    }

    /// Appends a try statement.
    #[verifier::rlimit(50)]
    fn gen_try(&mut self, stmt: &Statement)
        requires
            old(self).wf(),
            stmt is TryStatement,
        ensures
            final(self).wf(),
            final(self).output@ == old(self).output@ + stmt_text(*stmt, old(self).indent as nat),
            final(self).indent == old(self).indent,
            map_grows(old(self).source_map_of(), final(self).source_map_of()),
        decreases stmt, 1nat,
    {
        match stmt {
            Statement::TryStatement { body, handler, finalizer, .. } => {
                self.gen_indent();
                self.emit("try \n");
                self.gen_statement(body);
                self.gen_catch(handler);
                self.gen_finally(finalizer);
            },
            _ => {},
        }
    }

    /// Appends a break statement.
    #[verifier::rlimit(50)]
    fn gen_break(&mut self, stmt: &Statement)
        requires
            old(self).wf(),
            stmt is BreakStatement,
        ensures
            final(self).wf(),
            final(self).output@ == old(self).output@ + stmt_text(*stmt, old(self).indent as nat),
            final(self).indent == old(self).indent,
            map_grows(old(self).source_map_of(), final(self).source_map_of()),
        decreases stmt, 1nat,
    {
        match stmt {
            Statement::BreakStatement { label, .. } => {
                self.gen_indent();
                self.gen_jump("break", label);
            },
            _ => {},
        }
    }

    /// Appends a continue statement.
    #[verifier::rlimit(50)]
    fn gen_continue(&mut self, stmt: &Statement)
        requires
            old(self).wf(),
            stmt is ContinueStatement,
        ensures
            final(self).wf(),
            final(self).output@ == old(self).output@ + stmt_text(*stmt, old(self).indent as nat),
            final(self).indent == old(self).indent,
            map_grows(old(self).source_map_of(), final(self).source_map_of()),
        decreases stmt, 1nat,
    {
        match stmt {
            Statement::ContinueStatement { label, .. } => {
                self.gen_indent();
                self.gen_jump("continue", label);
            },
            _ => {},
        }
    }

    /// Appends a labeled statement.
    #[verifier::rlimit(50)]
    fn gen_labeled(&mut self, stmt: &Statement)
        requires
            old(self).wf(),
            stmt is LabeledStatement,
        ensures
            final(self).wf(),
            final(self).output@ == old(self).output@ + stmt_text(*stmt, old(self).indent as nat),
            final(self).indent == old(self).indent,
            map_grows(old(self).source_map_of(), final(self).source_map_of()),
        decreases stmt, 1nat,
    {
        match stmt {
            Statement::LabeledStatement { label, body, .. } => {
                self.gen_indent();
                self.emit(label.as_str());
                self.emit(": ");
                self.gen_statement(body);
            },
            _ => {},
        }
    }

    /// Appends a do-while loop.
    #[verifier::rlimit(50)]
    fn gen_do_while(&mut self, stmt: &Statement)
        requires
            old(self).wf(),
            stmt is DoWhileStatement,
        ensures
            final(self).wf(),
            final(self).output@ == old(self).output@ + stmt_text(*stmt, old(self).indent as nat),
            final(self).indent == old(self).indent,
            map_grows(old(self).source_map_of(), final(self).source_map_of()),
        decreases stmt, 1nat,
    {
        match stmt {
            Statement::DoWhileStatement { test, body, .. } => {
                self.gen_indent();
                self.emit("do ");
                self.gen_statement(body);
                self.emit("while (");
                gen_expression(self, test);
                self.emit(");\n");
            },
            _ => {},
        }
    }

    /// Appends a class declaration: its fields, then its methods.
    #[verifier::rlimit(50)]
    fn gen_class(&mut self, stmt: &Statement)
        requires
            old(self).wf(),
            stmt is ClassDeclaration,
        ensures
            final(self).wf(),
            final(self).output@ == old(self).output@ + stmt_text(*stmt, old(self).indent as nat),
            final(self).indent == old(self).indent,
            map_grows(old(self).source_map_of(), final(self).source_map_of()),
        decreases stmt, 1nat,
    {
        match stmt {
            Statement::ClassDeclaration { name, superclass, body, .. } => {
                let ghost o = self.output@;
                let ghost ind = self.indent as nat;
                self.gen_indent();
                self.emit("class ");
                self.emit(name.as_str());
                gen_opt_after(self, " extends ", superclass);
                self.emit(" {\n");
                let ghost head = indent_text(ind) + "class "@ + name@ + opt_after(
                    " extends "@,
                    *superclass,
                    ind,
                ) + " {\n"@;
                assert(self.output@ =~= o + head);
                let ghost o1 = self.output@;
                self.gen_class_body(body);
                self.gen_indent();
                self.emit("}\n");
                let ghost tail = fields_text(body.fields@, deeper(ind)) + methods_text(
                    body.methods@,
                    deeper(ind),
                ) + indent_text(ind) + "}\n"@;
                assert(self.output@ =~= o1 + tail);
                assert(self.output@ =~= o + (head + tail));
            },
            _ => {},
        }
    }

    /// Appends an enum as a constant object.
    #[verifier::rlimit(50)]
    fn gen_enum(&mut self, stmt: &Statement)
        requires
            old(self).wf(),
            stmt is EnumDeclaration,
        ensures
            final(self).wf(),
            final(self).output@ == old(self).output@ + stmt_text(*stmt, old(self).indent as nat),
            final(self).indent == old(self).indent,
            map_grows(old(self).source_map_of(), final(self).source_map_of()),
        decreases stmt, 1nat,
    {
        match stmt {
            Statement::EnumDeclaration { name, members, .. } => {
                self.gen_indent();
                self.emit("const ");
                self.emit(name.as_str());
                self.emit(" = {");
                self.gen_enum_members(members);
                self.emit("};\n");
            },
            _ => {},
        }
    }

    /// Appends switch cases one level deeper than the current level.
    #[verifier::rlimit(50)]
    fn gen_nested_cases(&mut self, cs: &Vec<SwitchCase>)
        requires
            old(self).wf(),
        ensures
            final(self).wf(),
            final(self).output@ == old(self).output@ + cases_text(
                cs@,
                deeper(old(self).indent as nat),
            ),
            final(self).indent == old(self).indent,
            map_grows(old(self).source_map_of(), final(self).source_map_of()),
        decreases cs@, 1nat,
    {
        let saved = self.indent;
        if self.indent < usize::MAX {
            self.indent = self.indent + 1;
        }
        self.gen_cases(cs);
        self.indent = saved;
    }

    /// Appends the fields, then the methods, of a class one level deeper.
    #[verifier::rlimit(50)]
    fn gen_class_body(&mut self, body: &ClassBody)
        requires
            old(self).wf(),
        ensures
            final(self).wf(),
            final(self).output@ == old(self).output@ + fields_text(
                body.fields@,
                deeper(old(self).indent as nat),
            ) + methods_text(body.methods@, deeper(old(self).indent as nat)),
            final(self).indent == old(self).indent,
            map_grows(old(self).source_map_of(), final(self).source_map_of()),
        decreases body, 0nat,
    {
        let saved = self.indent;
        if self.indent < usize::MAX {
            self.indent = self.indent + 1;
        }
        self.gen_fields(&body.fields);
        self.gen_methods(&body.methods);
        self.indent = saved;
    }

    /// Appends the text of a statement at the current level, first
    /// recording where it came from.
    #[verifier::rlimit(50)]
    pub fn gen_statement(&mut self, stmt: &Statement)
        requires
            old(self).wf(),
        ensures
            final(self).wf(),
            final(self).output@ == old(self).output@ + stmt_text(*stmt, old(self).indent as nat),
            final(self).indent == old(self).indent,
            map_grows(old(self).source_map_of(), final(self).source_map_of()),
        decreases stmt, 2nat,
    {
        self.record_mapping(stmt.span());
        match stmt {
            Statement::ExpressionStatement { .. } => self.gen_expression_statement(stmt),
            Statement::VariableDeclaration { .. } => self.gen_variable_declaration(stmt),
            Statement::BlockStatement { .. } => self.gen_block(stmt),
            Statement::IfStatement { .. } => self.gen_if(stmt),
            Statement::WhileStatement { .. } => self.gen_while(stmt),
            Statement::ForStatement { .. } => self.gen_for(stmt),
            Statement::ForInOfStatement { .. } => self.gen_for_in_of(stmt),
            Statement::ReturnStatement { .. } => self.gen_return(stmt),
            Statement::FunctionDeclaration { .. } => self.gen_function(stmt),
            Statement::ImportDeclaration { .. } => self.gen_import_declaration(stmt),
            Statement::TypeAliasDeclaration { .. } => {
                assert(self.output@ =~= old(self).output@ + stmt_text(*stmt, self.indent as nat));
            },
            Statement::InterfaceDeclaration { .. } => {
                assert(self.output@ =~= old(self).output@ + stmt_text(*stmt, self.indent as nat));
            },
            Statement::ExportDeclaration { .. } => self.gen_export(stmt),
            Statement::SwitchStatement { .. } => self.gen_switch(stmt),
            Statement::ThrowStatement { .. } => self.gen_throw(stmt),
            Statement::TryStatement { .. } => self.gen_try(stmt),
            Statement::BreakStatement { .. } => self.gen_break(stmt),
            Statement::ContinueStatement { .. } => self.gen_continue(stmt),
            Statement::LabeledStatement { .. } => self.gen_labeled(stmt),
            Statement::DoWhileStatement { .. } => self.gen_do_while(stmt),
            Statement::ClassDeclaration { .. } => self.gen_class(stmt),
            Statement::EnumDeclaration { .. } => self.gen_enum(stmt),
        }
    }
}

} // verus!
