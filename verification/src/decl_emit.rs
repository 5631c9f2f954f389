//! Declaration output: the `.d.ts` text of a program, and how a type
//! annotation is written.
use vstd::prelude::*;

use crate::ast::{
    ClassBody, ClassField, EnumMember, Expression, ImportSpecifier, LiteralValue, MethodDefinition, MethodKind,
    ObjectTypeProperty, Parameter, Program, PropertyKey, Statement, TypeAnn, VariableDeclarator,
    Visibility,
};

verus! {

/// How a literal type is written.
pub open spec fn literal_text(v: LiteralValue) -> Seq<char> {
    match v {
        LiteralValue::String(s) => "\""@ + s@ + "\""@,
        LiteralValue::Number(n) => n@,
        LiteralValue::Boolean(b) => if b {
            "true"@
        } else {
            "false"@
        },
    }
}

/// How a type annotation is written.
pub open spec fn type_ann_text(t: TypeAnn) -> Seq<char>
    decreases t,
{
    match t {
        TypeAnn::Number => "number"@,
        TypeAnn::String => "string"@,
        TypeAnn::Boolean => "boolean"@,
        TypeAnn::Null => "null"@,
        TypeAnn::Undefined => "undefined"@,
        TypeAnn::Void => "void"@,
        TypeAnn::Any => "any"@,
        TypeAnn::Unknown => "unknown"@,
        TypeAnn::Never => "never"@,
        TypeAnn::Literal { value } => literal_text(value),
        TypeAnn::Union { types } => type_list_text(types@, " | "@),
        TypeAnn::Intersection { types } => type_list_text(types@, " & "@),
        TypeAnn::Array { element } => (if groups_loosely(*element) {
            "("@ + type_ann_text(*element) + ")"@
        } else {
            type_ann_text(*element)
        }) + "[]"@,
        TypeAnn::TypeRef { name, type_args } => if type_args@.len() == 0 {
            name@
        } else {
            name@ + "<"@ + type_list_text(type_args@, ", "@) + ">"@
        },
        TypeAnn::Function { params, return_type } => "("@ + type_list_text(params@, ", "@)
            + ") => "@ + type_ann_text(*return_type),
        TypeAnn::Object { properties } => if properties@.len() == 0 {
            "{}"@
        } else {
            "{ "@ + object_props_text(properties@) + " }"@
        },
        TypeAnn::KeyOf { type_ann } => "keyof "@ + type_ann_text(*type_ann),
        TypeAnn::Typeof { .. } => "any"@,
        TypeAnn::TemplateLiteral { .. } => "string"@,
        TypeAnn::Conditional { check, extends, true_type, false_type } => type_ann_text(*check)
            + " extends "@ + type_ann_text(*extends) + " ? "@ + type_ann_text(*true_type)
            + " : "@ + type_ann_text(*false_type),
        TypeAnn::Infer { name } => "infer "@ + name@,
        TypeAnn::Mapped { target, value, .. } => "{ [K in keyof "@ + type_ann_text(*target)
            + "]: "@ + type_ann_text(*value) + " }"@,
        TypeAnn::IndexedAccess { target, index } => type_ann_text(*target) + "["@
            + type_ann_text(*index) + "]"@,
    }
}

/// The texts of `ts`, separated by `sep`.
pub open spec fn type_list_text(ts: Seq<TypeAnn>, sep: Seq<char>) -> Seq<char>
    decreases ts,
{
    if ts.len() == 0 {
        Seq::empty()
    } else {
        type_list_text(ts.drop_last(), sep) + (if ts.len() > 1 {
            sep
        } else {
            Seq::empty()
        }) + type_ann_text(ts.last())
    }
}

/// The members of an object type, `name: type`, separated by `; `.
pub open spec fn object_props_text(ps: Seq<ObjectTypeProperty>) -> Seq<char>
    decreases ps,
{
    if ps.len() == 0 {
        Seq::empty()
    } else {
        object_props_text(ps.drop_last()) + (if ps.len() > 1 {
            "; "@
        } else {
            Seq::empty()
        }) + ps.last().name@ + ": "@ + type_ann_text(ps.last().type_ann)
    }
}


// ── The text of a declaration file ───────────────────────────────────────
/// `export ` before an exported declaration.
pub open spec fn export_text(exported: bool) -> Seq<char> {
    if exported {
        "export "@
    } else {
        Seq::empty()
    }
}

/// The visibility modifier of a class member, with its trailing space.
pub open spec fn visibility_text(v: Option<Visibility>) -> Seq<char> {
    match v {
        Some(Visibility::Public) => "public "@,
        Some(Visibility::Private) => "private "@,
        Some(Visibility::Protected) => "protected "@,
        None => Seq::empty(),
    }
}

/// `static ` before a static class member.
pub open spec fn static_text(is_static: bool) -> Seq<char> {
    if is_static {
        "static "@
    } else {
        Seq::empty()
    }
}

/// How a member name is written: a computed one as `[computed]`.
pub open spec fn key_text(k: PropertyKey) -> Seq<char> {
    match k {
        PropertyKey::Identifier(s) => s@,
        PropertyKey::String(s) => "\""@ + s@ + "\""@,
        PropertyKey::Expression(_) => "[computed]"@,
    }
}

/// A part of a superclass path: a name, or `...` for anything else.
pub open spec fn path_part_text(e: Expression) -> Seq<char> {
    match e {
        Expression::Identifier { name, .. } => name@,
        _ => "..."@,
    }
}

/// `: T` for an annotation, nothing without one.
pub open spec fn ann_suffix_text(t: Option<TypeAnn>) -> Seq<char> {
    match t {
        Some(t) => ": "@ + type_ann_text(t),
        None => Seq::empty(),
    }
}

/// A parameter: `...` for a rest parameter, its name, its annotation.
pub open spec fn param_text(p: Parameter) -> Seq<char> {
    (if p.is_rest {
        "..."@
    } else {
        Seq::empty()
    }) + p.name@ + ann_suffix_text(p.type_ann)
}

/// Parameters separated by `, `.
pub open spec fn param_list_text(ps: Seq<Parameter>) -> Seq<char>
    decreases ps.len(),
{
    if ps.len() == 0 {
        Seq::empty()
    } else {
        param_list_text(ps.drop_last()) + (if ps.len() > 1 {
            ", "@
        } else {
            Seq::empty()
        }) + param_text(ps.last())
    }
}

/// A type parameter with its constraint.
pub open spec fn type_param_text(tp: (String, Option<TypeAnn>)) -> Seq<char> {
    match tp.1 {
        Some(c) => tp.0@ + " extends "@ + type_ann_text(c),
        None => tp.0@,
    }
}

/// Type parameters separated by `, `.
pub open spec fn type_param_list_text(tps: Seq<(String, Option<TypeAnn>)>) -> Seq<char>
    decreases tps.len(),
{
    if tps.len() == 0 {
        Seq::empty()
    } else {
        type_param_list_text(tps.drop_last()) + (if tps.len() > 1 {
            ", "@
        } else {
            Seq::empty()
        }) + type_param_text(tps.last())
    }
}

/// `<...>` around the type parameters; nothing when there are none.
pub open spec fn type_params_text(tps: Seq<(String, Option<TypeAnn>)>) -> Seq<char> {
    if tps.len() == 0 {
        Seq::empty()
    } else {
        "<"@ + type_param_list_text(tps) + ">"@
    }
}

/// An imported name, `a` or `a as b`.
pub open spec fn import_part_text(s: ImportSpecifier) -> Seq<char> {
    let imported = match s.imported {
        Some(i) => i@,
        None => s.local@,
    };
    if imported == s.local@ {
        imported
    } else {
        imported + " as "@ + s.local@
    }
}

/// Imported names separated by `, `.
pub open spec fn import_parts_text(ss: Seq<ImportSpecifier>) -> Seq<char>
    decreases ss.len(),
{
    if ss.len() == 0 {
        Seq::empty()
    } else {
        import_parts_text(ss.drop_last()) + (if ss.len() > 1 {
            ", "@
        } else {
            Seq::empty()
        }) + import_part_text(ss.last())
    }
}

/// The line of a method: its modifiers, its name (`constructor` for the
/// constructor) and its parameters.
pub open spec fn method_text(m: MethodDefinition) -> Seq<char> {
    "  "@ + visibility_text(m.visibility) + static_text(m.is_static) + (match m.kind {
        MethodKind::Constructor => "constructor"@,
        MethodKind::Method => key_text(m.key),
    }) + "("@ + param_list_text(m.params@) + ");\n"@
}

/// The line of a field: its modifiers, its name and its annotation.
pub open spec fn field_text(f: ClassField) -> Seq<char> {
    "  "@ + visibility_text(f.visibility) + static_text(f.is_static) + key_text(f.key)
        + ann_suffix_text(f.type_ann) + ";\n"@
}

/// The lines of the methods, in order.
pub open spec fn methods_text(ms: Seq<MethodDefinition>) -> Seq<char>
    decreases ms.len(),
{
    if ms.len() == 0 {
        Seq::empty()
    } else {
        methods_text(ms.drop_last()) + method_text(ms.last())
    }
}

/// The lines of the fields, in order.
pub open spec fn fields_text(fs: Seq<ClassField>) -> Seq<char>
    decreases fs.len(),
{
    if fs.len() == 0 {
        Seq::empty()
    } else {
        fields_text(fs.drop_last()) + field_text(fs.last())
    }
}

/// ` extends` and the superclass, when it is a name or a member path.
pub open spec fn extends_text(superclass: Option<Box<Expression>>) -> Seq<char> {
    match superclass {
        Some(e) => match *e {
            Expression::Identifier { name, .. } => " extends "@ + name@,
            Expression::MemberExpression { object, property, .. } => " extends "@
                + path_part_text(*object) + "."@ + path_part_text(*property),
            _ => Seq::empty(),
        },
        None => Seq::empty(),
    }
}

/// The line of an enum member.
pub open spec fn enum_member_text(m: EnumMember) -> Seq<char> {
    "  "@ + m.name@ + (match m.value {
        Some(v) => " = "@ + v@,
        None => Seq::empty(),
    }) + ",\n"@
}

/// The lines of the enum members, in order.
pub open spec fn enum_members_text(ms: Seq<EnumMember>) -> Seq<char>
    decreases ms.len(),
{
    if ms.len() == 0 {
        Seq::empty()
    } else {
        enum_members_text(ms.drop_last()) + enum_member_text(ms.last())
    }
}

/// The line of a declarator that binds a plain name: a `const` of its
/// annotated type, `any` without one.
pub open spec fn declarator_text(d: VariableDeclarator, exported: bool) -> Seq<char> {
    match *d.id {
        Expression::Identifier { name, .. } => export_text(exported) + "const "@ + name@ + ": "@
            + (match d.type_ann {
            Some(t) => type_ann_text(t),
            None => "any"@,
        }) + ";\n"@,
        _ => Seq::empty(),
    }
}

/// The lines of the declarators, in order.
pub open spec fn declarators_text(ds: Seq<VariableDeclarator>, exported: bool) -> Seq<char>
    decreases ds.len(),
{
    if ds.len() == 0 {
        Seq::empty()
    } else {
        declarators_text(ds.drop_last(), exported) + declarator_text(ds.last(), exported)
    }
}

/// A type whose text must be grouped in parentheses before `[]`: a union,
/// intersection, function, conditional or `keyof` type.
pub open spec fn groups_loosely(t: TypeAnn) -> bool {
    t is Union || t is Intersection || t is Function || t is Conditional || t is KeyOf
}

/// An `import type` line: `import type D from "m";` for a lone default
/// import, else the names in braces.
pub open spec fn import_type_text(ss: Seq<ImportSpecifier>, source: Seq<char>) -> Seq<char> {
    if ss.len() == 1 && ss[0].is_default {
        "import type "@ + ss[0].local@ + " from \""@ + source + "\";\n"@
    } else {
        "import type { "@ + import_parts_text(ss) + " } from \""@ + source + "\";\n"@
    }
}

/// The declaration text of one statement; statements that declare nothing
/// a consumer sees give none.
pub open spec fn stmt_decl_text(s: Statement, exported: bool) -> Seq<char>
    decreases s,
{
    match s {
        Statement::ExportDeclaration { declaration, .. } => stmt_decl_text(*declaration, true),
        Statement::ImportDeclaration { specifiers, source, is_type, .. } => if is_type
            && specifiers@.len() > 0 {
            import_type_text(specifiers@, source@)
        } else {
            Seq::empty()
        },
        Statement::FunctionDeclaration { name, params, return_type, is_async, type_params, .. } =>
        if name@.len() == 0 {
            Seq::empty()
        } else {
            export_text(exported) + (if is_async {
                "async "@
            } else {
                Seq::empty()
            }) + "function "@ + name@ + type_params_text(type_params@) + "("@ + param_list_text(
                params@,
            ) + ")"@ + (match return_type {
                Some(t) => ": "@ + type_ann_text(t),
                None => ": void"@,
            }) + ";\n"@
        },
        Statement::VariableDeclaration { declarations, .. } => declarators_text(
            declarations@,
            exported,
        ),
        Statement::ClassDeclaration { name, superclass, body, .. } => export_text(exported)
            + "class "@ + name@ + extends_text(superclass) + " {\n"@ + methods_text(body.methods@)
            + fields_text(body.fields@) + "}\n"@,
        Statement::TypeAliasDeclaration { name, type_params, type_annotation, .. } => export_text(
            exported,
        ) + "type "@ + name@ + type_params_text(type_params@) + " = "@ + type_ann_text(
            type_annotation,
        ) + ";\n"@,
        Statement::EnumDeclaration { name, members, .. } => export_text(exported) + "enum "@
            + name@ + " {\n"@ + enum_members_text(members@) + "}\n"@,
        _ => Seq::empty(),
    }
}

/// The declaration text of a sequence of statements.
pub open spec fn decls_text(stmts: Seq<Statement>) -> Seq<char>
    decreases stmts.len(),
{
    if stmts.len() == 0 {
        Seq::empty()
    } else {
        decls_text(stmts.drop_last()) + stmt_decl_text(stmts.last(), false)
    }
}


/// Appends `line` and a line break.
fn writeln_indent(out: &mut String, line: &str)
    ensures
        final(out)@ == old(out)@ + line@ + "\n"@,
{
    out.push_str(line);
    out.push('\n');
    proof {
        reveal_strlit("\n");
    }
    assert(out@ =~= old(out)@ + line@ + "\n"@);
}

/// How a member name is written.
fn render_property_key(key: &PropertyKey) -> (s: String)
    ensures
        s@ == key_text(*key),
{
    let mut out = String::new();
    match key {
        PropertyKey::Identifier(name) => out.push_str(name.as_str()),
        PropertyKey::String(name) => {
            out.push_str("\"");
            out.push_str(name.as_str());
            out.push_str("\"");
        },
        PropertyKey::Expression(_) => out.push_str("[computed]"),
    }
    out
}

/// The object of a superclass path.
fn render_member_object(obj: &Expression) -> (s: String)
    ensures
        s@ == path_part_text(*obj),
{
    match obj {
        Expression::Identifier { name, .. } => name.clone(),
        _ => crate::text::string_of_str("..."),
    }
}

/// The property of a superclass path.
fn render_member_name(prop: &Expression) -> (s: String)
    ensures
        s@ == path_part_text(*prop),
{
    match prop {
        Expression::Identifier { name, .. } => name.clone(),
        _ => crate::text::string_of_str("..."),
    }
}

/// Appends `: T` for an annotation.
fn push_ann_suffix(out: &mut String, t: &Option<TypeAnn>)
    ensures
        final(out)@ == old(out)@ + ann_suffix_text(*t),
{
    match t {
        Some(t) => {
            out.push_str(": ");
            let r = render_type_ann(t);
            out.push_str(r.as_str());
        },
        None => {},
    }
}

/// Appends the visibility and `static` modifiers of a class member.
fn push_modifiers(out: &mut String, v: Option<Visibility>, is_static: bool)
    ensures
        final(out)@ == old(out)@ + visibility_text(v) + static_text(is_static),
{
    match v {
        Some(Visibility::Public) => out.push_str("public "),
        Some(Visibility::Private) => out.push_str("private "),
        Some(Visibility::Protected) => out.push_str("protected "),
        None => {},
    }
    if is_static {
        out.push_str("static ");
    }
}

/// `(a: T, ...rest: U)`: the parameters of a function or method.
fn render_params(params: &Vec<Parameter>) -> (s: String)
    ensures
        s@ == "("@ + param_list_text(params@) + ")"@,
{
    let mut out = String::new();
    out.push_str("(");
    let mut i: usize = 0;
    while i < params.len()
        invariant
            i <= params.len(),
            out@ == "("@ + param_list_text(params@.take(i as int)),
        decreases params.len() - i,
    {
        let ghost before = out@;
        if i > 0 {
            out.push_str(", ");
        }
        if params[i].is_rest {
            out.push_str("...");
        }
        out.push_str(params[i].name.as_str());
        push_ann_suffix(&mut out, &params[i].type_ann);
        assert(params@.take(i + 1).drop_last() =~= params@.take(i as int));
        assert(out@ =~= before + (if i > 0 {
            ", "@
        } else {
            Seq::empty()
        }) + param_text(params@[i as int]));
        i += 1;
    }
    assert(params@.take(params@.len() as int) =~= params@);
    out.push_str(")");
    out
}

/// `<T, U extends V>`; nothing when there are no type parameters.
fn render_type_params(params: &Vec<(String, Option<TypeAnn>)>) -> (s: String)
    ensures
        s@ == type_params_text(params@),
{
    let mut out = String::new();
    if params.len() == 0 {
        return out;
    }
    out.push_str("<");
    let mut i: usize = 0;
    while i < params.len()
        invariant
            i <= params.len(),
            out@ == "<"@ + type_param_list_text(params@.take(i as int)),
        decreases params.len() - i,
    {
        let ghost before = out@;
        if i > 0 {
            out.push_str(", ");
        }
        out.push_str(params[i].0.as_str());
        match &params[i].1 {
            Some(c) => {
                out.push_str(" extends ");
                let r = render_type_ann(c);
                out.push_str(r.as_str());
            },
            None => {},
        }
        assert(params@.take(i + 1).drop_last() =~= params@.take(i as int));
        assert(out@ =~= before + (if i > 0 {
            ", "@
        } else {
            Seq::empty()
        }) + type_param_text(params@[i as int]));
        i += 1;
    }
    assert(params@.take(params@.len() as int) =~= params@);
    out.push_str(">");
    out
}


/// Appends the line of a method.
fn emit_method(method: &MethodDefinition, out: &mut String)
    ensures
        final(out)@ == old(out)@ + method_text(*method),
{
    let mut line = String::new();
    line.push_str("  ");
    push_modifiers(&mut line, method.visibility, method.is_static);
    match method.kind {
        MethodKind::Constructor => line.push_str("constructor"),
        MethodKind::Method => {
            let name = render_property_key(&method.key);
            line.push_str(name.as_str());
        },
    }
    let params = render_params(&method.params);
    line.push_str(params.as_str());
    line.push_str(";");
    writeln_indent(out, line.as_str());
    proof {
        reveal_strlit(")");
        reveal_strlit(";");
        reveal_strlit("\n");
        reveal_strlit(");\n");
        reveal_strlit(";\n");
    }
    assert(out@ =~= old(out)@ + method_text(*method));
}

/// Appends the line of a field.
fn emit_field(field: &ClassField, out: &mut String)
    ensures
        final(out)@ == old(out)@ + field_text(*field),
{
    let mut line = String::new();
    line.push_str("  ");
    push_modifiers(&mut line, field.visibility, field.is_static);
    let name = render_property_key(&field.key);
    line.push_str(name.as_str());
    push_ann_suffix(&mut line, &field.type_ann);
    line.push_str(";");
    writeln_indent(out, line.as_str());
    proof {
        reveal_strlit(")");
        reveal_strlit(";");
        reveal_strlit("\n");
        reveal_strlit(");\n");
        reveal_strlit(";\n");
    }
    assert(out@ =~= old(out)@ + field_text(*field));
}

/// Appends an `import type` line; an import of nothing gives none.
fn emit_import_type(specifiers: &Vec<ImportSpecifier>, source: &str, out: &mut String)
    ensures
        specifiers@.len() == 0 ==> final(out)@ == old(out)@,
        specifiers@.len() > 0 ==> final(out)@ == old(out)@ + import_type_text(specifiers@, source@),
{
    if specifiers.len() == 0 {
        return;
    }
    if specifiers.len() == 1 && specifiers[0].is_default {
        let mut line = String::new();
        line.push_str("import type ");
        line.push_str(specifiers[0].local.as_str());
        line.push_str(" from \"");
        line.push_str(source);
        line.push_str("\";");
        writeln_indent(out, line.as_str());
        proof {
            reveal_strlit("\";");
            reveal_strlit("\";\n");
            reveal_strlit("\n");
        }
        assert(out@ =~= old(out)@ + import_type_text(specifiers@, source@));
        return;
    }
    let mut line = String::new();
    line.push_str("import type { ");
    let mut i: usize = 0;
    while i < specifiers.len()
        invariant
            i <= specifiers.len(),
            line@ == "import type { "@ + import_parts_text(specifiers@.take(i as int)),
        decreases specifiers.len() - i,
    {
        let ghost before = line@;
        if i > 0 {
            line.push_str(", ");
        }
        let spec = &specifiers[i];
        let imported = match &spec.imported {
            Some(im) => im,
            None => &spec.local,
        };
        line.push_str(imported.as_str());
        if !crate::text::str_eq(imported.as_str(), spec.local.as_str()) {
            line.push_str(" as ");
            line.push_str(spec.local.as_str());
        }
        assert(specifiers@.take(i + 1).drop_last() =~= specifiers@.take(i as int));
        assert(line@ =~= before + (if i > 0 {
            ", "@
        } else {
            Seq::empty()
        }) + import_part_text(specifiers@[i as int]));
        i += 1;
    }
    assert(specifiers@.take(specifiers@.len() as int) =~= specifiers@);
    line.push_str(" } from \"");
    line.push_str(source);
    line.push_str("\";");
    writeln_indent(out, line.as_str());
    proof {
        reveal_strlit("\";");
        reveal_strlit("\";\n");
        reveal_strlit("\n");
    }
    assert(out@ =~= old(out)@ + "import type { "@ + import_parts_text(specifiers@)
        + " } from \""@ + source@ + "\";\n"@);
    assert(out@ =~= old(out)@ + import_type_text(specifiers@, source@));
}


/// Appends the declaration of a named function.
fn emit_function(stmt: &Statement, out: &mut String, exported: bool)
    requires
        stmt is FunctionDeclaration,
    ensures
        final(out)@ == old(out)@ + stmt_decl_text(*stmt, exported),
{
    match stmt {
        Statement::FunctionDeclaration { name, params, return_type, is_async, type_params, .. } => {
            if name.as_str().is_empty() {
                return;
            }
            let mut line = String::new();
            if exported {
                line.push_str("export ");
            }
            if *is_async {
                line.push_str("async ");
            }
            line.push_str("function ");
            line.push_str(name.as_str());
            let generics = render_type_params(type_params);
            line.push_str(generics.as_str());
            let ps = render_params(params);
            line.push_str(ps.as_str());
            match return_type {
                Some(t) => {
                    line.push_str(": ");
                    let r = render_type_ann(t);
                    line.push_str(r.as_str());
                },
                None => line.push_str(": void"),
            }
            line.push_str(";");
            writeln_indent(out, line.as_str());
            proof {
                reveal_strlit(";");
                reveal_strlit("\n");
                reveal_strlit(";\n");
            }
            assert(out@ =~= old(out)@ + stmt_decl_text(*stmt, exported));
        },
        _ => {},
    }
}

/// Appends a `const` line for each declarator that binds a plain name.
fn emit_variables(decls: &Vec<VariableDeclarator>, out: &mut String, exported: bool)
    ensures
        final(out)@ == old(out)@ + declarators_text(decls@, exported),
{
    let mut i: usize = 0;
    while i < decls.len()
        invariant
            i <= decls.len(),
            out@ == old(out)@ + declarators_text(decls@.take(i as int), exported),
        decreases decls.len() - i,
    {
        let ghost before = out@;
        let decl = &decls[i];
        match &*decl.id {
            Expression::Identifier { name, .. } => {
                let mut line = String::new();
                if exported {
                    line.push_str("export ");
                }
                line.push_str("const ");
                line.push_str(name.as_str());
                line.push_str(": ");
                match &decl.type_ann {
                    Some(t) => {
                        let r = render_type_ann(t);
                        line.push_str(r.as_str());
                    },
                    None => line.push_str("any"),
                }
                line.push_str(";");
                writeln_indent(out, line.as_str());
                proof {
                    reveal_strlit(";");
                    reveal_strlit("\n");
                    reveal_strlit(";\n");
                }
            },
            _ => {},
        }
        assert(decls@.take(i + 1).drop_last() =~= decls@.take(i as int));
        assert(out@ =~= before + declarator_text(decls@[i as int], exported));
        i += 1;
    }
    assert(decls@.take(decls@.len() as int) =~= decls@);
}

/// ` extends` and the superclass path.
fn render_extends(superclass: &Option<Box<Expression>>) -> (s: String)
    ensures
        s@ == extends_text(*superclass),
{
    let mut line = String::new();
    match superclass {
        Some(sc) => match &**sc {
            Expression::Identifier { name, .. } => {
                line.push_str(" extends ");
                line.push_str(name.as_str());
            },
            Expression::MemberExpression { object, property, .. } => {
                line.push_str(" extends ");
                let o = render_member_object(object);
                line.push_str(o.as_str());
                line.push_str(".");
                let p = render_member_name(property);
                line.push_str(p.as_str());
            },
            _ => {},
        },
        None => {},
    }
    line
}

/// Appends a line for each method, then one for each field.
fn emit_class_members(body: &ClassBody, out: &mut String)
    ensures
        final(out)@ == old(out)@ + methods_text(body.methods@) + fields_text(body.fields@),
{
    let mut j: usize = 0;
    while j < body.methods.len()
        invariant
            j <= body.methods.len(),
            out@ == old(out)@ + methods_text(body.methods@.take(j as int)),
        decreases body.methods.len() - j,
    {
        emit_method(&body.methods[j], out);
        assert(body.methods@.take(j + 1).drop_last() =~= body.methods@.take(j as int));
        j += 1;
    }
    assert(body.methods@.take(body.methods@.len() as int) =~= body.methods@);
    let ghost with_methods = out@;
    let mut k: usize = 0;
    while k < body.fields.len()
        invariant
            k <= body.fields.len(),
            out@ == with_methods + fields_text(body.fields@.take(k as int)),
        decreases body.fields.len() - k,
    {
        emit_field(&body.fields[k], out);
        assert(body.fields@.take(k + 1).drop_last() =~= body.fields@.take(k as int));
        k += 1;
    }
    assert(body.fields@.take(body.fields@.len() as int) =~= body.fields@);
}

/// Appends the declaration of a class: its heading, a line for each method
/// and each field, and the closing brace.
fn emit_class(stmt: &Statement, out: &mut String, exported: bool)
    requires
        stmt is ClassDeclaration,
    ensures
        final(out)@ == old(out)@ + stmt_decl_text(*stmt, exported),
{
    match stmt {
        Statement::ClassDeclaration { name, superclass, body, .. } => {
            let mut line = String::new();
            if exported {
                line.push_str("export ");
            }
            line.push_str("class ");
            line.push_str(name.as_str());
            let ext = render_extends(superclass);
            line.push_str(ext.as_str());
            line.push_str(" {");
            writeln_indent(out, line.as_str());
            emit_class_members(body, out);
            writeln_indent(out, "}");
            proof {
                reveal_strlit(" {");
                reveal_strlit("\n");
                reveal_strlit(" {\n");
                reveal_strlit("}");
                reveal_strlit("}\n");
            }
            assert(out@ =~= old(out)@ + stmt_decl_text(*stmt, exported));
        },
        _ => {},
    }
}

/// Appends the declaration of a type alias.
fn emit_type_alias(stmt: &Statement, out: &mut String, exported: bool)
    requires
        stmt is TypeAliasDeclaration,
    ensures
        final(out)@ == old(out)@ + stmt_decl_text(*stmt, exported),
{
    match stmt {
        Statement::TypeAliasDeclaration { name, type_params, type_annotation, .. } => {
            let mut line = String::new();
            if exported {
                line.push_str("export ");
            }
            line.push_str("type ");
            line.push_str(name.as_str());
            let generics = render_type_params(type_params);
            line.push_str(generics.as_str());
            line.push_str(" = ");
            let r = render_type_ann(type_annotation);
            line.push_str(r.as_str());
            line.push_str(";");
            writeln_indent(out, line.as_str());
            proof {
                reveal_strlit(";");
                reveal_strlit("\n");
                reveal_strlit(";\n");
            }
            assert(out@ =~= old(out)@ + stmt_decl_text(*stmt, exported));
        },
        _ => {},
    }
}

/// Appends the declaration of an enum: a line for each member.
fn emit_enum(stmt: &Statement, out: &mut String, exported: bool)
    requires
        stmt is EnumDeclaration,
    ensures
        final(out)@ == old(out)@ + stmt_decl_text(*stmt, exported),
{
    match stmt {
        Statement::EnumDeclaration { name, members, .. } => {
            let mut line = String::new();
            if exported {
                line.push_str("export ");
            }
            line.push_str("enum ");
            line.push_str(name.as_str());
            line.push_str(" {");
            writeln_indent(out, line.as_str());
            proof {
                reveal_strlit(" {");
                reveal_strlit("\n");
                reveal_strlit(" {\n");
                reveal_strlit(",");
                reveal_strlit(",\n");
            }
            let ghost head = out@;
            assert(head =~= old(out)@ + export_text(exported) + "enum "@ + name@ + " {\n"@);
            let mut i: usize = 0;
            while i < members.len()
                invariant
                    i <= members.len(),
                    out@ == head + enum_members_text(members@.take(i as int)),
                decreases members.len() - i,
            {
                let m = &members[i];
                let mut l = String::new();
                l.push_str("  ");
                l.push_str(m.name.as_str());
                match &m.value {
                    Some(v) => {
                        l.push_str(" = ");
                        l.push_str(v.as_str());
                    },
                    None => {},
                }
                l.push_str(",");
                let ghost before = out@;
                writeln_indent(out, l.as_str());
                proof {
                    reveal_strlit(",");
                    reveal_strlit("\n");
                    reveal_strlit(",\n");
                }
                assert(out@ =~= before + enum_member_text(members@[i as int]));
                assert(members@.take(i + 1).drop_last() =~= members@.take(i as int));
                i += 1;
            }
            assert(members@.take(members@.len() as int) =~= members@);
            writeln_indent(out, "}");
            proof {
                reveal_strlit("}");
                reveal_strlit("}\n");
            }
            assert(out@ =~= old(out)@ + stmt_decl_text(*stmt, exported));
        },
        _ => {},
    }
}

/// Appends the declaration text of one statement.
fn emit_statement(stmt: &Statement, out: &mut String, exported: bool)
    ensures
        final(out)@ == old(out)@ + stmt_decl_text(*stmt, exported),
    decreases stmt,
{
    match stmt {
        Statement::ExportDeclaration { declaration, .. } => {
            emit_statement(declaration, out, true);
        },
        Statement::ImportDeclaration { specifiers, source, is_type, .. } => {
            if *is_type {
                emit_import_type(specifiers, source.as_str(), out);
            } else {
                assert(out@ =~= old(out)@ + stmt_decl_text(*stmt, exported));
            }
        },
        Statement::FunctionDeclaration { .. } => emit_function(stmt, out, exported),
        Statement::VariableDeclaration { declarations, .. } => {
            emit_variables(declarations, out, exported);
        },
        Statement::ClassDeclaration { .. } => emit_class(stmt, out, exported),
        Statement::TypeAliasDeclaration { .. } => emit_type_alias(stmt, out, exported),
        Statement::EnumDeclaration { .. } => emit_enum(stmt, out, exported),
        _ => {
            assert(out@ =~= old(out)@ + stmt_decl_text(*stmt, exported));
        },
    }
}

/// The `.d.ts` text of a program: for each statement in order, the
/// declarations it makes visible (functions with their signatures,
/// variables as `const`s of their annotated type, classes with their
/// members, type aliases, enums and type-only imports).
pub fn emit_declarations(program: &Program) -> (s: String)
    ensures
        s@ == decls_text(program.body@),
{
    let mut out = String::new();
    let mut i: usize = 0;
    while i < program.body.len()
        invariant
            i <= program.body.len(),
            out@ == decls_text(program.body@.take(i as int)),
        decreases program.body.len() - i,
    {
        emit_statement(&program.body[i], &mut out, false);
        assert(program.body@.take(i + 1).drop_last() =~= program.body@.take(i as int));
        i += 1;
    }
    assert(program.body@.take(program.body@.len() as int) =~= program.body@);
    out
}

/// Appends the texts of `ts`, separated by `sep`.
fn push_type_list(out: &mut String, ts: &Vec<TypeAnn>, sep: &str)
    ensures
        final(out)@ == old(out)@ + type_list_text(ts@, sep@),
    decreases ts@, 0nat,
{
    let mut i: usize = 0;
    while i < ts.len()
        invariant
            i <= ts.len(),
            out@ == old(out)@ + type_list_text(ts@.subrange(0, i as int), sep@),
        decreases ts.len() - i,
    {
        if i > 0 {
            out.push_str(sep);
        }
        let t = render_type_ann(&ts[i]);
        out.push_str(t.as_str());
        assert(ts@.subrange(0, i + 1).drop_last() =~= ts@.subrange(0, i as int));
        i += 1;
    }
    assert(ts@.subrange(0, ts@.len() as int) =~= ts@);
}

/// How a type annotation is written in TypeScript source.
#[verifier::loop_isolation(false)]
pub fn render_type_ann(ty: &TypeAnn) -> (s: String)
    ensures
        s@ == type_ann_text(*ty),
    decreases ty, 1nat,
{
    let mut out = String::new();
    match ty {
        TypeAnn::Number => out.push_str("number"),
        TypeAnn::String => out.push_str("string"),
        TypeAnn::Boolean => out.push_str("boolean"),
        TypeAnn::Null => out.push_str("null"),
        TypeAnn::Undefined => out.push_str("undefined"),
        TypeAnn::Void => out.push_str("void"),
        TypeAnn::Any => out.push_str("any"),
        TypeAnn::Unknown => out.push_str("unknown"),
        TypeAnn::Never => out.push_str("never"),
        TypeAnn::Literal { value } => match value {
            LiteralValue::String(v) => {
                out.push_str("\"");
                out.push_str(v.as_str());
                out.push_str("\"");
            },
            LiteralValue::Number(n) => out.push_str(n.as_str()),
            LiteralValue::Boolean(b) => {
                if *b {
                    out.push_str("true");
                } else {
                    out.push_str("false");
                }
            },
        },
        TypeAnn::Union { types } => push_type_list(&mut out, types, " | "),
        TypeAnn::Intersection { types } => push_type_list(&mut out, types, " & "),
        TypeAnn::Array { element } => {
            let e = render_type_ann(element);
            let group = match &**element {
                TypeAnn::Union { .. } | TypeAnn::Intersection { .. } | TypeAnn::Function { .. }
                | TypeAnn::Conditional { .. } | TypeAnn::KeyOf { .. } => true,
                _ => false,
            };
            if group {
                out.push_str("(");
                out.push_str(e.as_str());
                out.push_str(")");
            } else {
                out.push_str(e.as_str());
            }
            out.push_str("[]");
        },
        TypeAnn::TypeRef { name, type_args } => {
            out.push_str(name.as_str());
            if type_args.len() > 0 {
                out.push_str("<");
                push_type_list(&mut out, type_args, ", ");
                out.push_str(">");
            }
        },
        TypeAnn::Function { params, return_type } => {
            out.push_str("(");
            push_type_list(&mut out, params, ", ");
            out.push_str(") => ");
            let r = render_type_ann(return_type);
            out.push_str(r.as_str());
        },
        TypeAnn::Object { properties } => {
            if properties.len() == 0 {
                out.push_str("{}");
            } else {
                out.push_str("{ ");
                let mut i: usize = 0;
                while i < properties.len()
                    invariant
                        i <= properties.len(),
                        out@ == "{ "@ + object_props_text(properties@.subrange(0, i as int)),
                    decreases properties.len() - i,
                {
                    if i > 0 {
                        out.push_str("; ");
                    }
                    out.push_str(properties[i].name.as_str());
                    out.push_str(": ");
                    let t = render_type_ann(&properties[i].type_ann);
                    out.push_str(t.as_str());
                    assert(properties@.subrange(0, i + 1).drop_last() =~= properties@.subrange(
                        0,
                        i as int,
                    ));
                    i += 1;
                }
                assert(properties@.subrange(0, properties@.len() as int) =~= properties@);
                out.push_str(" }");
            }
        },
        TypeAnn::KeyOf { type_ann } => {
            out.push_str("keyof ");
            let t = render_type_ann(type_ann);
            out.push_str(t.as_str());
        },
        TypeAnn::Typeof { .. } => out.push_str("any"),
        TypeAnn::TemplateLiteral { .. } => out.push_str("string"),
        TypeAnn::Conditional { check, extends, true_type, false_type } => {
            let c = render_type_ann(check);
            let e = render_type_ann(extends);
            let t = render_type_ann(true_type);
            let f = render_type_ann(false_type);
            out.push_str(c.as_str());
            out.push_str(" extends ");
            out.push_str(e.as_str());
            out.push_str(" ? ");
            out.push_str(t.as_str());
            out.push_str(" : ");
            out.push_str(f.as_str());
        },
        TypeAnn::Infer { name } => {
            out.push_str("infer ");
            out.push_str(name.as_str());
        },
        TypeAnn::Mapped { target, value, .. } => {
            let t = render_type_ann(target);
            let v = render_type_ann(value);
            out.push_str("{ [K in keyof ");
            out.push_str(t.as_str());
            out.push_str("]: ");
            out.push_str(v.as_str());
            out.push_str(" }");
        },
        TypeAnn::IndexedAccess { target, index } => {
            let t = render_type_ann(target);
            let i = render_type_ann(index);
            out.push_str(t.as_str());
            out.push_str("[");
            out.push_str(i.as_str());
            out.push_str("]");
        },
    }
    out
}

/// The text after the last space of `t` (all of `t` when it has none): in
/// an import clause item `a` or `a as b`, the name the item binds.
pub open spec fn last_word(t: Seq<char>) -> Seq<char>
    decreases t.len(),
{
    if t.len() == 0 {
        t
    } else if t.last() == ' ' {
        Seq::empty()
    } else {
        last_word(t.drop_last()).push(t.last())
    }
}

/// The text before the first space of `t` (all of `t` when it has none):
/// in an import clause item, the name it imports.
pub open spec fn first_word(t: Seq<char>) -> Seq<char>
    decreases t.len(),
{
    if t.len() == 0 {
        t
    } else if t[0] == ' ' {
        Seq::empty()
    } else {
        seq![t[0]] + first_word(t.drop_first())
    }
}

/// A name with no space in it.
pub open spec fn no_space(n: Seq<char>) -> bool {
    forall|i: int| 0 <= i < n.len() ==> n[i] != ' '
}

proof fn lemma_last_word_after_space(x: Seq<char>, l: Seq<char>)
    requires
        no_space(l),
        x.len() == 0 || x.last() == ' ',
    ensures
        last_word(x + l) == l,
    decreases l.len(),
{
    if l.len() == 0 {
        assert(x + l =~= x);
    } else {
        lemma_last_word_after_space(x, l.drop_last());
        assert((x + l).drop_last() =~= x + l.drop_last());
        assert(l.drop_last().push(l.last()) =~= l);
    }
}

proof fn lemma_first_word_before_space(a: Seq<char>, y: Seq<char>)
    requires
        no_space(a),
        y.len() == 0 || y[0] == ' ',
    ensures
        first_word(a + y) == a,
    decreases a.len(),
{
    if a.len() == 0 {
        assert(a + y =~= y);
    } else {
        lemma_first_word_before_space(a.drop_first(), y);
        assert((a + y).drop_first() =~= a.drop_first() + y);
        assert(seq![a[0]] + a.drop_first() =~= a);
    }
}

/// An item of an emitted `import type { ... }` clause binds the specifier's
/// local name and imports its imported name (the local name when it has
/// none), so a renamed import keeps its local name in the declarations.
pub proof fn law_import_item_binds_local_name(s: ImportSpecifier)
    requires
        no_space(s.local@),
        s.imported matches Some(i) ==> no_space(i@),
    ensures
        last_word(import_part_text(s)) == s.local@,
        first_word(import_part_text(s)) == (match s.imported {
            Some(i) => i@,
            None => s.local@,
        }),
{
    reveal_strlit(" as ");
    let imported = match s.imported {
        Some(i) => i@,
        None => s.local@,
    };
    if imported == s.local@ {
        lemma_last_word_after_space(Seq::empty(), s.local@);
        assert(Seq::<char>::empty() + s.local@ =~= s.local@);
        lemma_first_word_before_space(imported, Seq::empty());
        assert(imported + Seq::<char>::empty() =~= imported);
    } else {
        let x = imported + " as "@;
        lemma_last_word_after_space(x, s.local@);
        lemma_first_word_before_space(imported, " as "@ + s.local@);
        assert(imported + " as "@ + s.local@ =~= imported + (" as "@ + s.local@));
    }
}

/// The index of the last comma of `t`, or -1.
pub open spec fn last_comma(t: Seq<char>) -> int
    decreases t.len(),
{
    if t.len() == 0 {
        -1
    } else if t.last() == ',' {
        t.len() - 1
    } else {
        last_comma(t.drop_last())
    }
}

/// `t` without its leading spaces.
pub open spec fn skip_spaces(t: Seq<char>) -> Seq<char>
    decreases t.len(),
{
    if t.len() > 0 && t[0] == ' ' {
        skip_spaces(t.drop_first())
    } else {
        t
    }
}

/// The items of a comma-separated list, each without the spaces after its
/// comma.
pub open spec fn list_items(t: Seq<char>) -> Seq<Seq<char>>
    decreases t.len(),
{
    let k = last_comma(t);
    if 0 <= k < t.len() {
        list_items(t.take(k)).push(skip_spaces(t.skip(k + 1)))
    } else {
        seq![t]
    }
}

/// A specifier whose names can stand in an import clause.
pub open spec fn clause_specifier(s: ImportSpecifier) -> bool {
    &&& clause_name(s.local@)
    &&& s.imported matches Some(i) ==> clause_name(i@)
}

/// A name that can stand in an import clause: not empty, without spaces
/// or commas.
pub open spec fn clause_name(n: Seq<char>) -> bool {
    &&& n.len() > 0
    &&& forall|i: int| 0 <= i < n.len() ==> n[i] != ' ' && n[i] != ','
}

proof fn lemma_last_comma_none(t: Seq<char>)
    requires
        forall|i: int| 0 <= i < t.len() ==> t[i] != ',',
    ensures
        last_comma(t) == -1,
    decreases t.len(),
{
    if t.len() > 0 {
        lemma_last_comma_none(t.drop_last());
    }
}

proof fn lemma_last_comma_at(x: Seq<char>, y: Seq<char>)
    requires
        forall|i: int| 0 <= i < y.len() ==> y[i] != ',',
    ensures
        last_comma(x.push(',') + y) == x.len(),
    decreases y.len(),
{
    if y.len() == 0 {
        assert(x.push(',') + y =~= x.push(','));
    } else {
        lemma_last_comma_at(x, y.drop_last());
        assert((x.push(',') + y).drop_last() =~= x.push(',') + y.drop_last());
    }
}

proof fn lemma_item_shape(s: ImportSpecifier)
    requires
        clause_name(s.local@),
        s.imported matches Some(i) ==> clause_name(i@),
    ensures
        import_part_text(s).len() > 0,
        import_part_text(s)[0] != ' ',
        forall|i: int| 0 <= i < import_part_text(s).len() ==> #[trigger] import_part_text(s)[i] != ',',
{
    reveal_strlit(" as ");
    let imported = match s.imported {
        Some(i) => i@,
        None => s.local@,
    };
    let t = import_part_text(s);
    if imported != s.local@ {
        assert forall|i: int| 0 <= i < t.len() implies #[trigger] t[i] != ',' by {
            if i < imported.len() {
                assert(t[i] == imported[i]);
            } else if i < imported.len() + 4 {
                assert(t[i] == " as "@[i - imported.len()]);
            } else {
                assert(t[i] == s.local@[i - imported.len() - 4]);
            }
        }
        assert(t[0] == imported[0]);
    }
}

/// An emitted `import type { ... }` clause lists one item per specifier, in
/// order: its comma-separated items are the specifiers' items, so (by
/// `law_import_item_binds_local_name`) the names it binds are the local
/// names of the source import.
pub proof fn law_import_clause_lists_each_specifier(ss: Seq<ImportSpecifier>)
    requires
        ss.len() >= 1,
        forall|k: int| 0 <= k < ss.len() ==> clause_specifier(#[trigger] ss[k]),
    ensures
        list_items(import_parts_text(ss)) == ss.map_values(|s: ImportSpecifier| import_part_text(s)),
    decreases ss.len(),
{
    reveal_strlit(", ");
    let last = ss.last();
    assert(clause_specifier(ss[ss.len() - 1]));
    lemma_item_shape(last);
    let item = import_part_text(last);
    if ss.len() == 1 {
        assert(import_parts_text(ss.drop_last()) =~= Seq::<char>::empty());
        assert(import_parts_text(ss) =~= item);
        lemma_last_comma_none(item);
        assert(ss.map_values(|s: ImportSpecifier| import_part_text(s)) =~= seq![item]);
    } else {
        let p = ss.drop_last();
        assert forall|k: int| 0 <= k < p.len() implies clause_specifier(#[trigger] p[k]) by {
            assert(p[k] == ss[k]);
        }
        law_import_clause_lists_each_specifier(p);
        let prev = import_parts_text(p);
        let t = import_parts_text(ss);
        assert(t =~= prev.push(',') + (seq![' '] + item));
        assert forall|i: int| 0 <= i < (seq![' '] + item).len() implies (seq![' '] + item)[i] != ',' by {
            if i > 0 {
                assert((seq![' '] + item)[i] == item[i - 1]);
            }
        }
        lemma_last_comma_at(prev, seq![' '] + item);
        assert(t.take(prev.len() as int) =~= prev);
        assert(t.skip(prev.len() as int + 1) =~= seq![' '] + item);
        assert((seq![' '] + item).drop_first() =~= item);
        assert(skip_spaces(item) == item);
        assert(skip_spaces(seq![' '] + item) == item);
        assert(list_items(t) == list_items(prev).push(item));
        assert(ss.map_values(|s: ImportSpecifier| import_part_text(s)) =~= p.map_values(
            |s: ImportSpecifier| import_part_text(s),
        ).push(item));
    }
}

} // verus!
