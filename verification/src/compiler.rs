//! Building a project: its modules in dependency order, each checked
//! against the exports of the modules before it, then printed as
//! JavaScript with a source map and a declaration file.
//!
//! Reading files and walking the imports is left to the caller: it hands
//! each source to `parse_module`, follows `import_sources` through
//! `resolve_import`, and registers the module with `add_module` once its
//! imports are in.
use vstd::prelude::*;

use crate::ast::{Expression, Program, Statement};
use crate::codegen::printed::stmts_text;
use crate::codegen::Codegen;
use crate::config::{
    alias_resolvable, paths_view, resolve_path_alias, resolve_path_alias_spec, CompilerOptions,
    FerriteConfig,
};
use crate::decl_emit::{decls_text, emit_declarations};
use crate::diagnostic::{Diagnostic, SourceFile};
use crate::lexer::Lexer;
use crate::parser::{eof_terminated, Parser};
use crate::paths::{
    file_name, parent, path_file_name, path_join, path_parent, path_strip_prefix,
    path_with_extension, strip_prefix, with_extension,
};
use crate::source_map::{encode_mappings_spec, SourceMap};
use crate::text::{byte_len, str_eq, string_of_str};
use crate::token::Token;
use crate::type_checker::env::TypeEnv;
use crate::type_checker::ty::{find_field, ty_eq, Type};
use crate::type_checker::TypeChecker;

verus! {

/// A parsed module: its path (the key it is known by), its source and its
/// syntax tree.
pub struct Module {
    pub path: String,
    pub source: String,
    pub program: Program,
    pub source_file: SourceFile,
}

impl Module {
    pub open spec fn wf(self) -> bool {
        &&& self.source_file.wf()
        &&& self.source_file.name() == self.path@
        &&& self.source_file.text() == self.source@
        &&& byte_len(self.source@) < usize::MAX
    }
}

pub struct Compiler {
    /// Parsed modules, dependencies before the modules that import them.
    pub modules: Vec<Module>,
    /// Module key → exported name → type, kept between builds.
    pub registry: Vec<(String, Vec<(String, Type)>)>,
    pub options: CompilerOptions,
    /// Project root directory (for resolving path aliases against `base_url`).
    pub root_dir: String,
    /// Output directory: when set, outputs mirror the source tree under it.
    pub out_dir: Option<String>,
    /// The ferrite.config in effect.
    pub ferrite_cfg: Option<FerriteConfig>,
}

/// The name a declaration exports: that of a named function, the first
/// plain name a variable declaration binds, a class, type alias or enum;
/// an expression is the `default` export.
pub open spec fn export_name(decl: Statement) -> Option<Seq<char>> {
    match decl {
        Statement::FunctionDeclaration { name, .. } => if name@.len() == 0 {
            None
        } else {
            Some(name@)
        },
        Statement::VariableDeclaration { declarations, .. } => first_plain_name(declarations@),
        Statement::ClassDeclaration { name, .. } => Some(name@),
        Statement::TypeAliasDeclaration { name, .. } => Some(name@),
        Statement::EnumDeclaration { name, .. } => Some(name@),
        Statement::ExpressionStatement { .. } => Some("default"@),
        _ => None,
    }
}

/// The first declarator that binds a plain name, if any.
pub open spec fn first_plain_name(ds: Seq<crate::ast::VariableDeclarator>) -> Option<Seq<char>>
    decreases ds.len(),
{
    if ds.len() == 0 {
        None
    } else {
        match *ds[0].id {
            Expression::Identifier { name, .. } => Some(name@),
            _ => first_plain_name(ds.drop_first()),
        }
    }
}

/// The name exported by statement `s`, when it is an export.
pub open spec fn exported_by(s: Statement) -> Option<Seq<char>> {
    match s {
        Statement::ExportDeclaration { declaration, .. } => export_name(*declaration),
        _ => None,
    }
}

/// One of the first `i` statements exports `name`.
pub open spec fn exported_before(stmts: Seq<Statement>, name: Seq<char>, i: int) -> bool {
    exists|j: int| 0 <= j < i && j < stmts.len() && #[trigger] exported_by(stmts[j]) == Some(name)
}

proof fn lemma_exported_before_grows(stmts: Seq<Statement>, name: Seq<char>, i: int, i2: int)
    requires
        exported_before(stmts, name, i),
        i <= i2,
    ensures
        exported_before(stmts, name, i2),
{
    let j = choose|j: int| 0 <= j < i && j < stmts.len() && #[trigger] exported_by(stmts[j]) == Some(name);
    assert(0 <= j < i2 && j < stmts.len() && exported_by(stmts[j]) == Some(name));
}

/// `name` is bound to a type structurally equal to `t`.
pub open spec fn binds_as(env: TypeEnv, name: Seq<char>, t: Type) -> bool {
    match env.binding(name) {
        Some(b) => ty_eq(t, b),
        None => false,
    }
}

/// The name exported by `s`, when the environment binds it.
pub open spec fn bound_export(env: TypeEnv, s: Statement) -> Option<Seq<char>> {
    match exported_by(s) {
        Some(n) => if env.binding(n) is Some {
            Some(n)
        } else {
            None
        },
        None => None,
    }
}

/// The sources of the imports of a program, in order.
pub open spec fn import_list(stmts: Seq<Statement>) -> Seq<Seq<char>>
    decreases stmts.len(),
{
    if stmts.len() == 0 {
        Seq::empty()
    } else {
        match stmts.last() {
            Statement::ImportDeclaration { source, .. } => import_list(stmts.drop_last()).push(
                source@,
            ),
            _ => import_list(stmts.drop_last()),
        }
    }
}

/// Where an import is read from: a relative source next to the importing
/// file, an aliased one under the project root, both as `.ts` files; a bare
/// package name is not resolved.
pub open spec fn import_target(
    source: Seq<char>,
    from: Seq<char>,
    root: Seq<char>,
    options: CompilerOptions,
) -> Option<Seq<char>> {
    if source.len() > 0 && source[0] == '.' {
        let dir = match parent(from) {
            Some(d) => d,
            None => from,
        };
        Some(with_extension(crate::config::path_join(dir, source), "ts"@))
    } else {
        match resolve_path_alias_spec(source, options) {
            Some(r) => Some(with_extension(crate::config::path_join(root, r), "ts"@)),
            None => None,
        }
    }
}

/// A source that is not relative can be looked up among the path aliases
/// (every wildcard pattern tried leaves the suffix on a character boundary).
pub open spec fn alias_ok(source: Seq<char>, options: CompilerOptions) -> bool {
    (source.len() > 0 && source[0] == '.') || (options.paths matches Some(paths)
        ==> crate::config::suffix_on_boundary(paths_view(paths@), source, 0))
}

/// Where the output of `path` with extension `ext` goes: next to it, or
/// under the output directory at the same place relative to the root.
pub open spec fn output_path(
    path: Seq<char>,
    root: Seq<char>,
    out_dir: Option<Seq<char>>,
    ext: Seq<char>,
) -> Seq<char> {
    match out_dir {
        Some(od) => {
            let rel = match strip_prefix(path, root) {
                Some(r) => r,
                None => path,
            };
            with_extension(crate::config::path_join(od, rel), ext)
        },
        None => with_extension(path, ext),
    }
}

/// The view of an optional string.
pub open spec fn opt_view(o: Option<String>) -> Option<Seq<char>> {
    match o {
        Some(s) => Some(s@),
        None => None,
    }
}

/// The view of an optional list of strings.
pub open spec fn opt_strings_view(o: Option<Vec<String>>) -> Option<Seq<Seq<char>>> {
    match o {
        Some(v) => Some(v@.map_values(|s: String| s@)),
        None => None,
    }
}

/// The view of optional path patterns.
pub open spec fn opt_paths_view(o: Option<Vec<(String, Vec<String>)>>) -> Option<
    Seq<(Seq<char>, Seq<Seq<char>>)>,
> {
    match o {
        Some(v) => Some(paths_view(v@)),
        None => None,
    }
}

/// `over` when it is set, else `base`.
pub open spec fn pick<T>(over: Option<T>, base: Option<T>) -> Option<T> {
    match over {
        Some(x) => Some(x),
        None => base,
    }
}

/// `result` is `base` with each setting that the ferrite config gives
/// taken from the config.
pub open spec fn overridden(base: CompilerOptions, cfg: FerriteConfig, result: CompilerOptions) -> bool {
    &&& opt_view(result.target) == pick(opt_view(cfg.target), opt_view(base.target))
    &&& result.strict == pick(cfg.strict, base.strict)
    &&& opt_view(result.module) == pick(opt_view(cfg.module), opt_view(base.module))
    &&& opt_view(result.module_resolution) == pick(
        opt_view(cfg.module_resolution),
        opt_view(base.module_resolution),
    )
    &&& opt_strings_view(result.lib) == pick(opt_strings_view(cfg.lib), opt_strings_view(base.lib))
    &&& opt_paths_view(result.paths) == pick(opt_paths_view(cfg.paths), opt_paths_view(base.paths))
    &&& opt_view(result.base_url) == pick(opt_view(cfg.base_url), opt_view(base.base_url))
    &&& opt_view(result.jsx) == pick(opt_view(cfg.jsx), opt_view(base.jsx))
    &&& opt_view(result.jsx_factory) == pick(opt_view(cfg.jsx_factory), opt_view(base.jsx_factory))
    &&& opt_view(result.jsx_fragment_factory) == pick(
        opt_view(cfg.jsx_fragment_factory),
        opt_view(base.jsx_fragment_factory),
    )
    &&& result.experimental_decorators == pick(
        cfg.experimental_decorators,
        base.experimental_decorators,
    )
    &&& result.es_module_interop == pick(cfg.es_module_interop, base.es_module_interop)
    &&& result.allow_synthetic_default_imports == pick(
        cfg.allow_synthetic_default_imports,
        base.allow_synthetic_default_imports,
    )
}

fn copy_opt_string(o: &Option<String>) -> (r: Option<String>)
    ensures
        opt_view(r) == opt_view(*o),
{
    match o {
        Some(s) => Some(s.clone()),
        None => None,
    }
}

fn copy_strings(v: &Vec<String>) -> (r: Vec<String>)
    ensures
        r@.map_values(|s: String| s@) == v@.map_values(|s: String| s@),
{
    let mut r: Vec<String> = Vec::new();
    let mut i: usize = 0;
    while i < v.len()
        invariant
            i <= v.len(),
            r@.map_values(|s: String| s@) == v@.take(i as int).map_values(|s: String| s@),
        decreases v.len() - i,
    {
        let ghost prev = r@;
        r.push(v[i].clone());
        assert(r@ == prev.push(v@[i as int]));
        assert(r@.map_values(|s: String| s@) =~= prev.map_values(|s: String| s@).push(v@[i as int]@));
        assert(v@.take(i + 1).map_values(|s: String| s@) =~= v@.take(i as int).map_values(
            |s: String| s@,
        ).push(v@[i as int]@));
        i += 1;
    }
    assert(v@.take(v@.len() as int) =~= v@);
    r
}

fn copy_opt_strings(o: &Option<Vec<String>>) -> (r: Option<Vec<String>>)
    ensures
        opt_strings_view(r) == opt_strings_view(*o),
{
    match o {
        Some(v) => Some(copy_strings(v)),
        None => None,
    }
}

fn copy_opt_paths(o: &Option<Vec<(String, Vec<String>)>>) -> (r: Option<Vec<(String, Vec<String>)>>)
    ensures
        opt_paths_view(r) == opt_paths_view(*o),
{
    match o {
        Some(v) => {
            let mut r: Vec<(String, Vec<String>)> = Vec::new();
            let mut i: usize = 0;
            while i < v.len()
                invariant
                    i <= v.len(),
                    paths_view(r@) == paths_view(v@.take(i as int)),
                decreases v.len() - i,
            {
                let ghost prev = r@;
                let item = (v[i].0.clone(), copy_strings(&v[i].1));
                r.push(item);
                assert(r@ == prev.push(item));
                assert(paths_view(r@) =~= paths_view(prev).push(
                    (v@[i as int].0@, v@[i as int].1@.map_values(|t: String| t@)),
                ));
                assert(paths_view(v@.take(i + 1)) =~= paths_view(v@.take(i as int)).push(
                    (v@[i as int].0@, v@[i as int].1@.map_values(|t: String| t@)),
                ));
                i += 1;
            }
            assert(v@.take(v@.len() as int) =~= v@);
            Some(r)
        },
        None => None,
    }
}

fn pick_string(over: &Option<String>, base: &Option<String>) -> (r: Option<String>)
    ensures
        opt_view(r) == pick(opt_view(*over), opt_view(*base)),
{
    if over.is_some() {
        copy_opt_string(over)
    } else {
        copy_opt_string(base)
    }
}

fn pick_strings(over: &Option<Vec<String>>, base: &Option<Vec<String>>) -> (r: Option<Vec<String>>)
    ensures
        opt_strings_view(r) == pick(opt_strings_view(*over), opt_strings_view(*base)),
{
    if over.is_some() {
        copy_opt_strings(over)
    } else {
        copy_opt_strings(base)
    }
}

fn pick_paths(
    over: &Option<Vec<(String, Vec<String>)>>,
    base: &Option<Vec<(String, Vec<String>)>>,
) -> (r: Option<Vec<(String, Vec<String>)>>)
    ensures
        opt_paths_view(r) == pick(opt_paths_view(*over), opt_paths_view(*base)),
{
    if over.is_some() {
        copy_opt_paths(over)
    } else {
        copy_opt_paths(base)
    }
}

fn pick_bool(over: Option<bool>, base: Option<bool>) -> (r: Option<bool>)
    ensures
        r == pick(over, base),
{
    if over.is_some() {
        over
    } else {
        base
    }
}

/// `options` with each setting that the ferrite config gives taken from
/// the config.
pub fn apply_overrides(options: &CompilerOptions, cfg: &FerriteConfig) -> (r: CompilerOptions)
    ensures
        overridden(*options, *cfg, r),
{
    CompilerOptions {
        target: pick_string(&cfg.target, &options.target),
        strict: pick_bool(cfg.strict, options.strict),
        module: pick_string(&cfg.module, &options.module),
        module_resolution: pick_string(&cfg.module_resolution, &options.module_resolution),
        lib: pick_strings(&cfg.lib, &options.lib),
        paths: pick_paths(&cfg.paths, &options.paths),
        base_url: pick_string(&cfg.base_url, &options.base_url),
        jsx: pick_string(&cfg.jsx, &options.jsx),
        jsx_factory: pick_string(&cfg.jsx_factory, &options.jsx_factory),
        jsx_fragment_factory: pick_string(&cfg.jsx_fragment_factory, &options.jsx_fragment_factory),
        experimental_decorators: pick_bool(
            cfg.experimental_decorators,
            options.experimental_decorators,
        ),
        es_module_interop: pick_bool(cfg.es_module_interop, options.es_module_interop),
        allow_synthetic_default_imports: pick_bool(
            cfg.allow_synthetic_default_imports,
            options.allow_synthetic_default_imports,
        ),
    }
}

/// The source map text for the generated file `file` of the source
/// `source`, with the given mappings.
pub open spec fn source_map_json(
    file: Seq<char>,
    source: Seq<char>,
    ms: Seq<(int, int, int, int)>,
) -> Seq<char> {
    "{\"version\":3,\"file\":\""@ + crate::source_map::json_escaped(file)
        + "\",\"sources\":[\""@ + crate::source_map::json_escaped(source)
        + "\"],\"names\":[],\"mappings\":\""@ + encode_mappings_spec(ms) + "\"}"@
}

/// Whether source maps are written: unless the ferrite config turns them off.
pub open spec fn emits_map(cfg: Option<FerriteConfig>) -> bool {
    match cfg {
        Some(c) => c.sourcemap != Some(false),
        None => true,
    }
}

/// Whether declaration files are written: unless the ferrite config turns
/// them off.
pub open spec fn emits_dts(cfg: Option<FerriteConfig>) -> bool {
    match cfg {
        Some(c) => match c.dts {
            Some(b) => b,
            None => true,
        },
        None => true,
    }
}

/// Number of outputs written for each module.
pub open spec fn outputs_per_module(cfg: Option<FerriteConfig>) -> nat {
    1 + (if emits_map(cfg) {
        1nat
    } else {
        0nat
    }) + (if emits_dts(cfg) {
        1nat
    } else {
        0nat
    })
}

/// `outs` are the outputs of module `m` under the output settings `st`
/// (root, output directory, ferrite config): its JavaScript, then its
/// source map and its declarations where they are written, each at its
/// output path.
pub open spec fn module_outputs_are(
    st: (Seq<char>, Option<Seq<char>>, Option<FerriteConfig>),
    m: Module,
    outs: Seq<(String, String)>,
) -> bool {
    let js_path = output_path(m.path@, st.0, st.1, "js"@);
    &&& outs.len() == outputs_per_module(st.2)
    &&& outs[0].0@ == js_path
    &&& outs[0].1@ == stmts_text(m.program.body@, 0)
    &&& emits_map(st.2) ==> {
        &&& outs[1].0@ == output_path(m.path@, st.0, st.1, "js.map"@)
        &&& exists|ms: Seq<(int, int, int, int)>| #[trigger]
            source_map_json(file_name(js_path), m.path@, ms) == outs[1].1@
    }
    &&& emits_dts(st.2) ==> {
        &&& outs.last().0@ == output_path(m.path@, st.0, st.1, "d.ts"@)
        &&& outs.last().1@ == decls_text(m.program.body@)
    }
}

/// `outs` are the outputs of the modules `ms`, in order.
pub open spec fn outputs_are(
    st: (Seq<char>, Option<Seq<char>>, Option<FerriteConfig>),
    ms: Seq<Module>,
    outs: Seq<(String, String)>,
) -> bool
    decreases ms.len(),
{
    if ms.len() == 0 {
        outs.len() == 0
    } else {
        let n = outputs_per_module(st.2);
        &&& outs.len() >= n
        &&& outputs_are(st, ms.drop_last(), outs.take(outs.len() - n))
        &&& module_outputs_are(st, ms.last(), outs.skip(outs.len() - n))
    }
}

/// `s` is the type error `err` of module `m` as it is shown: with its
/// place in the source when its span can be shown, else its message alone.
pub open spec fn formats_type_error(
    m: Module,
    err: crate::type_checker::error::TypeError,
    s: Seq<char>,
) -> bool {
    let sp = err.spec_span();
    if sp.start < usize::MAX - 64 && sp.end < usize::MAX - 64 {
        exists|sl: nat, sc: nat, el: nat, ec: nat|
            m.source_file.spec_line_col(sp.start as int, sl as int, sc as int)
                && m.source_file.spec_line_col(sp.end as int, el as int, ec as int) && s
                == m.source_file.spec_format_error("E0001"@, err.spec_message(), sl, sc, el, ec)
    } else {
        s == err.spec_message()
    }
}

/// `s` is a type error of one of `modules`, as it is shown.
pub open spec fn shows_type_error(modules: Seq<Module>, s: Seq<char>) -> bool {
    exists|j: int, err: crate::type_checker::error::TypeError|
        0 <= j < modules.len() && #[trigger] formats_type_error(modules[j], err, s)
}

impl Compiler {
    pub open spec fn wf(self) -> bool {
        forall|i: int| 0 <= i < self.modules@.len() ==> (#[trigger] self.modules@[i]).wf()
    }

    pub open spec fn out_dir_view(self) -> Option<Seq<char>> {
        match self.out_dir {
            Some(d) => Some(d@),
            None => None,
        }
    }

    pub fn new() -> (c: Self)
        ensures
            c.wf(),
            c.modules@.len() == 0,
            c.registry@.len() == 0,
            c.root_dir@ == Seq::<char>::empty(),
            c.out_dir is None,
            c.ferrite_cfg is None,
            crate::config::no_options(c.options),
    {
        Compiler {
            modules: Vec::new(),
            registry: Vec::new(),
            options: CompilerOptions::default(),
            root_dir: String::new(),
            out_dir: None,
            ferrite_cfg: None,
        }
    }

    /// The sources of a program's imports, in order.
    pub fn import_sources(program: &Program) -> (r: Vec<String>)
        ensures
            r@.map_values(|x: String| x@) == import_list(program.body@),
    {
        let mut r: Vec<String> = Vec::new();
        let mut i: usize = 0;
        while i < program.body.len()
            invariant
                i <= program.body.len(),
                r@.map_values(|x: String| x@) == import_list(program.body@.take(i as int)),
            decreases program.body.len() - i,
        {
            let ghost before = r@;
            match &program.body[i] {
                Statement::ImportDeclaration { source, .. } => {
                    r.push(source.clone());
                    assert(r@.map_values(|x: String| x@) =~= before.map_values(|x: String| x@).push(
                        source@,
                    ));
                },
                _ => {},
            }
            assert(program.body@.take(i + 1).drop_last() =~= program.body@.take(i as int));
            i += 1;
        }
        assert(program.body@.take(program.body@.len() as int) =~= program.body@);
        r
    }

    /// Whether a module is already known under `path`.
    pub fn has_module(&self, path: &str) -> (r: bool)
        ensures
            r == exists|i: int| 0 <= i < self.modules@.len() && (#[trigger] self.modules@[i]).path@ == path@,
    {
        let mut i: usize = 0;
        while i < self.modules.len()
            invariant
                i <= self.modules.len(),
                forall|j: int| 0 <= j < i ==> (#[trigger] self.modules@[j]).path@ != path@,
            decreases self.modules.len() - i,
        {
            if str_eq(self.modules[i].path.as_str(), path) {
                return true;
            }
            i += 1;
        }
        false
    }

    /// Where an import of `source` from the file `from` is read from; `None`
    /// for a bare package name (and for an alias whose pattern suffix would
    /// not start on a character boundary).
    pub fn resolve_import(&self, source: &str, from: &str) -> (r: Option<String>)
        ensures
            alias_ok(source@, self.options) ==> match r {
                Some(p) => import_target(source@, from@, self.root_dir@, self.options) == Some(p@),
                None => import_target(source@, from@, self.root_dir@, self.options) is None,
            },
            !alias_ok(source@, self.options) ==> r is None,
    {
        let v = crate::text::chars_of(source);
        if v.len() > 0 && v[0] == '.' {
            let dir = match path_parent(from) {
                Some(d) => d,
                None => string_of_str(from),
            };
            let joined = path_join(dir.as_str(), source);
            return Some(path_with_extension(joined.as_str(), "ts"));
        }
        if !alias_resolvable(source, &self.options) {
            return None;
        }
        match resolve_path_alias(source, source, &self.options) {
            Some(resolved) => {
                let joined = path_join(self.root_dir.as_str(), resolved.as_str());
                Some(path_with_extension(joined.as_str(), "ts"))
            },
            None => None,
        }
    }

    /// Where the output of the module at `path` with extension `ext` goes.
    pub fn out_path(&self, path: &str, ext: &str) -> (r: String)
        ensures
            r@ == output_path(path@, self.root_dir@, self.out_dir_view(), ext@),
    {
        match &self.out_dir {
            Some(od) => {
                let rel = match path_strip_prefix(path, self.root_dir.as_str()) {
                    Some(r) => r,
                    None => string_of_str(path),
                };
                let joined = path_join(od.as_str(), rel.as_str());
                path_with_extension(joined.as_str(), ext)
            },
            None => path_with_extension(path, ext),
        }
    }

    /// Lexes and parses a module's source. The lexing and parsing errors,
    /// each shown with its place in the source, are returned when there are
    /// any.
    pub fn parse_module(path: &str, source: &str) -> (r: Result<Program, Vec<String>>)
        requires
            byte_len(source@) < usize::MAX,
        ensures
            r matches Err(es) ==> es@.len() > 0,
            source@.len() == 0 ==> (r matches Ok(p) && p.body@.len() == 0),
    {
        let source_file = SourceFile::new(path, source);
        let mut lexer = Lexer::new(source);
        let ts = lexer.tokenize();
        let mut tokens: Vec<Token> = Vec::new();
        let mut i: usize = 0;
        while i < ts.len()
            invariant
                i <= ts@.len(),
                tokens@ == ts@.take(i as int),
            decreases ts.len() - i,
        {
            tokens.push(ts[i].clone());
            assert(tokens@ =~= ts@.take(i + 1));
            i += 1;
        }
        assert(tokens@ =~= ts@);
        let lex_diags = lexer.into_diagnostics();
        let mut parser = Parser::new(tokens, source_file.clone());
        let program = parser.parse();
        let mut errors: Vec<String> = Vec::new();
        let mut k: usize = 0;
        while k < lex_diags.len()
            invariant
                source_file.wf(),
                k <= lex_diags.len(),
                errors@.len() == k,
            decreases lex_diags.len() - k,
        {
            errors.push(Self::format_diagnostic(&source_file, &lex_diags[k]));
            k += 1;
        }
        let parse_diags = parser.diagnostics();
        let mut k: usize = 0;
        while k < parse_diags.len()
            invariant
                source_file.wf(),
                k <= parse_diags.len(),
                errors@.len() == lex_diags@.len() + k,
            decreases parse_diags.len() - k,
        {
            errors.push(Self::format_diagnostic(&source_file, &parse_diags[k]));
            k += 1;
        }
        if errors.len() > 0 {
            Err(errors)
        } else {
            Ok(program)
        }
    }

    /// A diagnostic shown with its place in the source (its message alone
    /// for a span too close to the end of the address space to be shown).
    fn format_diagnostic(source_file: &SourceFile, d: &Diagnostic) -> (s: String)
        requires
            source_file.wf(),
        ensures
            if d.span.start < usize::MAX - 64 && d.span.end < usize::MAX - 64 {
                exists|sl: nat, sc: nat, el: nat, ec: nat|
                    source_file.spec_line_col(d.span.start as int, sl as int, sc as int)
                        && source_file.spec_line_col(d.span.end as int, el as int, ec as int) && s@
                        == source_file.spec_format_error(d.code@, d.message@, sl, sc, el, ec)
            } else {
                s@ == d.message@
            },
    {
        if d.span.start < usize::MAX - 64 && d.span.end < usize::MAX - 64 {
            source_file.format_error(d.code.as_str(), d.message.as_str(), d.span)
        } else {
            d.message.clone()
        }
    }

    /// Registers a parsed module under `path`, after those already known.
    pub fn add_module(&mut self, path: &str, source: &str, program: Program)
        requires
            old(self).wf(),
            byte_len(source@) < usize::MAX,
        ensures
            final(self).wf(),
            final(self).modules@.len() == old(self).modules@.len() + 1,
            forall|i: int|
                0 <= i < old(self).modules@.len() ==> final(self).modules@[i] == old(
                    self,
                ).modules@[i],
            final(self).modules@.last().path@ == path@,
            final(self).modules@.last().source@ == source@,
            final(self).modules@.last().program == program,
            final(self).registry == old(self).registry,
            final(self).root_dir == old(self).root_dir,
            final(self).out_dir == old(self).out_dir,
            final(self).options == old(self).options,
            final(self).ferrite_cfg == old(self).ferrite_cfg,
    {
        let source_file = SourceFile::new(path, source);
        let m = Module {
            path: string_of_str(path),
            source: string_of_str(source),
            program,
            source_file,
        };
        self.modules.push(m);
    }

    /// Takes in the settings found for a build: the ferrite config with the
    /// directory it was found in (its `outDir` is relative to that), and
    /// the tsconfig options with the directory they were found in (the
    /// project root). The ferrite config's settings win over tsconfig's.
    pub fn configure(
        &mut self,
        ferrite: Option<(FerriteConfig, String)>,
        tsconfig: Option<(CompilerOptions, String)>,
    )
        ensures
            final(self).modules == old(self).modules,
            final(self).registry == old(self).registry,
            final(self).out_dir_view() == (match ferrite {
                Some(fc) => match fc.0.out_dir {
                    Some(o) => Some(crate::config::path_join(fc.1@, o@)),
                    None => old(self).out_dir_view(),
                },
                None => old(self).out_dir_view(),
            }),
            final(self).ferrite_cfg == (match ferrite {
                Some(fc) => Some(fc.0),
                None => old(self).ferrite_cfg,
            }),
            final(self).root_dir@ == (match tsconfig {
                Some(tc) => tc.1@,
                None => old(self).root_dir@,
            }),
            ({
                let base = match tsconfig {
                    Some(tc) => tc.0,
                    None => old(self).options,
                };
                match final(self).ferrite_cfg {
                    Some(c) => overridden(base, c, final(self).options),
                    None => final(self).options == base,
                }
            }),
    {
        match ferrite {
            Some((cfg, dir)) => {
                match &cfg.out_dir {
                    Some(out) => {
                        self.out_dir = Some(path_join(dir.as_str(), out.as_str()));
                    },
                    None => {},
                }
                self.ferrite_cfg = Some(cfg);
            },
            None => {},
        }
        match tsconfig {
            Some((opts, found)) => {
                self.options = opts;
                self.root_dir = found;
            },
            None => {},
        }
        match &self.ferrite_cfg {
            Some(cfg) => {
                self.options = apply_overrides(&self.options, cfg);
            },
            None => {},
        }
    }

    /// The output settings: root directory, output directory and ferrite
    /// config.
    pub open spec fn settings(self) -> (Seq<char>, Option<Seq<char>>, Option<FerriteConfig>) {
        (self.root_dir@, self.out_dir_view(), self.ferrite_cfg)
    }

    /// The outputs of one module: its JavaScript with a source map of
    /// where each statement came from, and its declarations.
    pub fn module_outputs(&self, m: &Module) -> (r: Vec<(String, String)>)
        requires
            m.wf(),
        ensures
            module_outputs_are(self.settings(), *m, r@),
    {
        let mut outputs: Vec<(String, String)> = Vec::new();
        let js_path = self.out_path(m.path.as_str(), "js");
        let js_name = path_file_name(js_path.as_str());
        let mut codegen = Codegen::new();
        codegen.set_source_map(SourceMap::new(m.source.as_str(), m.path.as_str()));
        codegen.generate(&m.program);
        let sm = codegen.take_source_map();
        outputs.push((js_path, codegen.output));
        let emit_map = match &self.ferrite_cfg {
            Some(c) => !matches!(c.sourcemap, Some(false)),
            None => true,
        };
        if emit_map {
            let map_path = self.out_path(m.path.as_str(), "js.map");
            match sm {
                Some(sm) => {
                    let json = sm.to_json(js_name.as_str());
                    assert(source_map_json(js_name@, m.path@, sm.mappings()) == json@);
                    assert(js_name@ == file_name(
                        output_path(m.path@, self.settings().0, self.settings().1, "js"@),
                    ));
                    outputs.push((map_path, json));
                },
                None => {},
            }
        }
        let emit_dts = match &self.ferrite_cfg {
            Some(c) => match c.dts {
                Some(b) => b,
                None => true,
            },
            None => true,
        };
        if emit_dts {
            let dts_path = self.out_path(m.path.as_str(), "d.ts");
            outputs.push((dts_path, emit_declarations(&m.program)));
        }
        outputs
    }

    /// A type error shown with its place in the module's source.
    fn format_type_error(m: &Module, err: &crate::type_checker::error::TypeError) -> (s: String)
        requires
            m.wf(),
        ensures
            formats_type_error(*m, *err, s@),
    {
        let span = err.span();
        let message = err.message();
        if span.start < usize::MAX - 64 && span.end < usize::MAX - 64 {
            m.source_file.format_error("E0001", message.as_str(), span)
        } else {
            message
        }
    }

    /// Checks the modules in order, each against the exports of those
    /// before it, and prints each. The outputs of every module come back
    /// when no module has a type error; else the type errors, each shown
    /// with its place in its module. A module's exports are recorded only
    /// while no error has been found.
    pub fn type_check_all(&mut self) -> (r: Result<Vec<(String, String)>, Vec<String>>)
        requires
            old(self).wf(),
        ensures
            final(self).modules == old(self).modules,
            final(self).options == old(self).options,
            final(self).root_dir == old(self).root_dir,
            final(self).out_dir == old(self).out_dir,
            final(self).ferrite_cfg == old(self).ferrite_cfg,
            r matches Ok(outs) ==> outputs_are(old(self).settings(), old(self).modules@, outs@),
            r matches Err(es) ==> es@.len() > 0 && forall|q: int|
                0 <= q < es@.len() ==> shows_type_error(old(self).modules@, #[trigger] es@[q]@),
            old(self).modules@.len() == 0 ==> (r matches Ok(outs) && outs@.len() == 0),
    {
        let mut checker = TypeChecker::new();
        std::mem::swap(&mut checker.module_registry, &mut self.registry);
        checker.options = self.options.clone();
        checker.root_dir = self.root_dir.clone();
        let mut outputs: Vec<(String, String)> = Vec::new();
        let mut all_errors: Vec<String> = Vec::new();
        let mut i: usize = 0;
        while i < self.modules.len()
            invariant
                self.wf(),
                self.modules == old(self).modules,
                self.options == old(self).options,
                self.root_dir == old(self).root_dir,
                self.out_dir == old(self).out_dir,
                self.ferrite_cfg == old(self).ferrite_cfg,
                i <= self.modules.len(),
                outputs_are(self.settings(), self.modules@.take(i as int), outputs@),
                i == 0 ==> all_errors@.len() == 0 && outputs@.len() == 0,
                forall|q: int|
                    0 <= q < all_errors@.len() ==> shows_type_error(self.modules@, #[trigger] all_errors@[q]@),
            decreases self.modules.len() - i,
        {
            let m = &self.modules[i];
            checker.current_module = m.path.clone();
            let mut env = TypeEnv::new();
            checker.errors.clear();
            checker.narrowed.clear();
            checker.check(&m.program, &mut env);
            let mut k: usize = 0;
            while k < checker.errors.len()
                invariant
                    m.wf(),
                    *m == self.modules@[i as int],
                    i < self.modules@.len(),
                    k <= checker.errors.len(),
                    all_errors@.len() >= k,
                    forall|q: int|
                        0 <= q < all_errors@.len() ==> shows_type_error(self.modules@, #[trigger] all_errors@[q]@),
                decreases checker.errors.len() - k,
            {
                let f = Self::format_type_error(m, &checker.errors[k]);
                assert(formats_type_error(self.modules@[i as int], checker.errors@[k as int], f@));
                let ghost before = all_errors@;
                all_errors.push(f);
                assert forall|q: int| 0 <= q < all_errors@.len() implies shows_type_error(
                    self.modules@,
                    #[trigger] all_errors@[q]@,
                ) by {
                    if q < before.len() {
                        assert(all_errors@[q] == before[q]);
                    }
                }
                k += 1;
            }
            if all_errors.len() == 0 {
                let exports = Self::collect_exports_static(&m.program, &env);
                let key = m.path.clone();
                let mut found: Option<usize> = None;
                let mut j: usize = 0;
                while j < checker.module_registry.len() && found.is_none()
                    invariant
                        j <= checker.module_registry.len(),
                        found matches Some(q) ==> q < checker.module_registry@.len(),
                    decreases checker.module_registry.len() - j,
                {
                    if str_eq(checker.module_registry[j].0.as_str(), key.as_str()) {
                        found = Some(j);
                    }
                    j += 1;
                }
                match found {
                    Some(q) => checker.module_registry.set(q, (key, exports)),
                    None => checker.module_registry.push((key, exports)),
                }
            }
            let mine = self.module_outputs(m);
            let ghost before = outputs@;
            let mut k: usize = 0;
            while k < mine.len()
                invariant
                    k <= mine.len(),
                    outputs@ == before + mine@.take(k as int),
                decreases mine.len() - k,
            {
                let item = (mine[k].0.clone(), mine[k].1.clone());
                outputs.push(item);
                assert(outputs@ =~= before + mine@.take(k + 1));
                k += 1;
            }
            proof {
                assert(mine@.take(mine@.len() as int) =~= mine@);
                let ms = self.modules@.take(i + 1);
                assert(ms.drop_last() =~= self.modules@.take(i as int));
                assert(ms.last() == self.modules@[i as int]);
                let n = outputs_per_module(self.ferrite_cfg);
                assert(outputs@.take(outputs@.len() - n) =~= before);
                assert(outputs@.skip(outputs@.len() - n) =~= mine@);
            }
            i += 1;
        }
        std::mem::swap(&mut checker.module_registry, &mut self.registry);
        proof {
            assert(self.modules@.take(self.modules@.len() as int) =~= self.modules@);
        }
        if all_errors.len() == 0 {
            Ok(outputs)
        } else {
            Err(all_errors)
        }
    }

    /// The name a declaration exports.
    #[verifier::loop_isolation(false)]
    pub fn extract_export_name(decl: &Statement) -> (r: Option<String>)
        ensures
            match r {
                Some(n) => export_name(*decl) == Some(n@),
                None => export_name(*decl) is None,
            },
    {
        match decl {
            Statement::FunctionDeclaration { name, .. } => {
                if name.as_str().is_empty() {
                    None
                } else {
                    Some(name.clone())
                }
            },
            Statement::VariableDeclaration { declarations, .. } => {
                let mut i: usize = 0;
                assert(declarations@.skip(0) =~= declarations@);
                while i < declarations.len()
                    invariant
                        i <= declarations.len(),
                        first_plain_name(declarations@) == first_plain_name(
                            declarations@.skip(i as int),
                        ),
                    decreases declarations.len() - i,
                {
                    assert(declarations@.skip(i as int)[0] == declarations@[i as int]);
                    assert(declarations@.skip(i as int).drop_first() =~= declarations@.skip(
                        i + 1,
                    ));
                    match &*declarations[i].id {
                        Expression::Identifier { name, .. } => {
                            return Some(name.clone());
                        },
                        _ => {},
                    }
                    i += 1;
                }
                None
            },
            Statement::ClassDeclaration { name, .. } => Some(name.clone()),
            Statement::TypeAliasDeclaration { name, .. } => Some(name.clone()),
            Statement::EnumDeclaration { name, .. } => Some(name.clone()),
            Statement::ExpressionStatement { .. } => Some(string_of_str("default")),
            _ => None,
        }
    }

    /// The exports of a checked program: each exported name that the
    /// environment binds, with its type; a name exported twice is kept once.
    pub fn collect_exports_static(program: &Program, env: &TypeEnv) -> (r: Vec<(String, Type)>)
        requires
            env.wf(),
        ensures
            forall|k: int|
                0 <= k < r@.len() ==> #[trigger] exported_before(
                    program.body@,
                    r@[k].0@,
                    program.body@.len() as int,
                ),
            forall|k: int| 0 <= k < r@.len() ==> #[trigger] binds_as(*env, r@[k].0@, r@[k].1),
            forall|j: int|
                0 <= j < program.body@.len() && (#[trigger] bound_export(*env, program.body@[j]))
                    is Some ==> exists|k: int|
                    0 <= k < r@.len() && Some(r@[k].0@) == bound_export(*env, program.body@[j]),
            forall|a: int, b: int| 0 <= a < b < r@.len() ==> r@[a].0@ != r@[b].0@,
    {
        let mut exports: Vec<(String, Type)> = Vec::new();
        let mut i: usize = 0;
        while i < program.body.len()
            invariant
                i <= program.body.len(),
                env.wf(),
                forall|k: int|
                    0 <= k < exports@.len() ==> #[trigger] exported_before(
                        program.body@,
                        exports@[k].0@,
                        i as int,
                    ),
                forall|k: int|
                    0 <= k < exports@.len() ==> #[trigger] binds_as(*env, exports@[k].0@, exports@[k].1),
                forall|j: int|
                    0 <= j < i && (#[trigger] bound_export(*env, program.body@[j])) is Some
                        ==> exists|k: int|
                        0 <= k < exports@.len() && Some(exports@[k].0@) == bound_export(
                            *env,
                            program.body@[j],
                        ),
                forall|a: int, b: int| 0 <= a < b < exports@.len() ==> exports@[a].0@ != exports@[b].0@,
            decreases program.body.len() - i,
        {
            let ghost before = exports@;
            let ghost ii = i as int;
            match &program.body[i] {
                Statement::ExportDeclaration { declaration, .. } => {
                    match Self::extract_export_name(declaration) {
                        Some(name) => {
                            match env.lookup(name.as_str()) {
                                Some(t) => {
                                    assert(exported_before(program.body@, name@, ii + 1));
                                    proof {
                                        crate::type_checker::ty::lemma_field_index(
                                            exports@,
                                            name@,
                                        );
                                    }
                                    match find_field(&exports, &name) {
                                        Some(k) => {
                                            exports.set(k, (name, t));
                                            assert(exports@[k as int].0@ == bound_export(
                                                *env,
                                                program.body@[ii],
                                            )->0);
                                        },
                                        None => {
                                            exports.push((name, t));
                                            assert(exports@[before.len() as int].0@
                                                == bound_export(*env, program.body@[ii])->0);
                                        },
                                    }
                                },
                                None => {},
                            }
                        },
                        None => {},
                    }
                },
                _ => {},
            }
            proof {
                assert(exports@.len() >= before.len());
                assert forall|q: int| 0 <= q < before.len() implies exports@[q].0@ == before[q].0@
                    && (exports@[q] == before[q] || exported_before(
                    program.body@,
                    exports@[q].0@,
                    ii + 1,
                )) by {}
                assert forall|q: int| 0 <= q < exports@.len() implies #[trigger] exported_before(
                    program.body@,
                    exports@[q].0@,
                    ii + 1,
                ) by {
                    if q < before.len() && exports@[q] == before[q] {
                        lemma_exported_before_grows(program.body@, before[q].0@, ii, ii + 1);
                    }
                }
                assert forall|j: int|
                    0 <= j < ii + 1 && (#[trigger] bound_export(*env, program.body@[j])) is Some
                        implies exists|k: int|
                    0 <= k < exports@.len() && Some(exports@[k].0@) == bound_export(
                        *env,
                        program.body@[j],
                    ) by {
                    if j < ii {
                        let k = choose|k: int|
                            0 <= k < before.len() && Some(before[k].0@) == bound_export(
                                *env,
                                program.body@[j],
                            );
                        assert(exports@[k].0@ == before[k].0@);
                    }
                }
            }
            i += 1;
        }
        exports
    }
}

} // verus!
