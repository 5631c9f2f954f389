//! Build configuration: the options of `ferrite.config.*` and of
//! `tsconfig.json`, and the text processing that turns those files into
//! JSON (stripping comments, quoting keys, dropping trailing commas) and
//! resolves path aliases.
use vstd::prelude::*;

use crate::text::{
    ascii_white_space, char_is_alphanumeric, char_is_whitespace, chars_of, is_ascii_alnum,
    push_chars, string_of_str, unicode_alphanumeric, unicode_white_space,
};

verus! {

/// Ferrite build config (from ferrite.config.ts / ferrite.config.json).
/// Maps of the file are held as lists of (key, value) pairs.
#[derive(Debug, Clone)]
pub struct FerriteConfig {
    pub entry: Option<Vec<String>>,
    pub out_dir: Option<String>,
    pub format: Option<String>,
    pub target: Option<String>,
    pub dts: Option<bool>,
    pub minify: Option<bool>,
    pub clean: Option<bool>,
    pub splitting: Option<bool>,
    pub strict: Option<bool>,
    pub module: Option<String>,
    pub module_resolution: Option<String>,
    pub lib: Option<Vec<String>>,
    pub paths: Option<Vec<(String, Vec<String>)>>,
    pub base_url: Option<String>,
    pub jsx: Option<String>,
    pub jsx_factory: Option<String>,
    pub jsx_fragment_factory: Option<String>,
    pub experimental_decorators: Option<bool>,
    pub es_module_interop: Option<bool>,
    pub allow_synthetic_default_imports: Option<bool>,
    pub name: Option<String>,
    pub sourcemap: Option<bool>,
    pub bundle: Option<bool>,
    pub define: Option<Vec<(String, String)>>,
    pub env: Option<Vec<(String, String)>>,
    pub external: Option<Vec<String>>,
    pub plugins: Option<Vec<String>>,
    pub silent: Option<bool>,
    pub tsconfig: Option<String>,
}

impl Default for FerriteConfig {
    fn default() -> (c: Self)
        ensures
            c.entry is None && c.out_dir is None && c.format is None && c.target is None
                && c.dts is None && c.minify is None && c.clean is None && c.splitting is None
                && c.strict is None && c.module is None && c.module_resolution is None
                && c.lib is None && c.paths is None && c.base_url is None && c.jsx is None
                && c.jsx_factory is None && c.jsx_fragment_factory is None
                && c.experimental_decorators is None && c.es_module_interop is None
                && c.allow_synthetic_default_imports is None && c.name is None
                && c.sourcemap is None && c.bundle is None && c.define is None && c.env is None
                && c.external is None && c.plugins is None && c.silent is None
                && c.tsconfig is None,
    {
        FerriteConfig {
            entry: None,
            out_dir: None,
            format: None,
            target: None,
            dts: None,
            minify: None,
            clean: None,
            splitting: None,
            strict: None,
            module: None,
            module_resolution: None,
            lib: None,
            paths: None,
            base_url: None,
            jsx: None,
            jsx_factory: None,
            jsx_fragment_factory: None,
            experimental_decorators: None,
            es_module_interop: None,
            allow_synthetic_default_imports: None,
            name: None,
            sourcemap: None,
            bundle: None,
            define: None,
            env: None,
            external: None,
            plugins: None,
            silent: None,
            tsconfig: None,
        }
    }
}

/// Parsed tsconfig.json compiler options. `paths` is the list of
/// (pattern, targets) pairs in the order they are consulted.
#[derive(Debug, Clone)]
pub struct CompilerOptions {
    pub target: Option<String>,
    pub strict: Option<bool>,
    pub module: Option<String>,
    pub module_resolution: Option<String>,
    pub lib: Option<Vec<String>>,
    pub paths: Option<Vec<(String, Vec<String>)>>,
    pub base_url: Option<String>,
    pub jsx: Option<String>,
    pub jsx_factory: Option<String>,
    pub jsx_fragment_factory: Option<String>,
    pub experimental_decorators: Option<bool>,
    pub es_module_interop: Option<bool>,
    pub allow_synthetic_default_imports: Option<bool>,
}

/// Options with no setting given.
pub open spec fn no_options(c: CompilerOptions) -> bool {
    c.target is None && c.strict is None && c.module is None && c.module_resolution is None
        && c.lib is None && c.paths is None && c.base_url is None && c.jsx is None
        && c.jsx_factory is None && c.jsx_fragment_factory is None
        && c.experimental_decorators is None && c.es_module_interop is None
        && c.allow_synthetic_default_imports is None
}

impl Default for CompilerOptions {
    fn default() -> (c: Self)
        ensures
            c.target is None && c.strict is None && c.module is None && c.module_resolution is None
                && c.lib is None && c.paths is None && c.base_url is None && c.jsx is None
                && c.jsx_factory is None && c.jsx_fragment_factory is None
                && c.experimental_decorators is None && c.es_module_interop is None
                && c.allow_synthetic_default_imports is None,
    {
        CompilerOptions {
            target: None,
            strict: None,
            module: None,
            module_resolution: None,
            lib: None,
            paths: None,
            base_url: None,
            jsx: None,
            jsx_factory: None,
            jsx_fragment_factory: None,
            experimental_decorators: None,
            es_module_interop: None,
            allow_synthetic_default_imports: None,
        }
    }
}

// ── Comments in JSON ─────────────────────────────────────────────────────
/// Index of the quote that closes a string whose contents start at `i`
/// (a backslash escapes the next character), or `s.len()` if none does.
pub open spec fn string_end(s: Seq<char>, i: int) -> int
    decreases s.len() - i,
{
    if i >= s.len() {
        s.len() as int
    } else if s[i] == '"' {
        i
    } else if s[i] == '\\' {
        if i + 1 < s.len() {
            string_end(s, i + 2)
        } else {
            s.len() as int
        }
    } else {
        string_end(s, i + 1)
    }
}

/// Index of the first line feed at or after `i`, or `s.len()`.
pub open spec fn line_end(s: Seq<char>, i: int) -> int
    decreases s.len() - i,
{
    if i >= s.len() {
        s.len() as int
    } else if s[i] == '\n' {
        i
    } else {
        line_end(s, i + 1)
    }
}

/// Index of the first `*/` at or after `i`; past the end if there is none.
pub open spec fn block_end(s: Seq<char>, i: int) -> int
    decreases s.len() - i,
{
    if i + 1 >= s.len() {
        i
    } else if s[i] == '*' && s[i + 1] == '/' {
        i
    } else {
        block_end(s, i + 1)
    }
}

pub proof fn lemma_scan_ends(s: Seq<char>, i: int)
    requires
        0 <= i <= s.len(),
    ensures
        i <= string_end(s, i) <= s.len(),
        string_end(s, i) < s.len() ==> s[string_end(s, i)] == '"',
        i <= line_end(s, i) <= s.len(),
        i <= block_end(s, i),
    decreases s.len() - i,
{
    if i < s.len() {
        lemma_scan_ends(s, i + 1);
        if i + 2 <= s.len() {
            lemma_scan_ends(s, i + 2);
        }
    }
}

/// `s[i..]` with `//` and `/* */` comments removed; text inside string
/// literals is kept as it is.
pub open spec fn strip_comments_from(s: Seq<char>, i: int) -> Seq<char>
    decreases s.len() - i,
{
    if i < 0 || i >= s.len() {
        Seq::empty()
    } else if s[i] == '"' {
        let e = string_end(s, i + 1);
        proof {
            lemma_scan_ends(s, i + 1);
        }
        if e < s.len() {
            s.subrange(i, e + 1) + strip_comments_from(s, e + 1)
        } else {
            s.subrange(i, s.len() as int)
        }
    } else if s[i] == '/' && i + 1 < s.len() && s[i + 1] == '/' {
        proof {
            lemma_scan_ends(s, i + 2);
        }
        strip_comments_from(s, line_end(s, i + 2))
    } else if s[i] == '/' && i + 1 < s.len() && s[i + 1] == '*' {
        proof {
            lemma_scan_ends(s, i + 2);
        }
        let next = block_end(s, i + 2) + 2;
        if next >= s.len() {
            Seq::empty()
        } else {
            strip_comments_from(s, next)
        }
    } else {
        seq![s[i]] + strip_comments_from(s, i + 1)
    }
}

/// Text with no `/` in it holds no comment: stripping comments leaves it
/// as it is.
pub proof fn law_strip_keeps_text_without_slash(s: Seq<char>, i: int)
    requires
        0 <= i <= s.len(),
        forall|k: int| 0 <= k < s.len() ==> s[k] != '/',
    ensures
        strip_comments_from(s, i) == s.subrange(i, s.len() as int),
    decreases s.len() - i,
{
    if i < s.len() {
        if s[i] == '"' {
            lemma_scan_ends(s, i + 1);
            let e = string_end(s, i + 1);
            if e < s.len() {
                law_strip_keeps_text_without_slash(s, e + 1);
                assert(s.subrange(i, e + 1) + s.subrange(e + 1, s.len() as int) =~= s.subrange(
                    i,
                    s.len() as int,
                ));
            }
        } else {
            law_strip_keeps_text_without_slash(s, i + 1);
            assert(seq![s[i]] + s.subrange(i + 1, s.len() as int) =~= s.subrange(i, s.len() as int));
        }
    } else {
        assert(s.subrange(i, s.len() as int) =~= Seq::<char>::empty());
    }
}

/// Strip `//` and `/* */` comments from JSON content.
/// Handles strings correctly (doesn't strip inside quoted strings).
pub fn strip_json_comments(text: &str) -> (out: String)
    ensures
        out@ == strip_comments_from(text@, 0),
{
    let s = chars_of(text);
    let n = s.len();
    let mut out = String::new();
    let mut i: usize = 0;
    while i < n
        invariant
            s@ == text@,
            n == s.len(),
            i <= n,
            out@ + strip_comments_from(s@, i as int) == strip_comments_from(s@, 0),
        decreases n - i,
    {
        let ghost i0 = i as int;
        let ghost out0 = out@;
        if s[i] == '"' {
            out.push('"');
            i += 1;
            let ghost e = string_end(s@, i0 + 1);
            proof {
                lemma_scan_ends(s@, i0 + 1);
                assert(out@ =~= out0 + s@.subrange(i0, i as int));
            }
            while i < n && s[i] != '"'
                invariant
                    s@ == text@,
                    n == s.len(),
                    0 <= i0,
                    i0 + 1 <= i <= n,
                    string_end(s@, i as int) == e,
                    out@ == out0 + s@.subrange(i0, i as int),
                decreases n - i,
            {
                if s[i] == '\\' {
                    out.push(s[i]);
                    i += 1;
                    assert(out@ =~= out0 + s@.subrange(i0, i as int));
                    if i < n {
                        out.push(s[i]);
                        i += 1;
                        assert(out@ =~= out0 + s@.subrange(i0, i as int));
                    }
                } else {
                    out.push(s[i]);
                    i += 1;
                    assert(out@ =~= out0 + s@.subrange(i0, i as int));
                }
            }
            if i < n {
                out.push('"');
                i += 1;
                proof {
                    assert(out@ =~= out0 + s@.subrange(i0, i as int));
                    assert(e == i - 1);
                    assert(strip_comments_from(s@, i0) == s@.subrange(i0, e + 1)
                        + strip_comments_from(s@, e + 1));
                    assert(out@ + strip_comments_from(s@, i as int) =~= out0
                        + strip_comments_from(s@, i0));
                }
            } else {
                proof {
                    assert(e == n);
                    assert(strip_comments_from(s@, i0) == s@.subrange(i0, n as int));
                    assert(strip_comments_from(s@, i as int) == Seq::<char>::empty());
                    assert(out@ + strip_comments_from(s@, i as int) =~= out0
                        + strip_comments_from(s@, i0));
                }
            }
        } else if s[i] == '/' && n - i > 1 && s[i + 1] == '/' {
            proof {
                lemma_scan_ends(s@, i0 + 2);
            }
            while i < n && s[i] != '\n'
                invariant
                    s@ == text@,
                    n == s.len(),
                    0 <= i0,
                    i0 + 1 < n,
                    i0 <= i <= n,
                    s@[i0] == '/' && s@[i0 + 1] == '/',
                    i < i0 + 2 || line_end(s@, i as int) == line_end(s@, i0 + 2),
                decreases n - i,
            {
                i += 1;
            }
            proof {
                assert(i >= i0 + 2);
                assert(i == line_end(s@, i0 + 2));
            }
        } else if s[i] == '/' && n - i > 1 && s[i + 1] == '*' {
            i += 2;
            while n - i > 1 && !(s[i] == '*' && s[i + 1] == '/')
                invariant
                    s@ == text@,
                    n == s.len(),
                    0 <= i0,
                    i0 + 2 <= i <= n,
                    block_end(s@, i as int) == block_end(s@, i0 + 2),
                decreases n - i,
            {
                i += 1;
            }
            proof {
                lemma_scan_ends(s@, i0 + 2);
                assert(i == block_end(s@, i0 + 2));
            }
            if n - i >= 2 {
                i += 2;
            } else {
                i = n;
            }
        } else {
            out.push(s[i]);
            i += 1;
            assert(out@ + strip_comments_from(s@, i as int) =~= out0 + strip_comments_from(
                s@,
                i0,
            ));
        }
    }
    out
}

// ── Quoting object keys ──────────────────────────────────────────────────
/// Characters that may make up an unquoted key.
pub open spec fn is_key_char(c: char) -> bool {
    unicode_alphanumeric(c) || c == '_' || c == '$'
}

/// End of the run of key characters that starts at `i`.
pub open spec fn key_end(s: Seq<char>, i: int) -> int
    decreases s.len() - i,
{
    if i >= s.len() || !is_key_char(s[i]) {
        i
    } else {
        key_end(s, i + 1)
    }
}

/// End of the run of whitespace that starts at `i`.
pub open spec fn space_end(s: Seq<char>, i: int) -> int
    decreases s.len() - i,
{
    if i >= s.len() || !unicode_white_space(s[i]) {
        i
    } else {
        space_end(s, i + 1)
    }
}

pub proof fn lemma_run_ends(s: Seq<char>, i: int)
    requires
        0 <= i <= s.len(),
    ensures
        i <= key_end(s, i) <= s.len(),
        i < s.len() && is_key_char(s[i]) ==> i < key_end(s, i),
        forall|k: int| i <= k < key_end(s, i) ==> is_key_char(#[trigger] s[k]),
        key_end(s, i) < s.len() ==> !is_key_char(s[key_end(s, i)]),
        i <= space_end(s, i) <= s.len(),
    decreases s.len() - i,
{
    if i < s.len() {
        lemma_run_ends(s, i + 1);
    }
}

/// `s[i..]` with every run of key characters that is followed (after
/// optional whitespace) by `:` wrapped in double quotes; all other text is
/// kept as it is.
pub open spec fn quote_keys_from(s: Seq<char>, i: int) -> Seq<char>
    decreases s.len() - i,
{
    if i < 0 || i >= s.len() {
        Seq::empty()
    } else if is_key_char(s[i]) {
        let j = key_end(s, i);
        let k = space_end(s, j);
        proof {
            lemma_run_ends(s, i);
            lemma_run_ends(s, j);
        }
        let key = s.subrange(i, j);
        if k < s.len() && s[k] == ':' {
            seq!['"'] + key + seq!['"'] + quote_keys_from(s, j)
        } else {
            key + quote_keys_from(s, j)
        }
    } else {
        seq![s[i]] + quote_keys_from(s, i + 1)
    }
}

fn key_char(c: char) -> (r: bool)
    ensures
        r == is_key_char(c),
{
    char_is_alphanumeric(c) || c == '_' || c == '$'
}

/// Quote unquoted object keys in a JS object literal.
/// Turns `key: value` into `"key": value`.
pub fn quote_keys(text: &str) -> (out: String)
    ensures
        out@ == quote_keys_from(text@, 0),
{
    let s = chars_of(text);
    let n = s.len();
    let mut out = String::new();
    let mut i: usize = 0;
    while i < n
        invariant
            s@ == text@,
            n == s.len(),
            i <= n,
            out@ + quote_keys_from(s@, i as int) == quote_keys_from(s@, 0),
        decreases n - i,
    {
        let ghost i0 = i as int;
        let ghost out0 = out@;
        let c = s[i];
        if key_char(c) {
            let mut j = i + 1;
            proof {
                lemma_run_ends(s@, i0);
            }
            while j < n && key_char(s[j])
                invariant
                    s@ == text@,
                    n == s.len(),
                    i < j <= n,
                    key_end(s@, j as int) == key_end(s@, i0),
                decreases n - j,
            {
                j += 1;
            }
            let mut k = j;
            proof {
                lemma_run_ends(s@, j as int);
            }
            while k < n && char_is_whitespace(s[k])
                invariant
                    s@ == text@,
                    n == s.len(),
                    j <= k <= n,
                    space_end(s@, k as int) == space_end(s@, j as int),
                decreases n - k,
            {
                k += 1;
            }
            if k < n && s[k] == ':' {
                out.push('"');
                push_chars(&mut out, &s, i, j);
                out.push('"');
            } else {
                push_chars(&mut out, &s, i, j);
            }
            i = j;
        } else {
            out.push(c);
            i += 1;
        }
    }
    out
}

// ── Trailing commas ──────────────────────────────────────────────────────
/// Whether the characters from `j` on are a run of commas followed by `}`.
pub open spec fn brace_after_commas(s: Seq<char>, j: int) -> bool
    decreases s.len() - j,
{
    if j < 0 || j >= s.len() {
        false
    } else if s[j] == '}' {
        true
    } else if s[j] == ',' {
        brace_after_commas(s, j + 1)
    } else {
        false
    }
}

/// `s[i..]` without the commas that only commas separate from a `}`.
pub open spec fn drop_commas_before_brace(s: Seq<char>, i: int) -> Seq<char>
    decreases s.len() - i,
{
    if i < 0 || i >= s.len() {
        Seq::empty()
    } else if s[i] == ',' && brace_after_commas(s, i + 1) {
        drop_commas_before_brace(s, i + 1)
    } else {
        seq![s[i]] + drop_commas_before_brace(s, i + 1)
    }
}

/// `s` without trailing whitespace.
pub open spec fn trim_end_space(s: Seq<char>) -> Seq<char>
    decreases s.len(),
{
    if s.len() > 0 && unicode_white_space(s.last()) {
        trim_end_space(s.drop_last())
    } else {
        s
    }
}

/// `s` without trailing commas.
pub open spec fn trim_end_commas(s: Seq<char>) -> Seq<char>
    decreases s.len(),
{
    if s.len() > 0 && s.last() == ',' {
        trim_end_commas(s.drop_last())
    } else {
        s
    }
}

/// What `strip_trailing_commas` makes of `s`.
pub open spec fn strip_trailing_commas_spec(s: Seq<char>) -> Seq<char> {
    trim_end_commas(trim_end_space(drop_commas_before_brace(s, 0)))
}

fn is_brace_after_commas(s: &Vec<char>, j: usize) -> (r: bool)
    ensures
        r == brace_after_commas(s@, j as int),
    decreases s.len() - j,
{
    if j >= s.len() {
        false
    } else if s[j] == '}' {
        true
    } else if s[j] == ',' {
        is_brace_after_commas(s, j + 1)
    } else {
        false
    }
}

fn drop_commas(s: &Vec<char>) -> (kept: Vec<char>)
    ensures
        kept@ == drop_commas_before_brace(s@, 0),
{
    let n = s.len();
    let mut kept: Vec<char> = Vec::new();
    let mut i: usize = 0;
    while i < n
        invariant
            n == s.len(),
            i <= n,
            kept@ + drop_commas_before_brace(s@, i as int) == drop_commas_before_brace(s@, 0),
        decreases n - i,
    {
        let ghost k0 = kept@;
        if s[i] == ',' && is_brace_after_commas(s, i + 1) {
        } else {
            kept.push(s[i]);
        }
        i += 1;
        assert(kept@ + drop_commas_before_brace(s@, i as int) =~= k0 + drop_commas_before_brace(
            s@,
            i - 1,
        ));
    }
    assert(kept@ =~= kept@ + drop_commas_before_brace(s@, i as int));
    kept
}

fn trim_space_len(v: &Vec<char>) -> (end: usize)
    ensures
        end <= v.len(),
        v@.take(end as int) == trim_end_space(v@),
{
    let mut end = v.len();
    assert(v@.take(end as int) =~= v@);
    while end > 0 && char_is_whitespace(v[end - 1])
        invariant
            end <= v.len(),
            trim_end_space(v@.take(end as int)) == trim_end_space(v@),
        decreases end,
    {
        assert(v@.take(end as int).drop_last() =~= v@.take(end - 1));
        end -= 1;
    }
    end
}

fn trim_commas_len(v: &Vec<char>, end0: usize) -> (end: usize)
    requires
        end0 <= v.len(),
    ensures
        end <= end0,
        v@.take(end as int) == trim_end_commas(v@.take(end0 as int)),
{
    let mut end = end0;
    while end > 0 && v[end - 1] == ','
        invariant
            end <= end0 <= v.len(),
            trim_end_commas(v@.take(end as int)) == trim_end_commas(v@.take(end0 as int)),
        decreases end,
    {
        assert(v@.take(end as int).drop_last() =~= v@.take(end - 1));
        end -= 1;
    }
    end
}

/// Remove trailing commas before `}` or at end of string.
pub fn strip_trailing_commas(text: &str) -> (out: String)
    ensures
        out@ == strip_trailing_commas_spec(text@),
{
    let s = chars_of(text);
    let kept = drop_commas(&s);
    let e1 = trim_space_len(&kept);
    let e2 = trim_commas_len(&kept, e1);
    let mut out = String::new();
    push_chars(&mut out, &kept, 0, e2);
    assert(kept@.subrange(0, e2 as int) == kept@.take(e2 as int));
    out
}

// ── defineConfig({...}) ──────────────────────────────────────────────────
/// The marker that opens the configuration object in a TS/JS config file.
pub open spec fn define_marker() -> Seq<char> {
    seq!['d', 'e', 'f', 'i', 'n', 'e', 'C', 'o', 'n', 'f', 'i', 'g', '(', '{']
}

/// Whether `pat` occurs in `s` at index `i`.
pub open spec fn occurs_at(s: Seq<char>, pat: Seq<char>, i: int) -> bool {
    0 <= i && i + pat.len() <= s.len() && s.subrange(i, i + pat.len()) == pat
}

/// Index of the `}` that closes the brace opened before `i`, counting
/// nesting from `depth`, if any.
pub open spec fn closing_brace(s: Seq<char>, i: int, depth: int) -> Option<int>
    decreases s.len() - i,
{
    if i < 0 || i >= s.len() {
        None
    } else if s[i] == '{' {
        closing_brace(s, i + 1, depth + 1)
    } else if s[i] == '}' {
        if depth == 1 {
            Some(i)
        } else {
            closing_brace(s, i + 1, depth - 1)
        }
    } else {
        closing_brace(s, i + 1, depth)
    }
}

/// What `extract_define_config` makes of a config file: the body of the
/// object passed to the first `defineConfig({`, with keys quoted and
/// trailing commas dropped, wrapped in braces.
pub open spec fn extract_define_config_spec(s: Seq<char>) -> Option<Seq<char>> {
    let m = define_marker();
    if exists|i: int| occurs_at(s, m, i) {
        let i = choose|i: int|
            occurs_at(s, m, i) && forall|k: int| 0 <= k < i ==> !occurs_at(s, m, k);
        let start = i + m.len();
        match closing_brace(s, start, 1) {
            Some(e) => Some(
                seq!['{'] + strip_trailing_commas_spec(quote_keys_from(s.subrange(start, e), 0))
                    + seq!['}'],
            ),
            None => None,
        }
    } else {
        None
    }
}

fn marker_at(s: &Vec<char>, i: usize) -> (r: bool)
    ensures
        r == occurs_at(s@, define_marker(), i as int),
{
    let m = ['d', 'e', 'f', 'i', 'n', 'e', 'C', 'o', 'n', 'f', 'i', 'g', '(', '{'];
    assert(m@ == define_marker());
    if i > s.len() || s.len() - i < 14 {
        return false;
    }
    let mut k: usize = 0;
    while k < 14
        invariant
            m@ == define_marker(),
            i + 14 <= s.len(),
            k <= 14,
            forall|t: int| 0 <= t < k ==> s@[i + t] == m@[t],
        decreases 14 - k,
    {
        if s[i + k] != m[k] {
            assert(s@.subrange(i as int, i + 14)[k as int] != define_marker()[k as int]);
            return false;
        }
        k += 1;
    }
    assert(s@.subrange(i as int, i + 14) =~= define_marker());
    true
}

fn find_marker(s: &Vec<char>) -> (r: Option<usize>)
    ensures
        r matches Some(i) ==> occurs_at(s@, define_marker(), i as int) && forall|k: int|
            0 <= k < i ==> !occurs_at(s@, define_marker(), k),
        r is None ==> forall|k: int| !occurs_at(s@, define_marker(), k),
{
    let n = s.len();
    let mut i: usize = 0;
    while i < n
        invariant
            n == s.len(),
            i <= n,
            forall|k: int| 0 <= k < i ==> !occurs_at(s@, define_marker(), k),
        decreases n - i,
    {
        if marker_at(s, i) {
            return Some(i);
        }
        i += 1;
    }
    assert forall|k: int| !occurs_at(s@, define_marker(), k) by {
        if k >= n {
            assert(k + define_marker().len() > s@.len());
        }
    }
    None
}

fn find_closing(s: &Vec<char>, start: usize) -> (r: Option<usize>)
    requires
        1 <= start <= s.len(),
    ensures
        r matches Some(e) ==> closing_brace(s@, start as int, 1) == Some(e as int) && start <= e
            < s.len(),
        r is None ==> closing_brace(s@, start as int, 1) is None,
{
    let n = s.len();
    let mut depth: usize = 1;
    let mut j = start;
    while j < n
        invariant
            n == s.len(),
            1 <= start <= j <= n,
            1 <= depth <= j - start + 1,
            closing_brace(s@, j as int, depth as int) == closing_brace(s@, start as int, 1),
        decreases n - j,
    {
        if s[j] == '{' {
            depth += 1;
        } else if s[j] == '}' {
            if depth == 1 {
                return Some(j);
            }
            depth -= 1;
        }
        j += 1;
    }
    None
}

/// Extract the JSON object from `defineConfig({...})` in a TS/JS config file.
/// Strips imports, export default, and the defineConfig wrapper.
pub fn extract_define_config(content: &str) -> (r: Option<String>)
    ensures
        r matches Some(s) ==> extract_define_config_spec(content@) == Some(s@),
        r is None ==> extract_define_config_spec(content@) is None,
{
    let s = chars_of(content);
    let i = match find_marker(&s) {
        Some(i) => i,
        None => {
            return None;
        },
    };
    let ghost m = define_marker();
    proof {
        assert(occurs_at(s@, m, i as int));
        let c = choose|c: int|
            occurs_at(s@, m, c) && forall|k: int| 0 <= k < c ==> !occurs_at(s@, m, k);
        if c < i {
            assert(!occurs_at(s@, m, c));
        } else if c > i {
            assert(!occurs_at(s@, m, i as int));
        }
        assert(c == i);
    }
    let start = i + 14;
    match find_closing(&s, start) {
        Some(e) => {
            let mut body = String::new();
            push_chars(&mut body, &s, start, e);
            let quoted = quote_keys(body.as_str());
            let cleaned = strip_trailing_commas(quoted.as_str());
            let mut out = String::new();
            out.push('{');
            out.push_str(cleaned.as_str());
            out.push('}');
            assert(out@ =~= seq!['{'] + cleaned@ + seq!['}']);
            Some(out)
        },
        None => None,
    }
}

// ── Path aliases ─────────────────────────────────────────────────────────
/// `t` with every `*` replaced by `sub`.
pub open spec fn replace_star(t: Seq<char>, sub: Seq<char>) -> Seq<char>
    decreases t.len(),
{
    if t.len() == 0 {
        Seq::empty()
    } else if t.last() == '*' {
        replace_star(t.drop_last(), sub) + sub
    } else {
        replace_star(t.drop_last(), sub).push(t.last())
    }
}

/// Joining `rel` onto the directory `base`: an absolute `rel` replaces
/// `base`; otherwise a `/` is put between them unless `base` is empty or
/// already ends with one.
pub open spec fn path_join(base: Seq<char>, rel: Seq<char>) -> Seq<char> {
    if rel.len() > 0 && rel[0] == '/' {
        rel
    } else if base.len() == 0 || base.last() == '/' {
        base + rel
    } else {
        base + seq!['/'] + rel
    }
}

/// `pattern` ends in `/*` and `alias` begins with its prefix (the pattern
/// without `*`, so up to and including the `/`).
pub open spec fn wildcard_matches(pattern: Seq<char>, alias: Seq<char>) -> bool {
    &&& pattern.len() >= 2
    &&& pattern[pattern.len() - 2] == '/'
    &&& pattern[pattern.len() - 1] == '*'
    &&& alias.len() >= pattern.len() - 1
    &&& alias.subrange(0, pattern.len() - 1) == pattern.subrange(0, pattern.len() - 1)
}

/// The part of `alias` that the `*` of `pattern` stands for: what follows
/// the prefix.
pub open spec fn wildcard_suffix(pattern: Seq<char>, alias: Seq<char>) -> Seq<char> {
    alias.subrange(pattern.len() - 1, alias.len() as int)
}

/// The view of a list of (pattern, targets) pairs.
pub open spec fn paths_view(paths: Seq<(String, Vec<String>)>) -> Seq<(Seq<char>, Seq<Seq<char>>)> {
    paths.map_values(
        |p: (String, Vec<String>)| (p.0@, p.1@.map_values(|t: String| t@)),
    )
}

/// Among the first `n` patterns, the wildcard pattern with a target that
/// matches `alias` with the longest prefix (the earliest of equally long
/// ones).
pub open spec fn best_wildcard(paths: Seq<(Seq<char>, Seq<Seq<char>>)>, alias: Seq<char>, n: int) -> Option<int>
    decreases n,
{
    if n <= 0 || n > paths.len() {
        None
    } else {
        let prev = best_wildcard(paths, alias, n - 1);
        let i = n - 1;
        if wildcard_matches(paths[i].0, alias) && paths[i].1.len() > 0 {
            match prev {
                None => Some(i),
                Some(j) => if paths[i].0.len() > paths[j].0.len() {
                    Some(i)
                } else {
                    Some(j)
                },
            }
        } else {
            prev
        }
    }
}

proof fn lemma_best_wildcard(paths: Seq<(Seq<char>, Seq<Seq<char>>)>, alias: Seq<char>, n: int)
    ensures
        best_wildcard(paths, alias, n) matches Some(k) ==> 0 <= k < n && k < paths.len()
            && wildcard_matches(paths[k].0, alias) && paths[k].1.len() > 0,
    decreases n,
{
    if n > 0 && n <= paths.len() {
        lemma_best_wildcard(paths, alias, n - 1);
    }
}

/// The alias resolved through the first target of the best wildcard
/// pattern, if one matches.
pub open spec fn wildcard_resolution(
    paths: Seq<(Seq<char>, Seq<Seq<char>>)>,
    alias: Seq<char>,
    base: Seq<char>,
) -> Option<Seq<char>> {
    match best_wildcard(paths, alias, paths.len() as int) {
        Some(k) => Some(
            path_join(base, replace_star(paths[k].1[0], wildcard_suffix(paths[k].0, alias))),
        ),
        None => None,
    }
}

/// First pattern from index `i` on equal to `alias` that has a target.
pub open spec fn exact_resolution(
    paths: Seq<(Seq<char>, Seq<Seq<char>>)>,
    alias: Seq<char>,
    base: Seq<char>,
    i: int,
) -> Option<Seq<char>>
    decreases paths.len() - i,
{
    if i < 0 || i >= paths.len() {
        None
    } else if paths[i].0 == alias && paths[i].1.len() > 0 {
        Some(path_join(base, paths[i].1[0]))
    } else {
        exact_resolution(paths, alias, base, i + 1)
    }
}

/// The character after the stem of every wildcard pattern that is tried
/// (up to the first that resolves) is a single byte in UTF-8, so that the
/// suffix starts on a character boundary.
pub open spec fn suffix_on_boundary(
    paths: Seq<(Seq<char>, Seq<Seq<char>>)>,
    alias: Seq<char>,
    i: int,
) -> bool
    decreases paths.len() - i,
{
    if i < 0 || i >= paths.len() {
        true
    } else if wildcard_matches(paths[i].0, alias) {
        (alias[paths[i].0.len() - 2] as u32) < 0x80 && (paths[i].1.len() > 0
            || suffix_on_boundary(paths, alias, i + 1))
    } else {
        suffix_on_boundary(paths, alias, i + 1)
    }
}

/// What `resolve_path_alias` returns.
pub open spec fn resolve_path_alias_spec(alias: Seq<char>, options: CompilerOptions) -> Option<
    Seq<char>,
> {
    let base = match options.base_url {
        Some(b) => b@,
        None => seq!['.'],
    };
    match options.paths {
        None => None,
        Some(paths) => {
            let ps = paths_view(paths@);
            match wildcard_resolution(ps, alias, base) {
                Some(r) => Some(r),
                None => exact_resolution(ps, alias, base, 0),
            }
        },
    }
}

fn replace_star_exec(t: &String, sub: &Vec<char>) -> (r: Vec<char>)
    ensures
        r@ == replace_star(t@, sub@),
{
    let tv = chars_of(t.as_str());
    let mut r: Vec<char> = Vec::new();
    let mut i: usize = 0;
    while i < tv.len()
        invariant
            tv@ == t@,
            i <= tv.len(),
            r@ == replace_star(tv@.take(i as int), sub@),
        decreases tv.len() - i,
    {
        assert(tv@.take(i + 1).drop_last() == tv@.take(i as int));
        if tv[i] == '*' {
            let mut k: usize = 0;
            let ghost r0 = r@;
            while k < sub.len()
                invariant
                    k <= sub.len(),
                    r@ == r0 + sub@.take(k as int),
                decreases sub.len() - k,
            {
                r.push(sub[k]);
                k += 1;
                assert(sub@.take(k as int) == sub@.take(k - 1).push(sub@[k - 1]));
            }
            assert(sub@.take(sub.len() as int) == sub@);
        } else {
            r.push(tv[i]);
        }
        i += 1;
    }
    assert(tv@.take(tv.len() as int) == tv@);
    r
}

pub fn join_exec(base: &Vec<char>, rel: &Vec<char>) -> (r: String)
    ensures
        r@ == path_join(base@, rel@),
{
    let mut r = String::new();
    if rel.len() > 0 && rel[0] == '/' {
        push_chars(&mut r, rel, 0, rel.len());
    } else if base.len() == 0 || base[base.len() - 1] == '/' {
        push_chars(&mut r, base, 0, base.len());
        push_chars(&mut r, rel, 0, rel.len());
    } else {
        push_chars(&mut r, base, 0, base.len());
        r.push('/');
        push_chars(&mut r, rel, 0, rel.len());
    }
    assert(rel@.subrange(0, rel.len() as int) == rel@);
    assert(base@.subrange(0, base.len() as int) == base@);
    r
}

fn wildcard_match_exec(pattern: &Vec<char>, alias: &Vec<char>) -> (r: bool)
    ensures
        r == wildcard_matches(pattern@, alias@),
{
    let pl = pattern.len();
    if pl < 2 || pattern[pl - 2] != '/' || pattern[pl - 1] != '*' {
        return false;
    }
    let prefix_len = pl - 1;
    if alias.len() < prefix_len {
        return false;
    }
    let mut k: usize = 0;
    while k < prefix_len
        invariant
            prefix_len == pattern.len() - 1,
            prefix_len <= alias.len(),
            k <= prefix_len,
            forall|t: int| 0 <= t < k ==> alias@[t] == pattern@[t],
        decreases prefix_len - k,
    {
        if alias[k] != pattern[k] {
            assert(alias@.subrange(0, prefix_len as int)[k as int] != pattern@.subrange(
                0,
                prefix_len as int,
            )[k as int]);
            return false;
        }
        k += 1;
    }
    assert(alias@.subrange(0, prefix_len as int) =~= pattern@.subrange(0, prefix_len as int));
    true
}

/// Whether `resolve_path_alias` can be asked about `alias`: there are no
/// paths, or every wildcard pattern that is tried leaves the suffix on a
/// character boundary.
pub fn alias_resolvable(alias: &str, options: &CompilerOptions) -> (r: bool)
    ensures
        r == (options.paths matches Some(paths) ==> suffix_on_boundary(
            paths_view(paths@),
            alias@,
            0,
        )),
{
    let paths = match &options.paths {
        Some(p) => p,
        None => {
            return true;
        },
    };
    let ghost ps = paths_view(paths@);
    let av = chars_of(alias);
    let mut i: usize = paths.len();
    let mut ok = true;
    // Walk from the back: ok == suffix_on_boundary(ps, alias, i).
    while i > 0
        invariant
            ps == paths_view(paths@),
            av@ == alias@,
            i <= paths.len(),
            ok == suffix_on_boundary(ps, alias@, i as int),
        decreases i,
    {
        i -= 1;
        let pattern = chars_of(paths[i].0.as_str());
        assert(ps[i as int].0 == pattern@);
        assert(ps[i as int].1.len() == paths@[i as int].1@.len());
        if wildcard_match_exec(&pattern, &av) {
            let c = av[pattern.len() - 2];
            ok = (c as u32) < 0x80 && (paths[i].1.len() > 0 || ok);
        }
    }
    ok
}

/// Resolve path aliases from tsconfig.json paths. Patterns are tried in the
/// order of `options.paths`: first those ending in `/*`, then exact ones.
pub fn resolve_path_alias(alias: &str, _import_path: &str, options: &CompilerOptions) -> (r:
    Option<String>)
    ensures
        r matches Some(s) ==> resolve_path_alias_spec(alias@, *options) == Some(s@),
        r is None ==> resolve_path_alias_spec(alias@, *options) is None,
{
    let base: Vec<char> = match &options.base_url {
        Some(b) => chars_of(b.as_str()),
        None => {
            let mut v = Vec::new();
            v.push('.');
            assert(v@ =~= seq!['.']);
            v
        },
    };
    let paths = match &options.paths {
        Some(p) => p,
        None => {
            return None;
        },
    };
    let ghost ps = paths_view(paths@);
    let av = chars_of(alias);
    let mut best: Option<usize> = None;
    let mut best_len: usize = 0;
    let mut i: usize = 0;
    while i < paths.len()
        invariant
            ps == paths_view(paths@),
            av@ == alias@,
            i <= paths.len(),
            match best {
                Some(k) => best_wildcard(ps, alias@, i as int) == Some(k as int) && k < i
                    && best_len == ps[k as int].0.len(),
                None => best_wildcard(ps, alias@, i as int) is None,
            },
        decreases paths.len() - i,
    {
        let pattern = chars_of(paths[i].0.as_str());
        assert(ps[i as int].0 == pattern@);
        assert(ps[i as int].1.len() == paths[i as int].1@.len());
        if wildcard_match_exec(&pattern, &av) && paths[i].1.len() > 0 {
            match best {
                None => {
                    best = Some(i);
                    best_len = pattern.len();
                },
                Some(j) => {
                    if pattern.len() > best_len {
                        best = Some(i);
                        best_len = pattern.len();
                    }
                },
            }
        }
        i += 1;
    }
    proof {
        lemma_best_wildcard(ps, alias@, paths@.len() as int);
    }
    match best {
        Some(k) => {
            let pattern = chars_of(paths[k].0.as_str());
            let targets = &paths[k].1;
            assert(ps[k as int].0 == pattern@);
            assert(ps[k as int].1 == targets@.map_values(|t: String| t@));
            assert(ps[k as int].1[0] == targets@[0]@);
            let from = pattern.len() - 1;
            let mut suffix: Vec<char> = Vec::new();
            let mut j = from;
            while j < av.len()
                invariant
                    from <= j <= av.len(),
                    suffix@ == av@.subrange(from as int, j as int),
                decreases av.len() - j,
            {
                suffix.push(av[j]);
                j += 1;
                assert(suffix@ == av@.subrange(from as int, j as int));
            }
            assert(suffix@ == wildcard_suffix(pattern@, alias@));
            let resolved = replace_star_exec(&targets[0], &suffix);
            let r = join_exec(&base, &resolved);
            return Some(r);
        },
        None => {},
    }
    let mut i: usize = 0;
    while i < paths.len()
        invariant
            ps == paths_view(paths@),
            av@ == alias@,
            i <= paths.len(),
            wildcard_resolution(ps, alias@, base@) is None,
            resolve_path_alias_spec(alias@, *options) == exact_resolution(ps, alias@, base@, 0),
            exact_resolution(ps, alias@, base@, i as int) == exact_resolution(
                ps,
                alias@,
                base@,
                0,
            ),
        decreases paths.len() - i,
    {
        let pattern = chars_of(paths[i].0.as_str());
        let targets = &paths[i].1;
        assert(ps[i as int].0 == pattern@);
        assert(ps[i as int].1.len() == targets@.len());
        if crate::text::vec_eq(&pattern, &av) && targets.len() > 0 {
            assert(ps[i as int].1[0] == targets@[0]@);
            let t = chars_of(targets[0].as_str());
            let r = join_exec(&base, &t);
            assert(exact_resolution(ps, alias@, base@, i as int) == Some(r@));
            return Some(r);
        }
        i += 1;
    }
    None
}

proof fn lemma_no_wildcard_none(ps: Seq<(Seq<char>, Seq<Seq<char>>)>, alias: Seq<char>, n: int)
    requires
        0 <= n <= ps.len(),
        forall|j: int| 0 <= j < ps.len() ==> !(wildcard_matches(#[trigger] ps[j].0, alias) && ps[j].1.len() > 0),
    ensures
        best_wildcard(ps, alias, n) is None,
    decreases n,
{
    if n > 0 {
        lemma_no_wildcard_none(ps, alias, n - 1);
    }
}

proof fn lemma_first_exact(
    ps: Seq<(Seq<char>, Seq<Seq<char>>)>,
    alias: Seq<char>,
    base: Seq<char>,
    i: int,
    k: int,
)
    requires
        0 <= k <= i < ps.len(),
        ps[i].0 == alias && ps[i].1.len() > 0,
        forall|j: int| 0 <= j < i ==> !(#[trigger] ps[j].0 == alias && ps[j].1.len() > 0),
    ensures
        exact_resolution(ps, alias, base, k) == Some(path_join(base, ps[i].1[0])),
    decreases i - k,
{
    if k < i {
        lemma_first_exact(ps, alias, base, i, k + 1);
    }
}

/// A pattern without a wildcard stands for the alias it equals: when no
/// wildcard pattern with a target matches `alias`, and the `i`-th pattern is
/// the first that equals `alias` and has a target, the alias resolves to its
/// first target under the base URL (`.` when there is none).
pub proof fn law_exact_pattern_resolves(alias: Seq<char>, options: CompilerOptions, i: int)
    requires
        options.paths is Some,
        ({
            let paths = options.paths.unwrap()@;
            &&& 0 <= i < paths.len()
            &&& paths[i].0@ == alias
            &&& paths[i].1@.len() > 0
            &&& forall|j: int|
                0 <= j < i ==> !(#[trigger] paths[j].0@ == alias && paths[j].1@.len() > 0)
            &&& forall|j: int|
                0 <= j < paths.len() ==> !(wildcard_matches(#[trigger] paths[j].0@, alias)
                    && paths[j].1@.len() > 0)
        }),
    ensures
        resolve_path_alias_spec(alias, options) == Some(
            path_join(
                match options.base_url {
                    Some(b) => b@,
                    None => seq!['.'],
                },
                options.paths.unwrap()@[i].1@[0]@,
            ),
        ),
{
    let paths = options.paths.unwrap()@;
    let ps = paths_view(paths);
    let base = match options.base_url {
        Some(b) => b@,
        None => seq!['.'],
    };
    assert forall|j: int| 0 <= j < ps.len() implies !(wildcard_matches(#[trigger] ps[j].0, alias)
        && ps[j].1.len() > 0) by {
        assert(ps[j].0 == paths[j].0@);
        assert(ps[j].1.len() == paths[j].1@.len());
    }
    assert forall|j: int| 0 <= j < i implies !(#[trigger] ps[j].0 == alias && ps[j].1.len() > 0) by {
        assert(ps[j].0 == paths[j].0@);
        assert(ps[j].1.len() == paths[j].1@.len());
    }
    assert(ps[i].1[0] == paths[i].1@[0]@);
    lemma_no_wildcard_none(ps, alias, ps.len() as int);
    lemma_first_exact(ps, alias, base, i, 0);
}

/// A text with no `*`.
pub open spec fn no_star(t: Seq<char>) -> bool {
    forall|k: int| 0 <= k < t.len() ==> t[k] != '*'
}

proof fn lemma_replace_no_star(t: Seq<char>, sub: Seq<char>)
    requires
        no_star(t),
    ensures
        replace_star(t, sub) == t,
    decreases t.len(),
{
    if t.len() > 0 {
        lemma_replace_no_star(t.drop_last(), sub);
        assert(t.drop_last().push(t.last()) =~= t);
    }
}

proof fn lemma_replace_one_star(a: Seq<char>, b: Seq<char>, sub: Seq<char>)
    requires
        no_star(a),
        no_star(b),
    ensures
        replace_star(a.push('*') + b, sub) == a + sub + b,
    decreases b.len(),
{
    if b.len() == 0 {
        assert(a.push('*') + b =~= a.push('*'));
        assert(a.push('*').drop_last() =~= a);
        lemma_replace_no_star(a, sub);
        assert(a + sub + b =~= a + sub);
    } else {
        let b1 = b.drop_last();
        lemma_replace_one_star(a, b1, sub);
        assert((a.push('*') + b).drop_last() =~= a.push('*') + b1);
        assert((a.push('*') + b).last() == b.last());
        assert((a + sub + b1).push(b.last()) =~= a + sub + b);
    }
}

proof fn lemma_best_wildcard_is_match(ps: Seq<(Seq<char>, Seq<Seq<char>>)>, alias: Seq<char>, n: int)
    requires
        0 <= n <= ps.len(),
    ensures
        best_wildcard(ps, alias, n) matches Some(j) ==> 0 <= j < n && wildcard_matches(ps[j].0, alias)
            && ps[j].1.len() > 0,
    decreases n,
{
    if n > 0 {
        lemma_best_wildcard_is_match(ps, alias, n - 1);
    }
}

proof fn lemma_best_wildcard_picks(ps: Seq<(Seq<char>, Seq<Seq<char>>)>, alias: Seq<char>, i: int, n: int)
    requires
        i < n <= ps.len(),
        0 <= i,
        wildcard_matches(ps[i].0, alias) && ps[i].1.len() > 0,
        forall|j: int|
            0 <= j < ps.len() && j != i && wildcard_matches(#[trigger] ps[j].0, alias) && ps[j].1.len()
                > 0 ==> ps[j].0.len() < ps[i].0.len() || (ps[j].0.len() == ps[i].0.len() && j > i),
    ensures
        best_wildcard(ps, alias, n) == Some(i),
    decreases n,
{
    if n > i + 1 {
        lemma_best_wildcard_picks(ps, alias, i, n - 1);
    } else {
        lemma_best_wildcard_is_match(ps, alias, i);
    }
}

/// A wildcard pattern `prefix/*` stands for every alias that begins with
/// `prefix/`: when the `i`-th pattern is the one with a target whose prefix
/// is the longest among those matching `alias` (the earliest of equally
/// long ones), and its first target is `a*b`, the alias resolves to `a`,
/// then what follows the prefix in `alias`, then `b`, under the base URL.
pub proof fn law_wildcard_pattern_resolves(
    alias: Seq<char>,
    options: CompilerOptions,
    i: int,
    prefix: Seq<char>,
    a: Seq<char>,
    b: Seq<char>,
)
    requires
        options.paths is Some,
        ({
            let paths = options.paths.unwrap()@;
            &&& 0 <= i < paths.len()
            &&& paths[i].0@ == prefix.push('*')
            &&& prefix.len() >= 1 && prefix.last() == '/'
            &&& alias.len() >= prefix.len() && alias.subrange(0, prefix.len() as int) == prefix
            &&& paths[i].1@.len() > 0
            &&& paths[i].1@[0]@ == a.push('*') + b
            &&& no_star(a) && no_star(b)
            &&& forall|j: int|
                0 <= j < paths.len() && j != i && wildcard_matches(#[trigger] paths[j].0@, alias)
                    && paths[j].1@.len() > 0 ==> paths[j].0@.len() < paths[i].0@.len() || (
                    paths[j].0@.len() == paths[i].0@.len() && j > i)
        }),
    ensures
        resolve_path_alias_spec(alias, options) == Some(
            path_join(
                match options.base_url {
                    Some(bu) => bu@,
                    None => seq!['.'],
                },
                a + alias.subrange(prefix.len() as int, alias.len() as int) + b,
            ),
        ),
{
    let paths = options.paths.unwrap()@;
    let ps = paths_view(paths);
    let pat = prefix.push('*');
    assert(ps[i].0 == pat);
    assert(ps[i].1.len() == paths[i].1@.len());
    assert(ps[i].1[0] == paths[i].1@[0]@);
    assert(pat.subrange(0, pat.len() - 1) =~= prefix);
    assert(wildcard_matches(ps[i].0, alias));
    assert forall|j: int|
        0 <= j < ps.len() && j != i && wildcard_matches(#[trigger] ps[j].0, alias) && ps[j].1.len() > 0
            implies ps[j].0.len() < ps[i].0.len() || (ps[j].0.len() == ps[i].0.len() && j > i) by {
        assert(ps[j].0 == paths[j].0@);
        assert(ps[j].1.len() == paths[j].1@.len());
    }
    lemma_best_wildcard_picks(ps, alias, i, ps.len() as int);
    let rest = alias.subrange(prefix.len() as int, alias.len() as int);
    assert(wildcard_suffix(ps[i].0, alias) == rest);
    lemma_replace_one_star(a, b, rest);
}

} // verus!
