//! The lexer: turns TypeScript source text into tokens with byte spans.
use vstd::prelude::*;

use crate::diagnostic::{Diagnostic, Severity};
use crate::text::{
    ascii_white_space, byte_len, char_is_whitespace, char_width, chars_of, is_ascii_alnum,
    is_ascii_alpha, is_ascii_digit, lemma_byte_len_mono, lemma_byte_len_push, push_chars,
    string_from_chars, string_of_str, unicode_white_space,
};
use crate::scan::{
    digits_end, ident_char, kinds, lemma_lexed_before_start, lemma_lexed_end, lemma_lexed_step,
    lexed_before, lexes, number_end,
    one_char_operator, operator_at, plain_at, plain_text, reads_token, token_end, word_end,
    word_token,
};
use crate::token::{Span, Token, TokenKind};

verus! {

// ── Numerals ─────────────────────────────────────────────────────────────
/// Index of the first `.` at or after `i`, or `s.len()`.
pub open spec fn dot_from(s: Seq<char>, i: int) -> int
    decreases s.len() - i,
{
    if i < 0 || i >= s.len() {
        s.len() as int
    } else if s[i] == '.' {
        i
    } else {
        dot_from(s, i + 1)
    }
}

/// Index of the first `.` in `s`, or `s.len()`.
pub open spec fn dot_index(s: Seq<char>) -> int {
    dot_from(s, 0)
}

/// `s` without leading zeros, keeping at least one character.
pub open spec fn strip_leading_zeros(s: Seq<char>) -> Seq<char>
    decreases s.len(),
{
    if s.len() > 1 && s[0] == '0' {
        strip_leading_zeros(s.drop_first())
    } else {
        s
    }
}

/// `s` without trailing zeros.
pub open spec fn strip_trailing_zeros(s: Seq<char>) -> Seq<char>
    decreases s.len(),
{
    if s.len() > 0 && s.last() == '0' {
        strip_trailing_zeros(s.drop_last())
    } else {
        s
    }
}

/// The canonical decimal form of a numeral `digits ('.' digits)?`: no
/// leading zeros in the integer part, no trailing zeros in the fraction,
/// and no `.` when the fraction is zero. This is how the value of the
/// numeral is printed (for numerals with at most 15 significant digits,
/// which a 64-bit float holds exactly).
pub open spec fn canonical_numeral(s: Seq<char>) -> Seq<char> {
    let d = dot_index(s);
    let int_part = strip_leading_zeros(s.subrange(0, d));
    let frac = if d < s.len() {
        strip_trailing_zeros(s.subrange(d + 1, s.len() as int))
    } else {
        Seq::empty()
    };
    if frac.len() == 0 {
        int_part
    } else {
        int_part + seq!['.'] + frac
    }
}

pub proof fn lemma_dot_from(s: Seq<char>, i: int)
    requires
        0 <= i <= s.len(),
    ensures
        i <= dot_from(s, i) <= s.len(),
        dot_from(s, i) < s.len() ==> s[dot_from(s, i)] == '.',
        forall|k: int| i <= k < dot_from(s, i) ==> s[k] != '.',
    decreases s.len() - i,
{
    if i < s.len() {
        lemma_dot_from(s, i + 1);
    }
}

pub proof fn lemma_dot_index(s: Seq<char>)
    ensures
        0 <= dot_index(s) <= s.len(),
        dot_index(s) < s.len() ==> s[dot_index(s)] == '.',
        forall|k: int| 0 <= k < dot_index(s) ==> s[k] != '.',
{
    lemma_dot_from(s, 0);
}

/// The canonical form of the numeral `v[from..to]`.
pub fn canonical_numeral_exec(v: &Vec<char>, from: usize, to: usize) -> (s: String)
    requires
        from <= to <= v.len(),
    ensures
        s@ == canonical_numeral(v@.subrange(from as int, to as int)),
{
    let ghost w = v@.subrange(from as int, to as int);
    proof {
        lemma_dot_index(w);
    }
    // Find the first '.'.
    let mut d = from;
    while d < to && v[d] != '.'
        invariant
            from <= d <= to <= v.len(),
            w == v@.subrange(from as int, to as int),
            forall|k: int| from <= k < d ==> v@[k] != '.',
        decreases to - d,
    {
        d += 1;
    }
    proof {
        let di = dot_index(w);
        if di < d - from {
            assert(w[di] == v@[from + di]);
        }
        if d < to {
            assert(w[d - from] == '.');
        }
        assert(di == d - from);
    }
    // Integer part without leading zeros.
    let mut a = from;
    while d - a > 1 && v[a] == '0'
        invariant
            from <= a <= d <= to <= v.len(),
            strip_leading_zeros(v@.subrange(a as int, d as int)) == strip_leading_zeros(
                v@.subrange(from as int, d as int),
            ),
        decreases d - a,
    {
        assert(v@.subrange(a as int, d as int).drop_first() =~= v@.subrange(a + 1, d as int));
        a += 1;
    }
    // Fraction without trailing zeros.
    let mut e = to;
    if d < to {
        while e > d + 1 && v[e - 1] == '0'
            invariant
                from <= d < to <= v.len(),
                d + 1 <= e <= to,
                strip_trailing_zeros(v@.subrange(d + 1, e as int)) == strip_trailing_zeros(
                    v@.subrange(d + 1, to as int),
                ),
            decreases e,
        {
            assert(v@.subrange(d + 1, e as int).drop_last() =~= v@.subrange(d + 1, e - 1));
            e -= 1;
        }
    }
    let mut s = String::new();
    push_chars(&mut s, v, a, d);
    proof {
        assert(w.subrange(0, d - from) =~= v@.subrange(from as int, d as int));
        if d < to {
            assert(w.subrange(d - from + 1, w.len() as int) =~= v@.subrange(d + 1, to as int));
        }
        if d - a > 1 || v@.subrange(a as int, d as int).len() == 0 {
        }
        assert(strip_leading_zeros(v@.subrange(a as int, d as int)) == v@.subrange(
            a as int,
            d as int,
        ));
    }
    if d < to && e > d + 1 {
        s.push('.');
        push_chars(&mut s, v, d + 1, e);
        proof {
            assert(strip_trailing_zeros(v@.subrange(d + 1, e as int)) == v@.subrange(
                d + 1,
                e as int,
            ));
        }
    } else {
        proof {
            if d < to {
                assert(v@.subrange(d + 1, e as int).len() == 0);
                assert(strip_trailing_zeros(v@.subrange(d + 1, e as int)) == Seq::<char>::empty());
            }
        }
    }
    s
}

/// The part of a numeral before its `.`.
pub open spec fn integer_part(s: Seq<char>) -> Seq<char> {
    s.subrange(0, dot_index(s))
}

/// The value of an ASCII digit; any other character counts as zero.
pub open spec fn digit_value(c: char) -> nat {
    if is_ascii_digit(c) {
        (c as int - '0' as int) as nat
    } else {
        0
    }
}

/// The number that a string of decimal digits denotes.
pub open spec fn digits_value(s: Seq<char>) -> nat
    decreases s.len(),
{
    if s.len() == 0 {
        0
    } else {
        digits_value(s.drop_last()) * 10 + digit_value(s.last())
    }
}

/// The decimal text of the integer part of a numeral, as a 64-bit signed
/// integer prints it: values beyond `i64::MAX` saturate.
pub open spec fn numeral_integer_text(s: Seq<char>) -> Seq<char> {
    if digits_value(integer_part(s)) > i64::MAX {
        "9223372036854775807"@
    } else {
        integer_part(s)
    }
}

/// The integer part of the numeral `n`, saturated at `i64::MAX`.
pub fn numeral_integer_part(n: &String) -> (s: String)
    ensures
        s@ == numeral_integer_text(n@),
{
    let v = chars_of(n.as_str());
    proof {
        lemma_dot_index(v@);
    }
    let mut d: usize = 0;
    while d < v.len() && v[d] != '.'
        invariant
            d <= v.len(),
            forall|k: int| 0 <= k < d ==> v@[k] != '.',
        decreases v.len() - d,
    {
        d += 1;
    }
    proof {
        let di = dot_index(v@);
        if di < d {
            assert(v@[di] == '.');
        }
        assert(di == d);
    }
    let mut acc: u128 = 0;
    let mut over = false;
    let mut i: usize = 0;
    while i < d
        invariant
            i <= d <= v.len(),
            over == (digits_value(v@.subrange(0, i as int)) > i64::MAX),
            !over ==> acc == digits_value(v@.subrange(0, i as int)),
        decreases d - i,
    {
        let c = v[i];
        let dv: u128 = if '0' <= c && c <= '9' {
            (c as u32 - '0' as u32) as u128
        } else {
            0
        };
        assert(v@.subrange(0, i + 1).drop_last() =~= v@.subrange(0, i as int));
        assert(v@.subrange(0, i + 1).last() == c);
        if !over {
            let next = acc * 10 + dv;
            if next > 9223372036854775807u128 {
                over = true;
            } else {
                acc = next;
            }
        }
        i += 1;
    }
    if over {
        string_of_str("9223372036854775807")
    } else {
        string_from_chars(&v, 0, d)
    }
}

// ── Keywords ─────────────────────────────────────────────────────────────
/// The keyword token that a word stands for, if it is one.
pub open spec fn keyword_kind(w: Seq<char>) -> Option<TokenKind> {
    if w == "true"@ {
        Some(TokenKind::True)
    } else if w == "false"@ {
        Some(TokenKind::False)
    } else if w == "null"@ {
        Some(TokenKind::Null)
    } else if w == "undefined"@ {
        Some(TokenKind::Undefined)
    } else if w == "let"@ {
        Some(TokenKind::Let)
    } else if w == "const"@ {
        Some(TokenKind::Const)
    } else if w == "var"@ {
        Some(TokenKind::Var)
    } else if w == "function"@ {
        Some(TokenKind::Function)
    } else if w == "return"@ {
        Some(TokenKind::Return)
    } else if w == "if"@ {
        Some(TokenKind::If)
    } else if w == "else"@ {
        Some(TokenKind::Else)
    } else if w == "for"@ {
        Some(TokenKind::For)
    } else if w == "while"@ {
        Some(TokenKind::While)
    } else if w == "typeof"@ {
        Some(TokenKind::TypeOf)
    } else if w == "keyof"@ {
        Some(TokenKind::KeyOf)
    } else if w == "void"@ {
        Some(TokenKind::Void)
    } else if w == "delete"@ {
        Some(TokenKind::Delete)
    } else if w == "class"@ {
        Some(TokenKind::Class)
    } else if w == "import"@ {
        Some(TokenKind::Import)
    } else if w == "from"@ {
        Some(TokenKind::From)
    } else if w == "export"@ {
        Some(TokenKind::Export)
    } else if w == "as"@ {
        Some(TokenKind::As)
    } else if w == "default"@ {
        Some(TokenKind::Default)
    } else if w == "type"@ {
        Some(TokenKind::Type)
    } else if w == "switch"@ {
        Some(TokenKind::Switch)
    } else if w == "case"@ {
        Some(TokenKind::Case)
    } else if w == "throw"@ {
        Some(TokenKind::Throw)
    } else if w == "try"@ {
        Some(TokenKind::Try)
    } else if w == "catch"@ {
        Some(TokenKind::Catch)
    } else if w == "finally"@ {
        Some(TokenKind::Finally)
    } else if w == "of"@ {
        Some(TokenKind::Of)
    } else if w == "in"@ {
        Some(TokenKind::In)
    } else if w == "break"@ {
        Some(TokenKind::Break)
    } else if w == "continue"@ {
        Some(TokenKind::Continue)
    } else if w == "new"@ {
        Some(TokenKind::New)
    } else if w == "do"@ {
        Some(TokenKind::Do)
    } else if w == "this"@ {
        Some(TokenKind::This)
    } else if w == "super"@ {
        Some(TokenKind::Super)
    } else if w == "extends"@ {
        Some(TokenKind::Extends)
    } else if w == "static"@ {
        Some(TokenKind::Static)
    } else if w == "async"@ {
        Some(TokenKind::Async)
    } else if w == "await"@ {
        Some(TokenKind::Await)
    } else if w == "enum"@ {
        Some(TokenKind::Enum)
    } else if w == "interface"@ {
        Some(TokenKind::Interface)
    } else if w == "instanceof"@ {
        Some(TokenKind::Instanceof)
    } else if w == "public"@ {
        Some(TokenKind::Public)
    } else if w == "private"@ {
        Some(TokenKind::Private)
    } else if w == "protected"@ {
        Some(TokenKind::Protected)
    } else {
        None
    }
}

/// Whether `v[from..to]` spells `lit`.
fn slice_is(v: &Vec<char>, from: usize, to: usize, lit: &str) -> (r: bool)
    requires
        from <= to <= v.len(),
    ensures
        r == (v@.subrange(from as int, to as int) == lit@),
{
    let l = chars_of(lit);
    if l.len() != to - from {
        return false;
    }
    let mut k: usize = 0;
    while k < l.len()
        invariant
            from <= to <= v.len(),
            l.len() == to - from,
            l@ == lit@,
            k <= l.len(),
            forall|t: int| 0 <= t < k ==> v@[from + t] == l@[t],
        decreases l.len() - k,
    {
        if v[from + k] != l[k] {
            assert(v@.subrange(from as int, to as int)[k as int] != lit@[k as int]);
            return false;
        }
        k += 1;
    }
    assert(v@.subrange(from as int, to as int) =~= lit@);
    true
}

/// The token of the word `v[from..to]`: a keyword, or an identifier.
pub fn word_kind(v: &Vec<char>, from: usize, to: usize) -> (k: TokenKind)
    requires
        from <= to <= v.len(),
    ensures
        keyword_kind(v@.subrange(from as int, to as int)) matches Some(kw) ==> k == kw,
        keyword_kind(v@.subrange(from as int, to as int)) is None ==> k is Identifier
            && k->Identifier_0@ == v@.subrange(from as int, to as int),
{
    if slice_is(v, from, to, "true") {
        TokenKind::True
    } else if slice_is(v, from, to, "false") {
        TokenKind::False
    } else if slice_is(v, from, to, "null") {
        TokenKind::Null
    } else if slice_is(v, from, to, "undefined") {
        TokenKind::Undefined
    } else if slice_is(v, from, to, "let") {
        TokenKind::Let
    } else if slice_is(v, from, to, "const") {
        TokenKind::Const
    } else if slice_is(v, from, to, "var") {
        TokenKind::Var
    } else if slice_is(v, from, to, "function") {
        TokenKind::Function
    } else if slice_is(v, from, to, "return") {
        TokenKind::Return
    } else if slice_is(v, from, to, "if") {
        TokenKind::If
    } else if slice_is(v, from, to, "else") {
        TokenKind::Else
    } else if slice_is(v, from, to, "for") {
        TokenKind::For
    } else if slice_is(v, from, to, "while") {
        TokenKind::While
    } else if slice_is(v, from, to, "typeof") {
        TokenKind::TypeOf
    } else if slice_is(v, from, to, "keyof") {
        TokenKind::KeyOf
    } else if slice_is(v, from, to, "void") {
        TokenKind::Void
    } else if slice_is(v, from, to, "delete") {
        TokenKind::Delete
    } else if slice_is(v, from, to, "class") {
        TokenKind::Class
    } else if slice_is(v, from, to, "import") {
        TokenKind::Import
    } else if slice_is(v, from, to, "from") {
        TokenKind::From
    } else if slice_is(v, from, to, "export") {
        TokenKind::Export
    } else if slice_is(v, from, to, "as") {
        TokenKind::As
    } else if slice_is(v, from, to, "default") {
        TokenKind::Default
    } else if slice_is(v, from, to, "type") {
        TokenKind::Type
    } else if slice_is(v, from, to, "switch") {
        TokenKind::Switch
    } else if slice_is(v, from, to, "case") {
        TokenKind::Case
    } else if slice_is(v, from, to, "throw") {
        TokenKind::Throw
    } else if slice_is(v, from, to, "try") {
        TokenKind::Try
    } else if slice_is(v, from, to, "catch") {
        TokenKind::Catch
    } else if slice_is(v, from, to, "finally") {
        TokenKind::Finally
    } else if slice_is(v, from, to, "of") {
        TokenKind::Of
    } else if slice_is(v, from, to, "in") {
        TokenKind::In
    } else if slice_is(v, from, to, "break") {
        TokenKind::Break
    } else if slice_is(v, from, to, "continue") {
        TokenKind::Continue
    } else if slice_is(v, from, to, "new") {
        TokenKind::New
    } else if slice_is(v, from, to, "do") {
        TokenKind::Do
    } else if slice_is(v, from, to, "this") {
        TokenKind::This
    } else if slice_is(v, from, to, "super") {
        TokenKind::Super
    } else if slice_is(v, from, to, "extends") {
        TokenKind::Extends
    } else if slice_is(v, from, to, "static") {
        TokenKind::Static
    } else if slice_is(v, from, to, "async") {
        TokenKind::Async
    } else if slice_is(v, from, to, "await") {
        TokenKind::Await
    } else if slice_is(v, from, to, "enum") {
        TokenKind::Enum
    } else if slice_is(v, from, to, "interface") {
        TokenKind::Interface
    } else if slice_is(v, from, to, "instanceof") {
        TokenKind::Instanceof
    } else if slice_is(v, from, to, "public") {
        TokenKind::Public
    } else if slice_is(v, from, to, "private") {
        TokenKind::Private
    } else if slice_is(v, from, to, "protected") {
        TokenKind::Protected
    } else {
        TokenKind::Identifier(string_from_chars(v, from, to))
    }
}

/// ASCII letters, digits, `_` and `$`.
fn is_ident_char(b: char) -> (r: bool)
    ensures
        r == (is_ascii_alnum(b) || b == '_' || b == '$'),
{
    ('a' <= b && b <= 'z') || ('A' <= b && b <= 'Z') || ('0' <= b && b <= '9') || b == '_' || b
        == '$'
}

/// Whether `text` spells a token of kind `kind`; every token but the end
/// of input spells at least one character. A name or keyword is its
/// word, an operator or punctuation mark its characters (`=>` or `->` for
/// an arrow), an unknown character itself; a number holds the canonical
/// form of its numeral, a string the text between its quotes (up to the
/// end of the source when it is not closed), a template part its raw text
/// between its delimiters.
pub open spec fn spelled(kind: TokenKind, text: Seq<char>) -> bool {
    match kind {
        TokenKind::Identifier(s) => text.len() >= 1 && text =~= s@,
        TokenKind::Number(n) => text.len() >= 1 && n@ == canonical_numeral(text),
        TokenKind::String(s) => string_spelled(s@, text),
        TokenKind::Unknown(c) => text =~= seq![c],
        TokenKind::NoSubstitutionTemplate(s) => template_spelled(s@, text),
        TokenKind::TemplateHead(s) => template_spelled(s@, text),
        TokenKind::TemplateMiddle(s) => template_spelled(s@, text),
        TokenKind::TemplateTail(s) => template_spelled(s@, text),
        TokenKind::Eof => true,
        TokenKind::Arrow => text =~= seq!['=', '>'] || text =~= seq!['-', '>'],
        TokenKind::OpenParen => text =~= seq!['('],
        TokenKind::CloseParen => text =~= seq![')'],
        TokenKind::OpenBracket => text =~= seq!['['],
        TokenKind::CloseBracket => text =~= seq![']'],
        TokenKind::OpenBrace => text =~= seq!['{'],
        TokenKind::CloseBrace => text =~= seq!['}'],
        TokenKind::Comma => text =~= seq![','],
        TokenKind::Semicolon => text =~= seq![';'],
        TokenKind::Colon => text =~= seq![':'],
        TokenKind::Dot => text =~= seq!['.'],
        TokenKind::DotDotDot => text =~= seq!['.', '.', '.'],
        TokenKind::Question => text =~= seq!['?'],
        TokenKind::QuestionQuestion => text =~= seq!['?', '?'],
        TokenKind::QuestionDot => text =~= seq!['?', '.'],
        TokenKind::Plus => text =~= seq!['+'],
        TokenKind::PlusPlus => text =~= seq!['+', '+'],
        TokenKind::PlusEq => text =~= seq!['+', '='],
        TokenKind::Minus => text =~= seq!['-'],
        TokenKind::MinusMinus => text =~= seq!['-', '-'],
        TokenKind::MinusEq => text =~= seq!['-', '='],
        TokenKind::Star => text =~= seq!['*'],
        TokenKind::StarStar => text =~= seq!['*', '*'],
        TokenKind::StarEq => text =~= seq!['*', '='],
        TokenKind::Slash => text =~= seq!['/'],
        TokenKind::SlashEq => text =~= seq!['/', '='],
        TokenKind::Percent => text =~= seq!['%'],
        TokenKind::PercentEq => text =~= seq!['%', '='],
        TokenKind::Eq => text =~= seq!['='],
        TokenKind::EqEq => text =~= seq!['=', '='],
        TokenKind::EqEqEq => text =~= seq!['=', '=', '='],
        TokenKind::Bang => text =~= seq!['!'],
        TokenKind::NotEq => text =~= seq!['!', '='],
        TokenKind::NotEqEq => text =~= seq!['!', '=', '='],
        TokenKind::Lt => text =~= seq!['<'],
        TokenKind::LtLt => text =~= seq!['<', '<'],
        TokenKind::LtEq => text =~= seq!['<', '='],
        TokenKind::Gt => text =~= seq!['>'],
        TokenKind::GtGt => text =~= seq!['>', '>'],
        TokenKind::GtGtGt => text =~= seq!['>', '>', '>'],
        TokenKind::GtEq => text =~= seq!['>', '='],
        TokenKind::Amp => text =~= seq!['&'],
        TokenKind::AmpAmp => text =~= seq!['&', '&'],
        TokenKind::AmpEq => text =~= seq!['&', '='],
        TokenKind::Pipe => text =~= seq!['|'],
        TokenKind::PipePipe => text =~= seq!['|', '|'],
        TokenKind::PipeEq => text =~= seq!['|', '='],
        TokenKind::Caret => text =~= seq!['^'],
        TokenKind::Tilde => text =~= seq!['~'],
        _ => text =~= kind.spec_text(),
    }
}

/// `text` is a quoted string whose content is `value`: it opens with a
/// quote, and either closes with the same quote after `value` or runs to
/// the end with `value`.
pub open spec fn string_spelled(value: Seq<char>, text: Seq<char>) -> bool {
    &&& text.len() >= 1
    &&& (text[0] == '"' || text[0] == '\'')
    &&& ((text.len() >= 2 && text.last() == text[0] && value =~= text.subrange(1, text.len() - 1))
        || value =~= text.subrange(1, text.len() as int))
}

/// `text` spells a part of a template literal holding `value`: it opens
/// with the backtick or the `}` that ends a substitution, and `value` is
/// the raw text after it, up to a closing backtick or `${`, or up to the
/// end of the source (where a lone final backslash is dropped).
pub open spec fn template_spelled(value: Seq<char>, text: Seq<char>) -> bool {
    &&& text.len() >= 1
    &&& (text[0] == '`' || text[0] == '}')
    &&& {
        ||| (text.len() >= 2 && text.last() == '`' && value =~= text.subrange(1, text.len() - 1))
        ||| (text.len() >= 3 && text[text.len() - 2] == '$' && text.last() == '{' && value
            =~= text.subrange(1, text.len() - 2))
        ||| value =~= text.subrange(1, text.len() as int)
        ||| value.push('\\') =~= text.subrange(1, text.len() as int)
    }
}

/// The token a character makes on its own, for the characters that always
/// make one.
pub open spec fn single_char_token(c: char) -> Option<TokenKind> {
    if c == '(' {
        Some(TokenKind::OpenParen)
    } else if c == ')' {
        Some(TokenKind::CloseParen)
    } else if c == '[' {
        Some(TokenKind::OpenBracket)
    } else if c == ']' {
        Some(TokenKind::CloseBracket)
    } else if c == ',' {
        Some(TokenKind::Comma)
    } else if c == ';' {
        Some(TokenKind::Semicolon)
    } else if c == ':' {
        Some(TokenKind::Colon)
    } else if c == '~' {
        Some(TokenKind::Tilde)
    } else if c == '^' {
        Some(TokenKind::Caret)
    } else {
        None
    }
}

fn single_char_kind(c: char) -> (r: Option<TokenKind>)
    ensures
        r == single_char_token(c),
{
    if c == '(' {
        Some(TokenKind::OpenParen)
    } else if c == ')' {
        Some(TokenKind::CloseParen)
    } else if c == '[' {
        Some(TokenKind::OpenBracket)
    } else if c == ']' {
        Some(TokenKind::CloseBracket)
    } else if c == ',' {
        Some(TokenKind::Comma)
    } else if c == ';' {
        Some(TokenKind::Semicolon)
    } else if c == ':' {
        Some(TokenKind::Colon)
    } else if c == '~' {
        Some(TokenKind::Tilde)
    } else if c == '^' {
        Some(TokenKind::Caret)
    } else {
        None
    }
}

fn one_char_operator_kind(c: char) -> (r: Option<TokenKind>)
    ensures
        r == one_char_operator(c),
{
    match single_char_kind(c) {
        Some(k) => Some(k),
        None => if c == '{' {
            Some(TokenKind::OpenBrace)
        } else if c == '}' {
            Some(TokenKind::CloseBrace)
        } else if c == '.' {
            Some(TokenKind::Dot)
        } else if c == '?' {
            Some(TokenKind::Question)
        } else if c == '+' {
            Some(TokenKind::Plus)
        } else if c == '-' {
            Some(TokenKind::Minus)
        } else if c == '*' {
            Some(TokenKind::Star)
        } else if c == '/' {
            Some(TokenKind::Slash)
        } else if c == '%' {
            Some(TokenKind::Percent)
        } else if c == '=' {
            Some(TokenKind::Eq)
        } else if c == '!' {
            Some(TokenKind::Bang)
        } else if c == '<' {
            Some(TokenKind::Lt)
        } else if c == '>' {
            Some(TokenKind::Gt)
        } else if c == '&' {
            Some(TokenKind::Amp)
        } else if c == '|' {
            Some(TokenKind::Pipe)
        } else {
            None
        },
    }
}

/// The source text under the byte span of `t` spells it.
pub open spec fn spelled_in(t: Token, src: Seq<char>) -> bool {
    exists|p: int, q: int|
        0 <= p <= q <= src.len() && byte_len(src.take(p)) == t.span.start && byte_len(src.take(q))
            == t.span.end && #[trigger] spelled(t.kind, src.subrange(p, q))
}

// ── The lexer ────────────────────────────────────────────────────────────
/// Spans of `ts` lie within `0..=bound`, each ends where or before the next
/// starts, and no token but a final one is `Eof`.
pub open spec fn spans_ordered(ts: Seq<Token>, bound: int) -> bool {
    &&& forall|i: int| 0 <= i < ts.len() ==> #[trigger] ts[i].span.start <= ts[i].span.end <= bound
    &&& forall|i: int| 0 <= i < ts.len() - 1 ==> #[trigger] ts[i].span.end <= ts[i + 1].span.start
}

pub open spec fn last_end(ts: Seq<Token>) -> int {
    if ts.len() == 0 {
        0
    } else {
        ts.last().span.end as int
    }
}

pub struct Lexer {
    source: Vec<char>,
    pos: usize,
    start_pos: usize,
    start: usize,
    current: usize,
    tokens: Vec<Token>,
    diagnostics: Vec<Diagnostic>,
    in_template: bool,
    in_template_expr: bool,
    template_expr_depth: usize,
    template_has_head: bool,
    done: bool,
}

impl Lexer {
    /// The source text.
    pub closed spec fn text(self) -> Seq<char> {
        self.source@
    }

    /// The tokens produced so far.
    pub closed spec fn token_seq(self) -> Seq<Token> {
        self.tokens@
    }

    /// Nothing has been read yet.
    pub closed spec fn unstarted(self) -> bool {
        &&& self.pos == 0
        &&& self.tokens@.len() == 0
        &&& !self.in_template
        &&& !self.in_template_expr
    }

    /// The problems reported so far.
    pub closed spec fn diagnostic_seq(self) -> Seq<Diagnostic> {
        self.diagnostics@
    }

    /// Whether `tokenize` has run.
    pub closed spec fn finished(self) -> bool {
        self.done
    }

    pub closed spec fn wf(self) -> bool {
        &&& self.pos <= self.source@.len()
        &&& self.current == byte_len(self.source@.take(self.pos as int))
        &&& byte_len(self.source@) < usize::MAX
        &&& self.template_expr_depth <= self.pos
        &&& self.start <= self.current
        &&& self.start_pos <= self.pos
        &&& self.start == byte_len(self.source@.take(self.start_pos as int))
        &&& spans_ordered(self.tokens@, self.current as int)
        &&& last_end(self.tokens@) <= self.current
        &&& (self.done ==> self.pos == self.source@.len() && self.tokens@.len() >= 1
            && self.tokens@.last().kind is Eof)
        &&& (!self.done ==> forall|i: int|
            0 <= i < self.tokens@.len() ==> !(#[trigger] self.tokens@[i].kind is Eof))
        &&& forall|i: int| 0 <= i < self.tokens@.len() ==> spelled_in(#[trigger] self.tokens@[i], self.source@)
    }

    pub fn new(source: &str) -> (l: Self)
        requires
            byte_len(source@) < usize::MAX,
        ensures
            l.wf(),
            l.text() == source@,
            !l.finished(),
            l.token_seq().len() == 0,
            l.diagnostic_seq().len() == 0,
            l.unstarted(),
    {
        let l = Lexer {
            source: chars_of(source),
            pos: 0,
            start_pos: 0,
            start: 0,
            current: 0,
            tokens: Vec::new(),
            diagnostics: Vec::new(),
            in_template: false,
            in_template_expr: false,
            template_expr_depth: 0,
            template_has_head: false,
            done: false,
        };
        assert(l.source@.take(0) =~= Seq::<char>::empty());
        l
    }

    /// Scans the whole source. The tokens end with one `Eof` token at the
    /// end of the source, and no other token is `Eof`; spans are ordered and
    /// lie within the source; each name, keyword, operator and punctuation
    /// token is spelled by the source text under its span.
    #[verifier::rlimit(100)]
    pub fn tokenize(&mut self) -> (ts: &[Token])
        requires
            old(self).wf(),
            !old(self).finished(),
        ensures
            final(self).wf(),
            final(self).finished(),
            final(self).text() == old(self).text(),
            ts@ == final(self).token_seq(),
            ts@.len() >= 1,
            ts@.last().kind is Eof,
            ts@.last().span.start == byte_len(final(self).text()),
            ts@.last().span.end == byte_len(final(self).text()),
            forall|i: int| 0 <= i < ts@.len() - 1 ==> !(#[trigger] ts@[i].kind is Eof),
            spans_ordered(ts@, byte_len(final(self).text()) as int),
            forall|i: int| 0 <= i < ts@.len() ==> spelled_in(#[trigger] ts@[i], final(self).text()),
            old(self).text().len() == 0 ==> ts@.len() == old(self).token_seq().len() + 1
                && final(self).diagnostic_seq() == old(self).diagnostic_seq(),
            old(self).unstarted() && old(self).text().len() == 1 ==> (single_char_token(
                old(self).text()[0],
            ) matches Some(k) ==> ts@.len() == 2 && ts@[0].kind == k),
            old(self).unstarted() && plain_text(old(self).text()) ==> lexes(
                old(self).text(),
                0,
                kinds(ts@.drop_last()),
            ),
    {
        let ghost s = self.source@;
        let ghost pl = self.pos == 0 && self.tokens@.len() == 0 && !self.in_template
            && !self.in_template_expr && plain_text(s);
        proof {
            lemma_lexed_before_start(s);
            if pl {
                assert(kinds(self.tokens@) =~= Seq::<TokenKind>::empty());
            }
        }
        let ghost one = self.pos == 0 && self.tokens@.len() == 0 && self.source@.len() == 1
            && single_char_token(self.source@[0]) is Some;
        while !self.is_at_end()
            invariant
                self.wf(),
                !self.done,
                self.source@ == old(self).source@,
                one == (old(self).pos == 0 && old(self).tokens@.len() == 0 && old(self).source@.len()
                    == 1 && single_char_token(old(self).source@[0]) is Some),
                one ==> (self.pos == 0 && self.tokens@.len() == 0) || (self.pos == 1
                    && self.tokens@.len() == 1 && Some(self.tokens@[0].kind) == single_char_token(
                    old(self).source@[0],
                )),
                old(self).source@.len() == 0 ==> self.tokens == old(self).tokens && self.diagnostics
                    == old(self).diagnostics,
                s == old(self).source@,
                pl == (old(self).pos == 0 && old(self).tokens@.len() == 0 && !old(self).in_template
                    && !old(self).in_template_expr && plain_text(s)),
                pl ==> !self.in_template_expr,
                pl ==> lexed_before(s, self.pos as int, kinds(self.tokens@)),
            decreases self.source@.len() - self.pos,
        {
            self.start = self.current;
            self.start_pos = self.pos;
            let ghost p0 = self.pos as int;
            let ghost t0 = self.tokens@;
            self.scan_token();
            proof {
                if pl {
                    assert(plain_at(s, p0));
                    lemma_lexed_step(s, p0, self.pos as int, t0, self.tokens@);
                }
            }
        }
        proof {
            if pl {
                lemma_lexed_end(s, kinds(self.tokens@));
            }
        }
        proof {
            assert(self.source@.take(self.pos as int) =~= self.source@);
        }
        let ghost old_tokens = self.tokens@;
        self.tokens.push(Token::new(TokenKind::Eof, Span::new(self.current, self.current)));
        proof {
            assert(self.tokens@.drop_last() =~= old_tokens);
            let n = self.pos as int;
            assert(spelled(TokenKind::Eof, self.source@.subrange(n, n)));
            assert(spelled_in(self.tokens@.last(), self.source@));
            assert forall|i: int| 0 <= i < self.tokens@.len() implies spelled_in(
                #[trigger] self.tokens@[i],
                self.source@,
            ) by {
                if i < old_tokens.len() {
                    assert(self.tokens@[i] == old_tokens[i]);
                }
            }
        }
        self.done = true;
        proof {
            assert forall|i: int| 0 <= i < self.tokens@.len() - 1 implies !(
            #[trigger] self.tokens@[i].kind is Eof) by {
                assert(self.tokens@[i] == old_tokens[i]);
            }
        }
        self.tokens.as_slice()
    }

    pub fn into_diagnostics(self) -> (d: Vec<Diagnostic>)
        ensures
            d@ == self.diagnostic_seq(),
    {
        self.diagnostics
    }

    fn is_at_end(&self) -> (r: bool)
        ensures
            r == (self.pos >= self.source@.len()),
    {
        self.pos >= self.source.len()
    }

    fn advance(&mut self) -> (c: char)
        requires
            old(self).wf(),
            old(self).pos < old(self).source@.len(),
        ensures
            final(self).wf(),
            c == old(self).source@[old(self).pos as int],
            final(self).pos == old(self).pos + 1,
            final(self).source@ == old(self).source@,
            final(self).tokens == old(self).tokens,
            final(self).diagnostics == old(self).diagnostics,
            final(self).start == old(self).start,
            final(self).start_pos == old(self).start_pos,
            final(self).done == old(self).done,
            final(self).in_template == old(self).in_template,
            final(self).in_template_expr == old(self).in_template_expr,
            final(self).template_expr_depth == old(self).template_expr_depth,
            final(self).template_has_head == old(self).template_has_head,
    {
        let c = self.source[self.pos];
        proof {
            let s = self.source@;
            assert(s.take(self.pos + 1).drop_last() == s.take(self.pos as int));
            assert(s.take(self.pos + 1) == s.take(self.pos as int).push(c));
            lemma_byte_len_push(s.take(self.pos as int), c);
            lemma_byte_len_mono(s, self.pos + 1, s.len() as int);
            lemma_byte_len_mono(s, 0, s.len() as int);
            assert(s.take(s.len() as int) == s);
        }
        self.current = self.current + char_width(c);
        self.pos = self.pos + 1;
        proof {
            lemma_byte_len_mono(self.source@, self.start_pos as int, self.pos as int);
        }
        c
    }

    fn peek(&self) -> (c: char)
        ensures
            self.pos < self.source@.len() ==> c == self.source@[self.pos as int],
            self.pos >= self.source@.len() ==> c == '\0',
    {
        if self.pos >= self.source.len() {
            '\0'
        } else {
            self.source[self.pos]
        }
    }

    fn peek_next(&self) -> (c: char)
        ensures
            self.pos + 1 < self.source@.len() ==> c == self.source@[self.pos + 1],
            self.pos + 1 >= self.source@.len() ==> c == '\0',
    {
        if self.pos >= self.source.len() || self.source.len() - self.pos < 2 {
            '\0'
        } else {
            self.source[self.pos + 1]
        }
    }

    fn add_token(&mut self, kind: TokenKind)
        requires
            old(self).wf(),
            last_end(old(self).tokens@) <= old(self).start,
            !(kind is Eof),
            !old(self).done,
            spelled(kind, old(self).source@.subrange(old(self).start_pos as int, old(self).pos as int)),
        ensures
            final(self).wf(),
            final(self).tokens@ == old(self).tokens@.push(
                Token { kind: kind, span: Span { start: old(self).start, end: old(self).current } },
            ),
            final(self).pos == old(self).pos,
            final(self).source@ == old(self).source@,
            final(self).diagnostics == old(self).diagnostics,
            final(self).start == old(self).start,
            final(self).start_pos == old(self).start_pos,
            final(self).current == old(self).current,
            final(self).done == old(self).done,
            final(self).in_template == old(self).in_template,
            final(self).in_template_expr == old(self).in_template_expr,
            final(self).template_expr_depth == old(self).template_expr_depth,
            final(self).template_has_head == old(self).template_has_head,
    {
        let span = Span::new(self.start, self.current);
        let ghost old_tokens = self.tokens@;
        self.tokens.push(Token::new(kind, span));
        proof {
            let t = self.tokens@.last();
            assert(spelled(t.kind, self.source@.subrange(self.start_pos as int, self.pos as int)));
            assert(spelled_in(t, self.source@));
            assert forall|i: int| 0 <= i < self.tokens@.len() implies spelled_in(
                #[trigger] self.tokens@[i],
                self.source@,
            ) by {
                if i < old_tokens.len() {
                    assert(self.tokens@[i] == old_tokens[i]);
                }
            }
        }
    }

    fn error(&mut self, code: &str, message: &str, span: Span)
        requires
            old(self).wf(),
        ensures
            final(self).wf(),
            final(self).tokens == old(self).tokens,
            final(self).pos == old(self).pos,
            final(self).source@ == old(self).source@,
            final(self).start == old(self).start,
            final(self).start_pos == old(self).start_pos,
            final(self).current == old(self).current,
            final(self).done == old(self).done,
            final(self).in_template == old(self).in_template,
            final(self).in_template_expr == old(self).in_template_expr,
            final(self).template_expr_depth == old(self).template_expr_depth,
            final(self).template_has_head == old(self).template_has_head,
            final(self).diagnostic_seq().len() == old(self).diagnostic_seq().len() + 1,
            final(self).diagnostic_seq().drop_last() == old(self).diagnostic_seq(),
            final(self).diagnostic_seq().last().severity == Severity::Error,
            final(self).diagnostic_seq().last().code@ == code@,
            final(self).diagnostic_seq().last().message@ == message@,
            final(self).diagnostic_seq().last().span == span,
    {
        self.diagnostics.push(Diagnostic::error(code, message, span));
    }

    /// Emits the token `kind` after consuming one more character.
    fn add_token_after(&mut self, kind: TokenKind)
        requires
            old(self).wf(),
            old(self).pos < old(self).source@.len(),
            last_end(old(self).tokens@) <= old(self).start,
            !(kind is Eof),
            !old(self).done,
            spelled(
                kind,
                old(self).source@.subrange(old(self).start_pos as int, old(self).pos + 1),
            ),
        ensures
            final(self).wf(),
            final(self).pos == old(self).pos + 1,
            final(self).tokens@ == old(self).tokens@.push(
                Token { kind: kind, span: Span { start: old(self).start, end: final(self).current } },
            ),
            final(self).source@ == old(self).source@,
            final(self).start == old(self).start,
            final(self).done == old(self).done,
            final(self).in_template == old(self).in_template,
            final(self).in_template_expr == old(self).in_template_expr,
            final(self).template_expr_depth == old(self).template_expr_depth,
            final(self).template_has_head == old(self).template_has_head,
    {
        self.advance();
        self.add_token(kind);
    }

    /// Scans an operator or punctuation mark whose first character `c` was
    /// just consumed, taking the longest spelling that starts there (see
    /// `operator_at`); braces keep count of nesting inside a template
    /// substitution.
    #[verifier::rlimit(100)]
    fn scan_operator(&mut self, c: char)
        requires
            old(self).wf(),
            !old(self).done,
            old(self).pos == old(self).start_pos + 1,
            old(self).source@[old(self).start_pos as int] == c,
            one_char_operator(c) is Some,
            single_char_token(c) is None,
            old(self).template_expr_depth < old(self).pos,
            !(c == '}' && old(self).in_template_expr && old(self).template_expr_depth == 0),
            last_end(old(self).tokens@) <= old(self).start,
        ensures
            final(self).wf(),
            !final(self).done,
            final(self).source@ == old(self).source@,
            final(self).in_template == old(self).in_template,
            final(self).in_template_expr == old(self).in_template_expr,
            operator_at(old(self).source@, old(self).start_pos as int) matches Some((k, n)) && {
                &&& final(self).pos == old(self).start_pos + n
                &&& final(self).tokens@ == old(self).tokens@.push(
                    Token { kind: k, span: Span { start: old(self).start, end: final(self).current } },
                )
            },
    {
        if c == '{' {
            self.add_token(TokenKind::OpenBrace);
            if self.in_template_expr {
                self.template_expr_depth += 1;
            }
        } else if c == '}' {
            if self.in_template_expr {
                self.template_expr_depth -= 1;
            }
            self.add_token(TokenKind::CloseBrace);
        } else if c == '.' {
            if self.peek() == '.' && self.peek_next() == '.' {
                self.advance();
                self.advance();
                self.add_token(TokenKind::DotDotDot);
            } else {
                self.add_token(TokenKind::Dot);
            }
        } else if c == '?' {
            if self.peek() == '?' {
                self.add_token_after(TokenKind::QuestionQuestion);
            } else if self.peek() == '.' {
                self.add_token_after(TokenKind::QuestionDot);
            } else {
                self.add_token(TokenKind::Question);
            }
        } else if c == '+' {
            if self.peek() == '+' {
                self.add_token_after(TokenKind::PlusPlus);
            } else if self.peek() == '=' {
                self.add_token_after(TokenKind::PlusEq);
            } else {
                self.add_token(TokenKind::Plus);
            }
        } else if c == '-' {
            if self.peek() == '-' {
                self.add_token_after(TokenKind::MinusMinus);
            } else if self.peek() == '=' {
                self.add_token_after(TokenKind::MinusEq);
            } else if self.peek() == '>' {
                self.add_token_after(TokenKind::Arrow);
            } else {
                self.add_token(TokenKind::Minus);
            }
        } else if c == '*' {
            if self.peek() == '*' {
                self.add_token_after(TokenKind::StarStar);
            } else if self.peek() == '=' {
                self.add_token_after(TokenKind::StarEq);
            } else {
                self.add_token(TokenKind::Star);
            }
        } else if c == '/' {
            if self.peek() == '=' {
                self.add_token_after(TokenKind::SlashEq);
            } else {
                self.add_token(TokenKind::Slash);
            }
        } else if c == '%' {
            if self.peek() == '=' {
                self.add_token_after(TokenKind::PercentEq);
            } else {
                self.add_token(TokenKind::Percent);
            }
        } else if c == '=' {
            if self.peek() == '=' {
                self.advance();
                if self.peek() == '=' {
                    self.add_token_after(TokenKind::EqEqEq);
                } else {
                    self.add_token(TokenKind::EqEq);
                }
            } else if self.peek() == '>' {
                self.add_token_after(TokenKind::Arrow);
            } else {
                self.add_token(TokenKind::Eq);
            }
        } else if c == '!' {
            if self.peek() == '=' {
                self.advance();
                if self.peek() == '=' {
                    self.add_token_after(TokenKind::NotEqEq);
                } else {
                    self.add_token(TokenKind::NotEq);
                }
            } else {
                self.add_token(TokenKind::Bang);
            }
        } else if c == '<' {
            if self.peek() == '<' {
                self.add_token_after(TokenKind::LtLt);
            } else if self.peek() == '=' {
                self.add_token_after(TokenKind::LtEq);
            } else {
                self.add_token(TokenKind::Lt);
            }
        } else if c == '>' {
            if self.peek() == '>' {
                self.advance();
                if self.peek() == '>' {
                    self.add_token_after(TokenKind::GtGtGt);
                } else {
                    self.add_token(TokenKind::GtGt);
                }
            } else if self.peek() == '=' {
                self.add_token_after(TokenKind::GtEq);
            } else {
                self.add_token(TokenKind::Gt);
            }
        } else if c == '&' {
            if self.peek() == '&' {
                self.add_token_after(TokenKind::AmpAmp);
            } else if self.peek() == '=' {
                self.add_token_after(TokenKind::AmpEq);
            } else {
                self.add_token(TokenKind::Amp);
            }
        } else if c == '|' {
            if self.peek() == '|' {
                self.add_token_after(TokenKind::PipePipe);
            } else if self.peek() == '=' {
                self.add_token_after(TokenKind::PipeEq);
            } else {
                self.add_token(TokenKind::Pipe);
            }
        }
    }

    /// Skips a comment after its opening `/`: a line comment up to the
    /// line feed, or a block comment (which may nest) past its close.
    fn skip_comment(&mut self)
        requires
            old(self).wf(),
            !old(self).done,
        ensures
            final(self).wf(),
            !final(self).done,
            final(self).source@ == old(self).source@,
            final(self).pos >= old(self).pos,
            final(self).tokens == old(self).tokens,
            final(self).in_template == old(self).in_template,
            final(self).in_template_expr == old(self).in_template_expr,
    {
        if self.peek() == '/' {
            while self.pos < self.source.len() && self.source[self.pos] != '\n'
                invariant
                    self.wf(),
                    !self.done,
                    self.source@ == old(self).source@,
                    self.tokens == old(self).tokens,
                    self.in_template == old(self).in_template,
                    self.in_template_expr == old(self).in_template_expr,
                    self.template_expr_depth == old(self).template_expr_depth,
                    self.pos >= old(self).pos,
                decreases self.source@.len() - self.pos,
            {
                self.advance();
            }
        } else if self.peek() == '*' {
            self.advance();
            let mut depth: usize = 1;
            while self.pos < self.source.len()
                invariant_except_break
                    1 <= depth,
                invariant
                    self.wf(),
                    !self.done,
                    self.source@ == old(self).source@,
                    self.tokens == old(self).tokens,
                    self.in_template == old(self).in_template,
                    self.in_template_expr == old(self).in_template_expr,
                    self.template_expr_depth == old(self).template_expr_depth,
                    self.pos >= old(self).pos,
                    depth <= self.pos,
                decreases self.source@.len() - self.pos,
            {
                let b = self.source[self.pos];
                let two = self.source.len() - self.pos >= 2;
                if b == '*' && two && self.source[self.pos + 1] == '/' {
                    self.advance();
                    self.advance();
                    depth -= 1;
                    if depth == 0 {
                        break;
                    }
                } else if b == '/' && two && self.source[self.pos + 1] == '*' {
                    self.advance();
                    self.advance();
                    depth += 1;
                } else {
                    self.advance();
                }
            }
        }
    }

    /// Scans one token (or a comment, or whitespace) starting at `start`.
    #[verifier::rlimit(100)]
    fn scan_token(&mut self)
        requires
            old(self).wf(),
            !old(self).done,
            old(self).pos < old(self).source@.len(),
            old(self).start == old(self).current,
            old(self).start_pos == old(self).pos,
        ensures
            final(self).wf(),
            !final(self).done,
            final(self).source@ == old(self).source@,
            final(self).pos > old(self).pos,
            single_char_token(old(self).source@[old(self).pos as int]) matches Some(k)
                ==> final(self).tokens@ == old(self).tokens@.push(
                Token { kind: k, span: Span { start: old(self).start, end: final(self).current } },
            ) && final(self).pos == old(self).pos + 1,
            plain_at(old(self).source@, old(self).pos as int) && !(old(self).source@[old(self).pos as int]
                == '}' && old(self).in_template_expr && old(self).template_expr_depth == 0) ==> {
                let s = old(self).source@;
                let i = old(self).pos as int;
                &&& final(self).in_template == old(self).in_template
                &&& final(self).in_template_expr == old(self).in_template_expr
                &&& unicode_white_space(s[i]) ==> final(self).tokens == old(self).tokens
                    && final(self).pos == i + 1
                &&& !unicode_white_space(s[i]) ==> {
                    &&& final(self).pos == token_end(s, i)
                    &&& final(self).tokens@.len() == old(self).tokens@.len() + 1
                    &&& final(self).tokens@.drop_last() == old(self).tokens@
                    &&& reads_token(s, i, final(self).tokens@.last().kind)
                }
            },
    {
        let c = self.advance();
        match single_char_kind(c) {
            Some(k) => {
                self.add_token(k);
                return;
            },
            None => {},
        }
        if c == '}' && self.in_template_expr && self.template_expr_depth == 0 {
            self.in_template_expr = false;
            self.scan_template_text();
        } else if c == '/' && (self.peek() == '/' || self.peek() == '*') {
            self.skip_comment();
        } else if one_char_operator_kind(c).is_some() {
            self.scan_operator(c);
        } else if c == '"' || c == '\'' {
            self.string(c);
        } else if c == '`' {
            if self.in_template {
                // Nested template not supported — close current
                self.in_template = false;
                self.in_template_expr = false;
                self.add_token(TokenKind::TemplateTail(String::new()));
            } else {
                self.in_template = true;
                self.template_has_head = false;
                self.scan_template_text();
            }
        } else if '0' <= c && c <= '9' {
            self.number();
        } else if ('a' <= c && c <= 'z') || ('A' <= c && c <= 'Z') || c == '_' || c == '$' {
            self.identifier();
        } else if char_is_whitespace(c) {
        } else {
            let span = Span::new(self.start, self.current);
            let mut msg = String::new();
            msg.push_str("Unknown character '");
            msg.push(c);
            msg.push_str("'");
            self.error("E004", msg.as_str(), span);
            self.add_token(TokenKind::Unknown(c));
        }
    }

    fn string(&mut self, quote: char)
        requires
            old(self).wf(),
            !old(self).done,
            old(self).pos == old(self).start_pos + 1,
            old(self).source@[old(self).start_pos as int] == quote,
            quote == '"' || quote == '\'',
            last_end(old(self).tokens@) <= old(self).start,
        ensures
            final(self).wf(),
            !final(self).done,
            final(self).source@ == old(self).source@,
            final(self).pos >= old(self).pos,
            final(self).template_expr_depth == old(self).template_expr_depth,
            final(self).tokens@.len() == old(self).tokens@.len() + 1,
            final(self).tokens@.drop_last() == old(self).tokens@,
            final(self).start_pos == old(self).start_pos,
            final(self).tokens@.last().span == (Span { start: old(self).start, end: final(self).current }),
            spelled(
                final(self).tokens@.last().kind,
                final(self).source@.subrange(old(self).start_pos as int, final(self).pos as int),
            ),
            final(self).tokens@.last().kind is String,
    {
        while self.pos < self.source.len() && self.source[self.pos] != quote
            invariant
                self.wf(),
                !self.done,
                self.source@ == old(self).source@,
                self.pos >= old(self).pos,
                self.start == old(self).start,
                self.start_pos == old(self).start_pos,
                self.tokens == old(self).tokens,
                self.template_expr_depth == old(self).template_expr_depth,
            decreases self.source@.len() - self.pos,
        {
            if self.source[self.pos] == '\\' {
                self.advance();
                if self.pos < self.source.len() {
                    self.advance();
                }
            } else {
                self.advance();
            }
        }
        if self.is_at_end() {
            let span = Span::new(self.start, self.current);
            self.error("E003", "Unterminated string literal", span);
            let value = string_from_chars(&self.source, self.start_pos + 1, self.pos);
            self.add_token(TokenKind::String(value));
        } else {
            self.advance();
            let value = string_from_chars(&self.source, self.start_pos + 1, self.pos - 1);
            self.add_token(TokenKind::String(value));
        }
    }

    fn number(&mut self)
        requires
            old(self).wf(),
            !old(self).done,
            old(self).pos == old(self).start_pos + 1,
            last_end(old(self).tokens@) <= old(self).start,
            is_ascii_digit(old(self).source@[old(self).start_pos as int]),
        ensures
            final(self).wf(),
            !final(self).done,
            final(self).source@ == old(self).source@,
            final(self).pos >= old(self).pos,
            final(self).template_expr_depth == old(self).template_expr_depth,
            final(self).in_template == old(self).in_template,
            final(self).in_template_expr == old(self).in_template_expr,
            final(self).tokens@.len() == old(self).tokens@.len() + 1,
            final(self).tokens@.drop_last() == old(self).tokens@,
            final(self).start_pos == old(self).start_pos,
            final(self).tokens@.last().span == (Span { start: old(self).start, end: final(self).current }),
            spelled(
                final(self).tokens@.last().kind,
                final(self).source@.subrange(old(self).start_pos as int, final(self).pos as int),
            ),
            final(self).tokens@.last().kind is Number,
            final(self).pos == number_end(old(self).source@, old(self).start_pos as int),
    {
        let ghost s = self.source@;
        let ghost i0 = self.start_pos as int;
        while self.pos < self.source.len() && '0' <= self.source[self.pos] && self.source[self.pos]
            <= '9'
            invariant
                self.wf(),
                !self.done,
                self.source@ == old(self).source@,
                self.pos >= old(self).pos,
                self.start == old(self).start,
                self.start_pos == old(self).start_pos,
                self.tokens == old(self).tokens,
                self.template_expr_depth == old(self).template_expr_depth,
                self.in_template == old(self).in_template,
                self.in_template_expr == old(self).in_template_expr,
                s == old(self).source@,
                i0 == old(self).start_pos,
                digits_end(s, self.pos as int) == digits_end(s, i0),
            decreases self.source@.len() - self.pos,
        {
            self.advance();
        }
        let ghost a = self.pos as int;
        assert(a == digits_end(s, i0));
        if self.pos < self.source.len() && self.source[self.pos] == '.' {
            if self.source.len() - self.pos >= 2 && '0' <= self.source[self.pos + 1]
                && self.source[self.pos + 1] <= '9' {
                self.advance();
                self.advance();
                while self.pos < self.source.len() && '0' <= self.source[self.pos]
                    && self.source[self.pos] <= '9'
                    invariant
                        self.wf(),
                        !self.done,
                        self.source@ == old(self).source@,
                        self.pos >= old(self).pos,
                        self.start == old(self).start,
                        self.start_pos == old(self).start_pos,
                        self.tokens == old(self).tokens,
                        self.template_expr_depth == old(self).template_expr_depth,
                        self.in_template == old(self).in_template,
                        self.in_template_expr == old(self).in_template_expr,
                self.in_template == old(self).in_template,
                self.in_template_expr == old(self).in_template_expr,
                        s == old(self).source@,
                        digits_end(s, self.pos as int) == digits_end(s, a + 2),
                    decreases self.source@.len() - self.pos,
                {
                    self.advance();
                }
            }
        }
        let value = canonical_numeral_exec(&self.source, self.start_pos, self.pos);
        self.add_token(TokenKind::Number(value));
    }

    #[verifier::rlimit(50)]
    fn identifier(&mut self)
        requires
            old(self).wf(),
            !old(self).done,
            old(self).pos == old(self).start_pos + 1,
            last_end(old(self).tokens@) <= old(self).start,
            ident_char(old(self).source@[old(self).start_pos as int]),
        ensures
            final(self).wf(),
            !final(self).done,
            final(self).source@ == old(self).source@,
            final(self).pos >= old(self).pos,
            final(self).template_expr_depth == old(self).template_expr_depth,
            final(self).in_template == old(self).in_template,
            final(self).in_template_expr == old(self).in_template_expr,
            final(self).tokens@.len() == old(self).tokens@.len() + 1,
            final(self).tokens@.drop_last() == old(self).tokens@,
            final(self).start_pos == old(self).start_pos,
            final(self).tokens@.last().span == (Span { start: old(self).start, end: final(self).current }),
            spelled(
                final(self).tokens@.last().kind,
                final(self).source@.subrange(old(self).start_pos as int, final(self).pos as int),
            ),
            final(self).pos == word_end(old(self).source@, old(self).start_pos as int),
            word_token(
                old(self).source@.subrange(old(self).start_pos as int, final(self).pos as int),
                final(self).tokens@.last().kind,
            ),
    {
        let ghost s = self.source@;
        let ghost i0 = self.start_pos as int;
        while self.pos < self.source.len() && is_ident_char(self.source[self.pos])
            invariant
                self.wf(),
                !self.done,
                self.source@ == old(self).source@,
                self.pos >= old(self).pos,
                self.start == old(self).start,
                self.start_pos == old(self).start_pos,
                self.tokens == old(self).tokens,
                self.template_expr_depth == old(self).template_expr_depth,
                self.in_template == old(self).in_template,
                self.in_template_expr == old(self).in_template_expr,
                s == old(self).source@,
                i0 == old(self).start_pos,
                word_end(s, self.pos as int) == word_end(s, i0),
            decreases self.source@.len() - self.pos,
        {
            self.advance();
        }
        let kind = word_kind(&self.source, self.start_pos, self.pos);
        self.add_token(kind);
    }

    fn scan_template_text(&mut self)
        requires
            old(self).wf(),
            !old(self).done,
            last_end(old(self).tokens@) <= old(self).start,
            old(self).pos == old(self).start_pos + 1,
            old(self).source@[old(self).start_pos as int] == '`' || old(self).source@[old(
                self,
            ).start_pos as int] == '}',
        ensures
            final(self).wf(),
            !final(self).done,
            final(self).source@ == old(self).source@,
            final(self).pos >= old(self).pos,
            final(self).tokens@.len() == old(self).tokens@.len() + 1,
            final(self).tokens@.drop_last() == old(self).tokens@,
            final(self).start_pos == old(self).start_pos,
            final(self).tokens@.last().span == (Span { start: old(self).start, end: final(self).current }),
            spelled(
                final(self).tokens@.last().kind,
                final(self).source@.subrange(old(self).start_pos as int, final(self).pos as int),
            ),
            final(self).tokens@.last().kind is NoSubstitutionTemplate || final(self).tokens@.last().kind is TemplateHead
                || final(self).tokens@.last().kind is TemplateMiddle || final(self).tokens@.last().kind is TemplateTail,
    {
        let mut text = String::new();
        loop
            invariant
                self.wf(),
                !self.done,
                self.source@ == old(self).source@,
                self.pos >= old(self).pos,
                self.start == old(self).start,
                self.start_pos == old(self).start_pos,
                self.tokens == old(self).tokens,
                last_end(self.tokens@) <= self.start,
                old(self).pos == old(self).start_pos + 1,
                old(self).source@[old(self).start_pos as int] == '`' || old(self).source@[old(
                    self,
                ).start_pos as int] == '}',
                text@ =~= self.source@.subrange(self.start_pos + 1, self.pos as int) || (self.pos
                    == self.source@.len() && text@.push('\\') =~= self.source@.subrange(
                    self.start_pos + 1,
                    self.pos as int,
                )),
            decreases self.source@.len() - self.pos,
        {
            let ghost sp = self.start_pos as int;
            proof {
                let t = self.source@.subrange(sp, self.pos as int);
                assert(t.subrange(1, t.len() as int) =~= self.source@.subrange(sp + 1, self.pos as int));
            }
            if self.is_at_end() {
                let span = Span::new(self.start, self.current);
                self.error("E003", "Unterminated template literal", span);
                self.in_template = false;
                self.add_token(TokenKind::TemplateTail(text));
                return;
            }
            let c = self.peek();
            if c == '`' {
                self.advance();
                self.in_template = false;
                if self.template_has_head {
                    self.add_token(TokenKind::TemplateTail(text));
                } else {
                    self.add_token(TokenKind::NoSubstitutionTemplate(text));
                }
                return;
            }
            if c == '$' && self.peek_next() == '{' {
                self.advance();
                self.advance();
                if self.template_has_head {
                    self.add_token(TokenKind::TemplateMiddle(text));
                } else {
                    self.add_token(TokenKind::TemplateHead(text));
                }
                self.template_has_head = true;
                self.in_template_expr = true;
                self.template_expr_depth = 0;
                return;
            }
            if c == '\\' {
                self.advance();
                if !self.is_at_end() {
                    let esc = self.advance();
                    text.push('\\');
                    text.push(esc);
                }
                continue;
            }
            text.push(c);
            self.advance();
        }
    }
}

} // verus!
