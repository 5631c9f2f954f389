//! The scanner as a specification: which token the lexer reads at an
//! index of a text without strings, templates or comments, by longest
//! match, and the sequence of tokens such a text lexes to.
use vstd::prelude::*;

use crate::lexer::{canonical_numeral, keyword_kind, single_char_token};
use crate::text::{is_ascii_alnum, is_ascii_alpha, is_ascii_digit, unicode_white_space};
use crate::token::{Token, TokenKind};

verus! {

/// The two characters at `i` are `a` and `b`.
pub open spec fn at2(s: Seq<char>, i: int, a: char, b: char) -> bool {
    0 <= i && i + 2 <= s.len() && s[i] == a && s[i + 1] == b
}

/// The three characters at `i` are `a`, `b` and `c`.
pub open spec fn at3(s: Seq<char>, i: int, a: char, b: char, c: char) -> bool {
    0 <= i && i + 3 <= s.len() && s[i] == a && s[i + 1] == b && s[i + 2] == c
}

/// The operator or punctuation mark of one character.
pub open spec fn one_char_operator(c: char) -> Option<TokenKind> {
    match single_char_token(c) {
        Some(k) => Some(k),
        None => if c == '{' {
            Some(TokenKind::OpenBrace)
        } else if c == '}' {
            Some(TokenKind::CloseBrace)
        } else if c == '.' {
            Some(TokenKind::Dot)
        } else if c == '?' {
            Some(TokenKind::Question)
        } else if c == '+' {
            Some(TokenKind::Plus)
        } else if c == '-' {
            Some(TokenKind::Minus)
        } else if c == '*' {
            Some(TokenKind::Star)
        } else if c == '/' {
            Some(TokenKind::Slash)
        } else if c == '%' {
            Some(TokenKind::Percent)
        } else if c == '=' {
            Some(TokenKind::Eq)
        } else if c == '!' {
            Some(TokenKind::Bang)
        } else if c == '<' {
            Some(TokenKind::Lt)
        } else if c == '>' {
            Some(TokenKind::Gt)
        } else if c == '&' {
            Some(TokenKind::Amp)
        } else if c == '|' {
            Some(TokenKind::Pipe)
        } else {
            None
        },
    }
}

/// The operator or punctuation token that starts at `i`, with its length:
/// the longest spelling found there, three characters before two before
/// one.
pub open spec fn operator_at(s: Seq<char>, i: int) -> Option<(TokenKind, int)> {
    if at3(s, i, '=', '=', '=') {
        Some((TokenKind::EqEqEq, 3))
    } else if at3(s, i, '!', '=', '=') {
        Some((TokenKind::NotEqEq, 3))
    } else if at3(s, i, '>', '>', '>') {
        Some((TokenKind::GtGtGt, 3))
    } else if at3(s, i, '.', '.', '.') {
        Some((TokenKind::DotDotDot, 3))
    } else if at2(s, i, '?', '?') {
        Some((TokenKind::QuestionQuestion, 2))
    } else if at2(s, i, '?', '.') {
        Some((TokenKind::QuestionDot, 2))
    } else if at2(s, i, '+', '+') {
        Some((TokenKind::PlusPlus, 2))
    } else if at2(s, i, '+', '=') {
        Some((TokenKind::PlusEq, 2))
    } else if at2(s, i, '-', '-') {
        Some((TokenKind::MinusMinus, 2))
    } else if at2(s, i, '-', '=') {
        Some((TokenKind::MinusEq, 2))
    } else if at2(s, i, '-', '>') || at2(s, i, '=', '>') {
        Some((TokenKind::Arrow, 2))
    } else if at2(s, i, '*', '*') {
        Some((TokenKind::StarStar, 2))
    } else if at2(s, i, '*', '=') {
        Some((TokenKind::StarEq, 2))
    } else if at2(s, i, '/', '=') {
        Some((TokenKind::SlashEq, 2))
    } else if at2(s, i, '%', '=') {
        Some((TokenKind::PercentEq, 2))
    } else if at2(s, i, '=', '=') {
        Some((TokenKind::EqEq, 2))
    } else if at2(s, i, '!', '=') {
        Some((TokenKind::NotEq, 2))
    } else if at2(s, i, '<', '<') {
        Some((TokenKind::LtLt, 2))
    } else if at2(s, i, '<', '=') {
        Some((TokenKind::LtEq, 2))
    } else if at2(s, i, '>', '>') {
        Some((TokenKind::GtGt, 2))
    } else if at2(s, i, '>', '=') {
        Some((TokenKind::GtEq, 2))
    } else if at2(s, i, '&', '&') {
        Some((TokenKind::AmpAmp, 2))
    } else if at2(s, i, '&', '=') {
        Some((TokenKind::AmpEq, 2))
    } else if at2(s, i, '|', '|') {
        Some((TokenKind::PipePipe, 2))
    } else if at2(s, i, '|', '=') {
        Some((TokenKind::PipeEq, 2))
    } else if 0 <= i < s.len() {
        match one_char_operator(s[i]) {
            Some(k) => Some((k, 1)),
            None => None,
        }
    } else {
        None
    }
}

/// A character that may continue a name.
pub open spec fn ident_char(c: char) -> bool {
    is_ascii_alnum(c) || c == '_' || c == '$'
}

/// A character that may start a name.
pub open spec fn ident_start(c: char) -> bool {
    is_ascii_alpha(c) || c == '_' || c == '$'
}

/// The end of the run of name characters that starts at `i`.
pub open spec fn word_end(s: Seq<char>, i: int) -> int
    decreases s.len() - i,
{
    if 0 <= i < s.len() && ident_char(s[i]) {
        word_end(s, i + 1)
    } else {
        i
    }
}

/// The end of the run of digits that starts at `i`.
pub open spec fn digits_end(s: Seq<char>, i: int) -> int
    decreases s.len() - i,
{
    if 0 <= i < s.len() && is_ascii_digit(s[i]) {
        digits_end(s, i + 1)
    } else {
        i
    }
}

/// The end of the numeral that starts at `i`: digits, then a fraction when
/// a dot is followed by a digit.
pub open spec fn number_end(s: Seq<char>, i: int) -> int {
    let a = digits_end(s, i);
    if a + 1 < s.len() && s[a] == '.' && is_ascii_digit(s[a + 1]) {
        digits_end(s, a + 2)
    } else {
        a
    }
}

/// `k` is the token of the word `w`: its keyword, or a name.
pub open spec fn word_token(w: Seq<char>, k: TokenKind) -> bool {
    match keyword_kind(w) {
        Some(kw) => k == kw,
        None => k matches TokenKind::Identifier(x) && x@ == w,
    }
}

/// A character the scanner reads without strings, templates or comments:
/// not a quote or backtick, and not a slash that opens a comment.
pub open spec fn plain_at(s: Seq<char>, i: int) -> bool {
    &&& !(s[i] == '"' || s[i] == '\'' || s[i] == '`')
    &&& !(at2(s, i, '/', '/') || at2(s, i, '/', '*'))
}

/// A text made of plain characters only.
pub open spec fn plain_text(s: Seq<char>) -> bool {
    forall|i: int| 0 <= i < s.len() ==> #[trigger] plain_at(s, i)
}

/// Where the token that starts at `i` ends: after the longest operator,
/// after the numeral, after the name, or after the one unknown character.
pub open spec fn token_end(s: Seq<char>, i: int) -> int {
    match operator_at(s, i) {
        Some((_, n)) => i + n,
        None => if is_ascii_digit(s[i]) {
            number_end(s, i)
        } else if ident_start(s[i]) {
            word_end(s, i)
        } else {
            i + 1
        },
    }
}

/// `k` is the token that starts at `i` (not at white space): the longest
/// operator, a number holding its canonical numeral, a keyword or name,
/// or an unknown character.
pub open spec fn reads_token(s: Seq<char>, i: int, k: TokenKind) -> bool {
    match operator_at(s, i) {
        Some((op, _)) => k == op,
        None => if is_ascii_digit(s[i]) {
            k matches TokenKind::Number(n) && n@ == canonical_numeral(
                s.subrange(i, number_end(s, i)),
            )
        } else if ident_start(s[i]) {
            word_token(s.subrange(i, word_end(s, i)), k)
        } else {
            k == TokenKind::Unknown(s[i])
        },
    }
}

/// `ks` are the tokens of plain text `s` from index `i` on: white space is
/// skipped, and each token is read where the one before ends.
pub open spec fn lexes(s: Seq<char>, i: int, ks: Seq<TokenKind>) -> bool
    decreases s.len() - i,
{
    if i < 0 || i >= s.len() {
        ks.len() == 0
    } else if unicode_white_space(s[i]) {
        lexes(s, i + 1, ks)
    } else {
        let e = token_end(s, i);
        if i < e <= s.len() {
            &&& ks.len() >= 1
            &&& reads_token(s, i, ks[0])
            &&& lexes(s, e, ks.drop_first())
        } else {
            false
        }
    }
}

/// The kinds of a sequence of tokens.
pub open spec fn kinds(ts: Seq<Token>) -> Seq<TokenKind> {
    ts.map_values(|t: Token| t.kind)
}

/// A token read at `i` starts the tokens from `i` on.
pub proof fn lemma_lexes_token(s: Seq<char>, i: int, k: TokenKind, ks: Seq<TokenKind>)
    requires
        0 <= i < s.len(),
        !unicode_white_space(s[i]),
        reads_token(s, i, k),
        i < token_end(s, i) <= s.len(),
        lexes(s, token_end(s, i), ks),
    ensures
        lexes(s, i, seq![k] + ks),
{
    assert((seq![k] + ks).drop_first() =~= ks);
}

/// White space at `i` is skipped.
pub proof fn lemma_lexes_space(s: Seq<char>, i: int, ks: Seq<TokenKind>)
    requires
        0 <= i < s.len(),
        unicode_white_space(s[i]),
        lexes(s, i + 1, ks),
    ensures
        lexes(s, i, ks),
{
}

/// The tokens `ks` read before index `p` start the tokens of the whole
/// text: whatever the text lexes to from `p` on follows them.
#[verifier::opaque]
pub open spec fn lexed_before(s: Seq<char>, p: int, ks: Seq<TokenKind>) -> bool {
    forall|rest: Seq<TokenKind>| #[trigger] lexes(s, p, rest) ==> lexes(s, 0, ks + rest)
}

/// Nothing has been read before the start.
pub proof fn lemma_lexed_before_start(s: Seq<char>)
    ensures
        lexed_before(s, 0, Seq::empty()),
{
    reveal(lexed_before);
    assert forall|rest: Seq<TokenKind>| #[trigger] lexes(s, 0, rest) implies lexes(
        s,
        0,
        Seq::<TokenKind>::empty() + rest,
    ) by {
        assert(Seq::<TokenKind>::empty() + rest =~= rest);
    }
}

/// Reading past white space, or reading one token, keeps the tokens read
/// a prefix of the text's tokens.
pub proof fn lemma_lexed_step(
    s: Seq<char>,
    p0: int,
    p1: int,
    t0: Seq<Token>,
    t1: Seq<Token>,
)
    requires
        0 <= p0 < s.len(),
        lexed_before(s, p0, kinds(t0)),
        unicode_white_space(s[p0]) ==> t1 == t0 && p1 == p0 + 1,
        !unicode_white_space(s[p0]) ==> {
            &&& p1 == token_end(s, p0)
            &&& t1.len() == t0.len() + 1
            &&& t1.drop_last() == t0
            &&& reads_token(s, p0, t1.last().kind)
        },
        p0 < p1 <= s.len(),
    ensures
        lexed_before(s, p1, kinds(t1)),
{
    reveal(lexed_before);
    if unicode_white_space(s[p0]) {
        assert forall|rest: Seq<TokenKind>| #[trigger] lexes(s, p1, rest) implies lexes(
            s,
            0,
            kinds(t1) + rest,
        ) by {
            lemma_lexes_space(s, p0, rest);
        }
    } else {
        let k = t1.last().kind;
        assert(t1 =~= t0.push(t1.last()));
        assert(kinds(t1) =~= kinds(t0).push(k));
        assert forall|rest: Seq<TokenKind>| #[trigger] lexes(s, p1, rest) implies lexes(
            s,
            0,
            kinds(t1) + rest,
        ) by {
            lemma_lexes_token(s, p0, k, rest);
            assert(kinds(t0) + (seq![k] + rest) =~= kinds(t1) + rest);
        }
    }
}

/// At the end of the text, the tokens read are all of them.
pub proof fn lemma_lexed_end(s: Seq<char>, ks: Seq<TokenKind>)
    requires
        lexed_before(s, s.len() as int, ks),
    ensures
        lexes(s, 0, ks),
{
    reveal(lexed_before);
    assert(lexes(s, s.len() as int, Seq::<TokenKind>::empty()));
    assert(ks + Seq::<TokenKind>::empty() =~= ks);
}

} // verus!
