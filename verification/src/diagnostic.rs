//! Diagnostics and source files: mapping byte offsets to lines and columns,
//! and rendering an error with the offending source line underlined.
use vstd::prelude::*;

use crate::text::{
    byte_len, char_width, chars_of, copy_string, decimal, lemma_byte_len_mono, lemma_byte_len_push,
    lemma_decimal_len_usize, lemma_repeat_len, push_chars, push_decimal, push_repeat, repeat,
    string_of_str, utf8_width,
};
use crate::token::Span;

verus! {

#[derive(Debug, Clone, Copy, PartialEq, Eq, Structural)]
pub enum Severity {
    Error,
}

#[derive(Debug, Clone)]
pub struct Diagnostic {
    pub severity: Severity,
    pub code: String,
    pub message: String,
    pub span: Span,
}

impl Diagnostic {
    pub fn error(code: &str, message: &str, span: Span) -> (d: Self)
        ensures
            d.severity == Severity::Error,
            d.code@ == code@,
            d.message@ == message@,
            d.span == span,
    {
        Diagnostic {
            severity: Severity::Error,
            code: string_of_str(code),
            message: string_of_str(message),
            span,
        }
    }
}

/// Character indices at which the lines of `s` start: 0, and each index
/// just after a line feed.
pub open spec fn char_line_starts(s: Seq<char>) -> Seq<int>
    decreases s.len(),
{
    if s.len() == 0 {
        seq![0]
    } else if s.last() == '\n' {
        char_line_starts(s.drop_last()).push(s.len() as int)
    } else {
        char_line_starts(s.drop_last())
    }
}

/// Byte offsets at which the lines of `s` start: 0, and each offset just
/// after a line feed.
pub open spec fn byte_line_starts(s: Seq<char>) -> Seq<int>
    decreases s.len(),
{
    if s.len() == 0 {
        seq![0]
    } else if s.last() == '\n' {
        byte_line_starts(s.drop_last()).push(byte_len(s) as int)
    } else {
        byte_line_starts(s.drop_last())
    }
}

/// `starts` begins at 0, increases strictly and stays within `0..=bound`.
pub open spec fn sorted_starts(starts: Seq<int>, bound: int) -> bool {
    &&& starts.len() >= 1
    &&& starts[0] == 0
    &&& forall|i: int, j: int| 0 <= i < j < starts.len() ==> starts[i] < starts[j]
    &&& forall|i: int| 0 <= i < starts.len() ==> 0 <= #[trigger] starts[i] <= bound
}

/// `line` (0-based) is the line of `starts` that holds `offset`: the last
/// line whose start is at most `offset`.
pub open spec fn holds_offset(starts: Seq<int>, line: int, offset: int) -> bool {
    &&& 0 <= line < starts.len()
    &&& starts[line] <= offset
    &&& (line + 1 == starts.len() || offset < starts[line + 1])
}

pub proof fn lemma_char_line_starts(s: Seq<char>)
    ensures
        sorted_starts(char_line_starts(s), s.len() as int),
        char_line_starts(s).len() == byte_line_starts(s).len(),
        forall|k: int|
            0 <= k < char_line_starts(s).len() ==> #[trigger] byte_line_starts(s)[k] == byte_len(
                s.take(char_line_starts(s)[k]),
            ),
        forall|k: int|
            0 < k < char_line_starts(s).len() ==> s[#[trigger] char_line_starts(s)[k] - 1]
                == '\n',
    decreases s.len(),
{
    if s.len() > 0 {
        let p = s.drop_last();
        lemma_char_line_starts(p);
        assert forall|k: int| 0 <= k < char_line_starts(p).len() implies s.take(
            #[trigger] char_line_starts(p)[k],
        ) == p.take(char_line_starts(p)[k]) by {}
        assert(s.take(s.len() as int) == s);
    }
}

pub proof fn lemma_byte_line_starts(s: Seq<char>)
    ensures
        sorted_starts(byte_line_starts(s), byte_len(s) as int),
    decreases s.len(),
{
    if s.len() > 0 {
        let p = s.drop_last();
        lemma_byte_line_starts(p);
        lemma_byte_len_push(p, s.last());
        assert(p.push(s.last()) == s);
    }
}

/// Number of line feeds in `s`.
pub open spec fn newline_count(s: Seq<char>) -> nat
    decreases s.len(),
{
    if s.len() == 0 {
        0
    } else {
        newline_count(s.drop_last()) + if s.last() == '\n' {
            1nat
        } else {
            0nat
        }
    }
}

/// A text has one line more than it has line feeds.
pub proof fn lemma_line_count_newlines(s: Seq<char>)
    ensures
        byte_line_starts(s).len() == newline_count(s) + 1,
    decreases s.len(),
{
    if s.len() > 0 {
        lemma_line_count_newlines(s.drop_last());
    }
}

/// The offset after the first `p` characters lies on the line numbered by
/// the line feeds among them.
pub proof fn lemma_line_of_prefix(s: Seq<char>, p: int)
    requires
        0 <= p <= s.len(),
    ensures
        holds_offset(byte_line_starts(s), newline_count(s.take(p)) as int, byte_len(s.take(p)) as int),
    decreases s.len(),
{
    lemma_byte_line_starts(s);
    lemma_line_count_newlines(s);
    if p == s.len() {
        assert(s.take(p) == s);
    } else {
        let t = s.drop_last();
        let c = s.last();
        assert(t.push(c) == s);
        lemma_line_of_prefix(t, p);
        assert(s.take(p) == t.take(p));
        lemma_byte_line_starts(t);
        lemma_line_count_newlines(t);
        lemma_byte_len_mono(t, p, t.len() as int);
        assert(t.take(t.len() as int) == t);
        lemma_byte_len_push(t, c);
    }
}

/// A line feed is followed by the start of a line.
pub proof fn lemma_newline_starts_line(s: Seq<char>, m: int)
    requires
        0 <= m < s.len(),
        s[m] == '\n',
    ensures
        exists|j: int| 0 <= j < char_line_starts(s).len() && #[trigger] char_line_starts(s)[j] == m + 1,
    decreases s.len(),
{
    let p = s.drop_last();
    if m == s.len() - 1 {
        let j = char_line_starts(s).len() - 1;
        assert(char_line_starts(s)[j] == m + 1);
    } else {
        lemma_newline_starts_line(p, m);
        let j = choose|j: int| 0 <= j < char_line_starts(p).len() && #[trigger] char_line_starts(p)[j] == m + 1;
        assert(char_line_starts(s)[j] == m + 1);
    }
}

/// The index just after the last line feed of `s` (0 when it has none):
/// where its last line starts.
pub open spec fn last_line_start(s: Seq<char>) -> int
    decreases s.len(),
{
    if s.len() == 0 {
        0
    } else if s.last() == '\n' {
        s.len() as int
    } else {
        last_line_start(s.drop_last())
    }
}

/// The line that holds the first `p` characters' end starts where the last
/// line of those characters starts.
pub proof fn lemma_start_of_prefix_line(s: Seq<char>, p: int)
    requires
        0 <= p <= s.len(),
    ensures
        0 <= newline_count(s.take(p)) < char_line_starts(s).len(),
        char_line_starts(s)[newline_count(s.take(p)) as int] == last_line_start(s.take(p)),
    decreases s.len(),
{
    lemma_char_line_starts(s);
    lemma_line_count_newlines(s);
    if s.len() == 0 {
        assert(s.take(p) =~= s);
    } else if p == s.len() {
        assert(s.take(p) =~= s);
        let t = s.drop_last();
        lemma_char_line_starts(t);
        lemma_line_count_newlines(t);
        if s.last() != '\n' {
            lemma_start_of_prefix_line(t, t.len() as int);
            assert(t.take(t.len() as int) =~= t);
        }
    } else {
        let t = s.drop_last();
        lemma_start_of_prefix_line(t, p);
        assert(s.take(p) =~= t.take(p));
        lemma_char_line_starts(t);
    }
}

/// Two lines that both hold an offset are the same line.
pub proof fn lemma_holds_offset_unique(starts: Seq<int>, bound: int, a: int, b: int, offset: int)
    requires
        sorted_starts(starts, bound),
        holds_offset(starts, a, offset),
        holds_offset(starts, b, offset),
    ensures
        a == b,
{
    if a < b {
        assert(starts[a + 1] <= starts[b]);
    }
    if b < a {
        assert(starts[b + 1] <= starts[a]);
    }
}

/// The line (0-based) of `starts` that holds `offset`: a binary search for
/// the last start that is at most `offset`.
pub fn find_line(starts: &Vec<usize>, offset: usize, bound: Ghost<int>) -> (line: usize)
    requires
        sorted_starts(starts@.map_values(|x: usize| x as int), bound@),
    ensures
        holds_offset(starts@.map_values(|x: usize| x as int), line as int, offset as int),
{
    let ghost st = starts@.map_values(|x: usize| x as int);
    let mut lo: usize = 0;
    let mut hi: usize = starts.len();
    assert(st[0] == 0);
    while hi - lo > 1
        invariant
            st == starts@.map_values(|x: usize| x as int),
            sorted_starts(st, bound@),
            0 <= lo < hi <= starts.len(),
            starts[lo as int] <= offset,
            hi == starts.len() || offset < starts[hi as int],
        decreases hi - lo,
    {
        let mid = lo + (hi - lo) / 2;
        if starts[mid] <= offset {
            lo = mid;
        } else {
            hi = mid;
        }
    }
    proof {
        if lo + 1 < starts.len() {
            assert(hi == lo + 1);
        }
    }
    lo
}

/// Number of digits in the decimal numeral of `n`.
pub fn decimal_len(n: usize) -> (l: usize)
    ensures
        l == decimal(n as nat).len(),
    decreases n,
{
    if n < 10 {
        1
    } else {
        proof {
            lemma_decimal_len_usize(n);
        }
        decimal_len(n / 10) + 1
    }
}

/// Text with trailing carriage returns and line feeds removed.
pub open spec fn trim_line_end(s: Seq<char>) -> Seq<char>
    decreases s.len(),
{
    if s.len() > 0 && (s.last() == '\r' || s.last() == '\n') {
        trim_line_end(s.drop_last())
    } else {
        s
    }
}

/// `n` right-aligned in a field of four characters.
pub open spec fn pad4(n: nat) -> Seq<char> {
    let d = decimal(n);
    if d.len() < 4 {
        repeat(' ', (4 - d.len()) as nat) + d
    } else {
        d
    }
}

pub struct SourceFile {
    pub path: String,
    pub source: String,
    line_starts: Vec<usize>,
    chars: Vec<char>,
    char_starts: Vec<usize>,
    byte_length: usize,
}

impl Clone for SourceFile {
    fn clone(&self) -> (r: Self)
        ensures
            r.name() == self.name(),
            r.text() == self.text(),
            r.wf() == self.wf(),
    {
        SourceFile {
            path: copy_string(&self.path),
            source: copy_string(&self.source),
            line_starts: self.line_starts.clone(),
            chars: self.chars.clone(),
            char_starts: self.char_starts.clone(),
            byte_length: self.byte_length,
        }
    }
}

impl SourceFile {
    /// The source text.
    pub closed spec fn text(self) -> Seq<char> {
        self.source@
    }

    /// The file's path.
    pub closed spec fn name(self) -> Seq<char> {
        self.path@
    }

    /// The byte offsets at which lines start.
    pub open spec fn starts(self) -> Seq<int> {
        byte_line_starts(self.text())
    }

    pub closed spec fn wf(self) -> bool {
        &&& self.chars@ == self.source@
        &&& self.line_starts@.map_values(|x: usize| x as int) == byte_line_starts(self.source@)
        &&& self.char_starts@.map_values(|x: usize| x as int) == char_line_starts(self.source@)
        &&& self.byte_length as int == byte_len(self.source@)
    }

    /// Number of lines.
    pub open spec fn line_count(self) -> int {
        self.starts().len() as int
    }

    /// The text of 1-based line `line`, newline included.
    pub open spec fn spec_line_chars(self, line: int) -> Seq<char> {
        let cs = char_line_starts(self.text());
        let end = if line < cs.len() {
            cs[line]
        } else {
            self.text().len() as int
        };
        self.text().subrange(cs[line - 1], end)
    }

    /// The 1-based (line, column) of a byte offset.
    pub open spec fn spec_line_col(self, offset: int, line: int, col: int) -> bool {
        &&& holds_offset(self.starts(), line - 1, offset)
        &&& col == offset - self.starts()[line - 1] + 1
    }

    pub fn new(path: &str, source: &str) -> (sf: Self)
        requires
            byte_len(source@) < usize::MAX,
        ensures
            sf.wf(),
            sf.name() == path@,
            sf.text() == source@,
    {
        let chars = chars_of(source);
        let mut line_starts: Vec<usize> = Vec::new();
        let mut char_starts: Vec<usize> = Vec::new();
        line_starts.push(0);
        char_starts.push(0);
        let mut bytes: usize = 0;
        let mut i: usize = 0;
        proof {
            lemma_byte_len_mono(source@, 0, source@.len() as int);
            assert(source@.take(source@.len() as int) == source@);
            assert(source@.take(0) == Seq::<char>::empty());
        }
        while i < chars.len()
            invariant
                chars@ == source@,
                i <= chars.len(),
                byte_len(source@) < usize::MAX,
                bytes as int == byte_len(source@.take(i as int)),
                line_starts@.map_values(|x: usize| x as int) == byte_line_starts(
                    source@.take(i as int),
                ),
                char_starts@.map_values(|x: usize| x as int) == char_line_starts(
                    source@.take(i as int),
                ),
            decreases chars.len() - i,
        {
            let c = chars[i];
            let ghost prev = source@.take(i as int);
            proof {
                assert(source@.take(i + 1).drop_last() == prev);
                assert(source@.take(i + 1) == prev.push(c));
                lemma_byte_len_push(prev, c);
                lemma_byte_len_mono(source@, i + 1, source@.len() as int);
                assert(source@.take(source@.len() as int) == source@);
            }
            bytes = bytes + char_width(c);
            i = i + 1;
            if c == '\n' {
                line_starts.push(bytes);
                char_starts.push(i);
            }
            assert(line_starts@.map_values(|x: usize| x as int) =~= byte_line_starts(
                source@.take(i as int),
            ));
            assert(char_starts@.map_values(|x: usize| x as int) =~= char_line_starts(
                source@.take(i as int),
            ));
        }
        proof {
            assert(source@.take(i as int) == source@);
        }
        SourceFile {
            path: string_of_str(path),
            source: string_of_str(source),
            line_starts,
            chars,
            char_starts,
            byte_length: bytes,
        }
    }

    /// Returns (1-indexed line, 1-indexed column) for a byte offset.
    pub fn line_col(&self, offset: usize) -> (r: (usize, usize))
        requires
            self.wf(),
            offset < usize::MAX,
        ensures
            self.spec_line_col(offset as int, r.0 as int, r.1 as int),
    {
        proof {
            lemma_byte_line_starts(self.source@);
        }
        let line = find_line(&self.line_starts, offset, Ghost(byte_len(self.source@) as int));
        assert(self.line_starts@.map_values(|x: usize| x as int)[line as int]
            == self.line_starts@[line as int]);
        let ls = self.line_starts[line];
        assert(ls <= offset);
        let col = offset - ls + 1;
        let n = self.line_starts.len();
        assert(line < n);
        let l1 = line + 1;
        (l1, col)
    }

    /// The line reported for the offset after the first `p` characters is
    /// one more than the number of line feeds among them.
    pub proof fn law_line_counts_newlines(self, p: int, line: int, col: int)
        requires
            0 <= p <= self.text().len(),
            self.spec_line_col(byte_len(self.text().take(p)) as int, line, col),
        ensures
            line == newline_count(self.text().take(p)) + 1,
    {
        let s = self.text();
        lemma_line_of_prefix(s, p);
        lemma_byte_line_starts(s);
        lemma_holds_offset_unique(
            byte_line_starts(s),
            byte_len(s) as int,
            line - 1,
            newline_count(s.take(p)) as int,
            byte_len(s.take(p)) as int,
        );
    }

    /// Lines tile the text: the first starts at 0, each starts after the one
    /// before and no later than the end of the text, so that the range of a
    /// line (see `line_range`) ends where the next begins and the last ends
    /// with the text.
    pub proof fn law_lines_tile_text(self)
        ensures
            sorted_starts(self.starts(), byte_len(self.text()) as int),
            self.line_count() == newline_count(self.text()) + 1,
    {
        lemma_byte_line_starts(self.text());
        lemma_line_count_newlines(self.text());
    }

    /// The column reported for the offset after the first `p` characters
    /// counts bytes from the start of its line, from 1: the line starts
    /// just after the last line feed among those characters.
    pub proof fn law_column_counts_bytes_of_line(self, p: int, line: int, col: int)
        requires
            0 <= p <= self.text().len(),
            self.spec_line_col(byte_len(self.text().take(p)) as int, line, col),
        ensures
            col == byte_len(self.text().take(p)) - byte_len(
                self.text().take(last_line_start(self.text().take(p))),
            ) + 1,
    {
        let s = self.text();
        self.law_line_counts_newlines(p, line, col);
        lemma_start_of_prefix_line(s, p);
        lemma_char_line_starts(s);
    }

    /// Each line but the last ends with its one line feed, and the last
    /// holds none.
    pub proof fn law_line_holds_one_line_feed(self, line: int)
        requires
            1 <= line <= self.line_count(),
        ensures
            line < self.line_count() ==> {
                let t = self.spec_line_chars(line);
                &&& t.len() >= 1
                &&& t.last() == '\n'
                &&& forall|k: int| 0 <= k < t.len() - 1 ==> #[trigger] t[k] != '\n'
            },
            line == self.line_count() ==> forall|k: int|
                0 <= k < self.spec_line_chars(line).len() ==> #[trigger] self.spec_line_chars(
                    line,
                )[k] != '\n',
    {
        let s = self.text();
        let cs = char_line_starts(s);
        lemma_char_line_starts(s);
        let a = cs[line - 1];
        let t = self.spec_line_chars(line);
        assert forall|k: int|
            0 <= k < t.len() && (line < cs.len() ==> k < t.len() - 1) implies #[trigger] t[k]
            != '\n' by {
            if t[k] == '\n' {
                assert(t[k] == s[a + k]);
                lemma_newline_starts_line(s, a + k);
                let j = choose|j: int| 0 <= j < cs.len() && #[trigger] cs[j] == a + k + 1;
                if j <= line - 1 {
                    if j < line - 1 {
                        assert(cs[j] < cs[line - 1]);
                    }
                } else if line < cs.len() {
                    if j > line {
                        assert(cs[line] < cs[j]);
                    }
                }
            }
        }
        if line < cs.len() {
            assert(cs[line - 1] < cs[line]);
            assert(t.last() == s[cs[line] - 1]);
        }
    }

    /// Returns the byte range of a 1-indexed line (including newline).
    pub fn line_range(&self, line: usize) -> (r: std::ops::Range<usize>)
        requires
            self.wf(),
            1 <= line <= self.line_count(),
        ensures
            r.start == self.starts()[line - 1],
            r.end == (if line < self.line_count() {
                self.starts()[line as int]
            } else {
                byte_len(self.text()) as int
            }),
    {
        let start = self.line_starts[line - 1];
        let end = if line < self.line_starts.len() {
            self.line_starts[line]
        } else {
            self.byte_length
        };
        start..end
    }

    /// Returns the source text of a 1-indexed line, trimmed of trailing newline.
    pub fn line_text(&self, line: usize) -> (s: String)
        requires
            self.wf(),
            1 <= line <= self.line_count(),
        ensures
            s@ == trim_line_end(self.spec_line_chars(line as int)),
    {
        proof {
            lemma_char_line_starts(self.source@);
        }
        let start = self.char_starts[line - 1];
        let mut end = if line < self.char_starts.len() {
            self.char_starts[line]
        } else {
            self.chars.len()
        };
        assert(self.chars@.subrange(start as int, end as int) == self.spec_line_chars(
            line as int,
        ));
        while end > start && (self.chars[end - 1] == '\r' || self.chars[end - 1] == '\n')
            invariant
                self.wf(),
                start <= end <= self.chars.len(),
                trim_line_end(self.chars@.subrange(start as int, end as int)) == trim_line_end(
                    self.spec_line_chars(line as int),
                ),
            decreases end,
        {
            assert(self.chars@.subrange(start as int, end as int).drop_last()
                == self.chars@.subrange(start as int, end - 1));
            end = end - 1;
        }
        let mut s = String::new();
        push_chars(&mut s, &self.chars, start, end);
        s
    }

    /// The text of `format_error`.
    pub open spec fn spec_format_error(
        self,
        code: Seq<char>,
        message: Seq<char>,
        sl: nat,
        sc: nat,
        el: nat,
        ec: nat,
    ) -> Seq<char> {
        let gutter = pad4(sl) + " | "@;
        let caret_len: nat = if el == sl && ec > sc {
            (ec - sc) as nat
        } else {
            1
        };
        "error["@ + code + "]: "@ + message + "\n --> "@ + self.name() + ":"@ + decimal(sl)
            + ":"@ + decimal(sc) + "\n"@ + gutter + trim_line_end(self.spec_line_chars(sl as int))
            + "\n"@ + repeat(' ', (gutter.len() + sc - 1) as nat) + repeat('^', caret_len)
    }

    /// Format an error with source context and caret pointing to the error location.
    pub fn format_error(&self, code: &str, message: &str, span: Span) -> (out: String)
        requires
            self.wf(),
            span.start < usize::MAX - 64,
            span.end < usize::MAX - 64,
        ensures
            exists|sl: nat, sc: nat, el: nat, ec: nat|
                self.spec_line_col(span.start as int, sl as int, sc as int)
                    && self.spec_line_col(span.end as int, el as int, ec as int) && out@
                    == self.spec_format_error(code@, message@, sl, sc, el, ec),
    {
        let (start_line, start_col) = self.line_col(span.start);
        let (end_line, end_col) = self.line_col(span.end);
        let text = self.line_text(start_line);
        let mut out = String::new();
        out.push_str("error[");
        out.push_str(code);
        out.push_str("]: ");
        out.push_str(message);
        out.push_str("\n --> ");
        out.push_str(self.path.as_str());
        out.push_str(":");
        push_decimal(&mut out, start_line);
        out.push_str(":");
        push_decimal(&mut out, start_col);
        let dl = decimal_len(start_line);
        proof {
            lemma_decimal_len_usize(start_line);
        }
        let pad: usize = if dl < 4 {
            4 - dl
        } else {
            0
        };
        let gutter_len = pad + dl + 3;
        let ghost before = out@;
        out.push_str("\n");
        push_repeat(&mut out, ' ', pad);
        push_decimal(&mut out, start_line);
        out.push_str(" | ");
        proof {
            reveal_strlit(" | ");
            lemma_repeat_len(' ', pad as nat);
            let gutter = pad4(start_line as nat) + " | "@;
            assert(gutter.len() == gutter_len);
            assert(out@ == before + "\n"@ + gutter);
        }
        out.push_str(text.as_str());
        let caret_col = start_col - 1;
        let caret_len = if end_line == start_line && end_col > start_col {
            end_col - start_col
        } else {
            1
        };
        out.push_str("\n");
        push_repeat(&mut out, ' ', gutter_len + caret_col);
        push_repeat(&mut out, '^', caret_len);
        assert(out@ == self.spec_format_error(
            code@,
            message@,
            start_line as nat,
            start_col as nat,
            end_line as nat,
            end_col as nat,
        ));
        out
    }
}

} // verus!
