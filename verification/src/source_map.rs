//! Source maps (version 3): mappings from generated positions to original
//! positions, serialized with base64 VLQ deltas.
use vstd::prelude::*;

use crate::diagnostic::{
    byte_line_starts, find_line, holds_offset, lemma_byte_line_starts, sorted_starts,
};
use crate::text::{byte_len, chars_of, lemma_byte_len_mono, lemma_byte_len_push, char_width,
    repeat, string_of_str,
};
use crate::token::Span;

verus! {

/// Positions and deltas in a source map stay below this bound, so that the
/// signed deltas and their doubled VLQ magnitudes fit in 64 bits.
pub const POSITION_LIMIT: u64 = 0x4000_0000_0000_0000;

/// The base64 digit for a value below 64.
pub open spec fn base64_digit(d: nat) -> char {
    if d < 26 {
        (('A' as nat) + d) as char
    } else if d < 52 {
        (('a' as nat) + (d - 26)) as char
    } else if d < 62 {
        (('0' as nat) + (d - 52)) as char
    } else if d == 62 {
        '+'
    } else {
        '/'
    }
}

/// Base64 VLQ digits of a non-negative value: five bits per digit, least
/// significant first, with bit 5 set on every digit but the last.
pub open spec fn vlq_digits(n: nat) -> Seq<char>
    decreases n,
{
    if n < 32 {
        seq![base64_digit(n)]
    } else {
        seq![base64_digit(n % 32 + 32)] + vlq_digits(n / 32)
    }
}

/// The VLQ encoding of a signed value: the magnitude shifted left by one,
/// with the sign in the lowest bit.
pub open spec fn vlq(v: int) -> Seq<char> {
    if v < 0 {
        vlq_digits((2 * (-v) + 1) as nat)
    } else {
        vlq_digits((2 * v) as nat)
    }
}

/// The value of a base64 digit (0 for a character that is none).
pub open spec fn base64_value(c: char) -> nat {
    if 'A' <= c && c <= 'Z' {
        (c as nat - 'A' as nat) as nat
    } else if 'a' <= c && c <= 'z' {
        (c as nat - 'a' as nat + 26) as nat
    } else if '0' <= c && c <= '9' {
        (c as nat - '0' as nat + 52) as nat
    } else if c == '+' {
        62
    } else if c == '/' {
        63
    } else {
        0
    }
}

/// The value that VLQ digits spell: each digit gives five bits, least
/// significant first, and a digit without the continuation bit ends it.
pub open spec fn vlq_digits_value(s: Seq<char>) -> nat
    decreases s.len(),
{
    if s.len() == 0 {
        0
    } else {
        let d = base64_value(s[0]);
        if d >= 32 {
            ((d - 32) + 32 * vlq_digits_value(s.drop_first())) as nat
        } else {
            d
        }
    }
}

/// The signed value of VLQ digits: the lowest bit is the sign.
pub open spec fn vlq_value(s: Seq<char>) -> int {
    let n = vlq_digits_value(s);
    if n % 2 == 1 {
        -((n / 2) as int)
    } else {
        (n / 2) as int
    }
}

proof fn lemma_base64_round_trip(d: nat)
    requires
        d < 64,
    ensures
        base64_value(base64_digit(d)) == d,
{
}

proof fn lemma_vlq_digits_round_trip(n: nat)
    ensures
        vlq_digits_value(vlq_digits(n)) == n,
        vlq_digits(n).len() >= 1,
    decreases n,
{
    if n < 32 {
        lemma_base64_round_trip(n);
    } else {
        lemma_base64_round_trip(n % 32 + 32);
        lemma_vlq_digits_round_trip(n / 32);
        let s = vlq_digits(n);
        assert(s.drop_first() =~= vlq_digits(n / 32));
        assert(n == n % 32 + 32 * (n / 32)) by (nonlinear_arith);
    }
}

/// Decoding the VLQ encoding of a value gives the value back; every digit
/// but the last carries the continuation bit.
pub proof fn law_vlq_round_trip(v: int)
    ensures
        vlq_value(vlq(v)) == v,
        forall|i: int|
            0 <= i < vlq(v).len() ==> (base64_value(#[trigger] vlq(v)[i]) >= 32 <==> i < vlq(v).len()
                - 1),
{
    let n: nat = if v < 0 {
        (2 * (-v) + 1) as nat
    } else {
        (2 * v) as nat
    };
    lemma_vlq_digits_round_trip(n);
    lemma_vlq_continuation(n);
}

proof fn lemma_vlq_continuation(n: nat)
    ensures
        forall|i: int|
            0 <= i < vlq_digits(n).len() ==> (base64_value(#[trigger] vlq_digits(n)[i]) >= 32
                <==> i < vlq_digits(n).len() - 1),
    decreases n,
{
    if n < 32 {
        lemma_base64_round_trip(n);
    } else {
        lemma_base64_round_trip(n % 32 + 32);
        lemma_vlq_continuation(n / 32);
        lemma_vlq_digits_round_trip(n / 32);
        let s = vlq_digits(n);
        let t = vlq_digits(n / 32);
        assert forall|i: int| 0 <= i < s.len() implies (base64_value(#[trigger] s[i]) >= 32 <==> i
            < s.len() - 1) by {
            if i > 0 {
                assert(s[i] == t[i - 1]);
            }
        }
    }
}

fn base64_char(d: u64) -> (c: char)
    requires
        d < 64,
    ensures
        c == base64_digit(d as nat),
{
    if d < 26 {
        ((65 + d) as u8) as char
    } else if d < 52 {
        ((97 + (d - 26)) as u8) as char
    } else if d < 62 {
        ((48 + (d - 52)) as u8) as char
    } else if d == 62 {
        '+'
    } else {
        '/'
    }
}

fn push_vlq_digits(out: &mut String, n: u64)
    ensures
        final(out)@ == old(out)@ + vlq_digits(n as nat),
    decreases n,
{
    let digit = n % 32;
    let rest = n / 32;
    if rest > 0 {
        out.push(base64_char(digit + 32));
        let ghost mid = out@;
        push_vlq_digits(out, rest);
        assert(out@ == old(out)@ + vlq_digits(n as nat));
    } else {
        out.push(base64_char(digit));
    }
}

/// Base64 VLQ encoding of a signed value.
pub fn vlq_encode(value: i64) -> (s: String)
    requires
        -(POSITION_LIMIT as int) < value < POSITION_LIMIT as int,
    ensures
        s@ == vlq(value as int),
{
    let mut s = String::new();
    let v: u64 = if value < 0 {
        ((-value) as u64) * 2 + 1
    } else {
        (value as u64) * 2
    };
    push_vlq_digits(&mut s, v);
    s
}

/// How a character stands inside a JSON string.
pub open spec fn json_char(c: char) -> Seq<char> {
    if c == '"' {
        seq!['\\', '"']
    } else if c == '\\' {
        seq!['\\', '\\']
    } else if c == '\n' {
        seq!['\\', 'n']
    } else if c == '\r' {
        seq!['\\', 'r']
    } else if c == '\t' {
        seq!['\\', 't']
    } else {
        seq![c]
    }
}

/// `s` escaped to stand inside a JSON string.
pub open spec fn json_escaped(s: Seq<char>) -> Seq<char>
    decreases s.len(),
{
    if s.len() == 0 {
        Seq::empty()
    } else {
        json_escaped(s.drop_last()) + json_char(s.last())
    }
}

/// Appends `t` escaped to stand inside a JSON string.
pub fn push_json_escaped(out: &mut String, t: &str)
    ensures
        final(out)@ == old(out)@ + json_escaped(t@),
{
    let cs = crate::text::chars_of(t);
    let ghost o = out@;
    let mut i: usize = 0;
    while i < cs.len()
        invariant
            i <= cs.len(),
            cs@ == t@,
            out@ == o + json_escaped(cs@.take(i as int)),
        decreases cs.len() - i,
    {
        let c = cs[i];
        assert(cs@.take(i + 1).drop_last() =~= cs@.take(i as int));
        let ghost b = out@;
        if c == '"' {
            out.push('\\');
            out.push('"');
        } else if c == '\\' {
            out.push('\\');
            out.push('\\');
        } else if c == '\n' {
            out.push('\\');
            out.push('n');
        } else if c == '\r' {
            out.push('\\');
            out.push('r');
        } else if c == '\t' {
            out.push('\\');
            out.push('t');
        } else {
            out.push(c);
        }
        assert(out@ =~= b + json_char(c));
        i += 1;
    }
    assert(cs@.take(cs.len() as int) =~= t@);
}

/// Encoder state after some mappings: the text so far and the previous
/// generated line, generated column, original line and original column.
pub type EncodeState = (Seq<char>, int, int, int, int);

/// One step of `encode_mappings`.
pub open spec fn encode_step(st: EncodeState, m: (int, int, int, int)) -> EncodeState {
    let (r, pl, pc, ol, oc) = st;
    let (gl, gc, mol, moc) = m;
    let r1 = if gl > pl {
        r + repeat(';', (gl - pl) as nat)
    } else {
        r
    };
    let pl1 = if gl > pl {
        gl
    } else {
        pl
    };
    let pc1 = if gl > pl {
        0
    } else {
        pc
    };
    let r2 = if r.len() > 0 && gl <= pl {
        r1.push(',')
    } else {
        r1
    };
    (r2 + vlq(gc - pc1) + vlq(0) + vlq(mol - ol) + vlq(moc - oc), pl1, gc, mol, moc)
}

/// The encoder state after all of `ms`.
pub open spec fn encode_state(ms: Seq<(int, int, int, int)>) -> EncodeState
    decreases ms.len(),
{
    if ms.len() == 0 {
        (Seq::empty(), 0, 0, 0, 0)
    } else {
        encode_step(encode_state(ms.drop_last()), ms.last())
    }
}

/// The `mappings` field of a source map for `ms`.
pub open spec fn encode_mappings_spec(ms: Seq<(int, int, int, int)>) -> Seq<char> {
    encode_state(ms).0
}

pub open spec fn bounded(m: (int, int, int, int)) -> bool {
    &&& 0 <= m.0 < POSITION_LIMIT
    &&& 0 <= m.1 < POSITION_LIMIT
    &&& 0 <= m.2 < POSITION_LIMIT
    &&& 0 <= m.3 < POSITION_LIMIT
}

#[derive(Clone, Copy)]
struct Mapping {
    gen_line: usize,
    gen_col: usize,
    orig_line: usize,
    orig_col: usize,
}

impl Mapping {
    spec fn view(self) -> (int, int, int, int) {
        (self.gen_line as int, self.gen_col as int, self.orig_line as int, self.orig_col as int)
    }
}

pub struct SourceMap {
    source_name: String,
    line_starts: Vec<usize>,
    mappings: Vec<Mapping>,
    text: Ghost<Seq<char>>,
}

impl SourceMap {
    /// The text of the original source.
    pub closed spec fn text(self) -> Seq<char> {
        self.text@
    }

    /// The name of the original source.
    pub closed spec fn name(self) -> Seq<char> {
        self.source_name@
    }

    /// The recorded mappings: (generated line, generated column, original
    /// line, original column), all 0-based, in the order they were added.
    pub closed spec fn mappings(self) -> Seq<(int, int, int, int)> {
        self.mappings@.map_values(|m: Mapping| m.view())
    }

    pub closed spec fn wf(self) -> bool {
        &&& self.line_starts@.map_values(|x: usize| x as int) == byte_line_starts(self.text@)
        &&& forall|i: int| 0 <= i < self.mappings().len() ==> bounded(#[trigger] self.mappings()[i])
    }

    /// The 0-based (line, column) of a byte offset of the original source.
    pub open spec fn spec_line_col(self, offset: int, line: int, col: int) -> bool {
        &&& holds_offset(byte_line_starts(self.text()), line, offset)
        &&& col == offset - byte_line_starts(self.text())[line]
    }

    pub fn new(source_text: &str, source_name: &str) -> (sm: Self)
        requires
            byte_len(source_text@) < usize::MAX,
        ensures
            sm.wf(),
            sm.text() == source_text@,
            sm.name() == source_name@,
            sm.mappings() == Seq::<(int, int, int, int)>::empty(),
    {
        let chars = chars_of(source_text);
        let mut line_starts: Vec<usize> = Vec::new();
        line_starts.push(0);
        let mut bytes: usize = 0;
        let mut i: usize = 0;
        proof {
            assert(source_text@.take(0) == Seq::<char>::empty());
        }
        while i < chars.len()
            invariant
                chars@ == source_text@,
                i <= chars.len(),
                byte_len(source_text@) < usize::MAX,
                bytes as int == byte_len(source_text@.take(i as int)),
                line_starts@.map_values(|x: usize| x as int) == byte_line_starts(
                    source_text@.take(i as int),
                ),
            decreases chars.len() - i,
        {
            let c = chars[i];
            let ghost prev = source_text@.take(i as int);
            proof {
                assert(source_text@.take(i + 1).drop_last() == prev);
                assert(source_text@.take(i + 1) == prev.push(c));
                lemma_byte_len_push(prev, c);
                lemma_byte_len_mono(source_text@, i + 1, source_text@.len() as int);
                assert(source_text@.take(source_text@.len() as int) == source_text@);
            }
            bytes = bytes + char_width(c);
            i = i + 1;
            if c == '\n' {
                line_starts.push(bytes);
            }
            assert(line_starts@.map_values(|x: usize| x as int) =~= byte_line_starts(
                source_text@.take(i as int),
            ));
        }
        proof {
            assert(source_text@.take(i as int) == source_text@);
        }
        let sm = SourceMap {
            source_name: string_of_str(source_name),
            line_starts,
            mappings: Vec::new(),
            text: Ghost(source_text@),
        };
        assert(sm.mappings() =~= Seq::<(int, int, int, int)>::empty());
        sm
    }

    /// Convert byte offset to (line, col) — both 0-based.
    pub fn byte_to_line_col(&self, offset: usize) -> (r: (usize, usize))
        requires
            self.wf(),
        ensures
            self.spec_line_col(offset as int, r.0 as int, r.1 as int),
    {
        proof {
            lemma_byte_line_starts(self.text@);
        }
        let line = find_line(&self.line_starts, offset, Ghost(byte_len(self.text@) as int));
        let n = self.line_starts.len();
        assert(line < n);
        assert(self.line_starts@.map_values(|x: usize| x as int)[line as int]
            == self.line_starts@[line as int]);
        (line, offset - self.line_starts[line])
    }

    /// Record a mapping from generated position to source span.
    /// Generated position is passed directly (line/col 0-based).
    pub fn add_mapping(&mut self, gen_line: usize, gen_col: usize, span: Span)
        requires
            old(self).wf(),
            gen_line < POSITION_LIMIT,
            gen_col < POSITION_LIMIT,
            span.start < POSITION_LIMIT,
        ensures
            final(self).wf(),
            final(self).text() == old(self).text(),
            final(self).name() == old(self).name(),
            exists|l: int, c: int|
                old(self).spec_line_col(span.start as int, l, c) && final(self).mappings()
                    == old(self).mappings().push((gen_line as int, gen_col as int, l, c)),
    {
        let (orig_line, orig_col) = self.byte_to_line_col(span.start);
        proof {
            lemma_byte_line_starts(self.text@);
            let st = byte_line_starts(self.text@);
            // Line starts increase strictly from 0, so line k starts at k or later.
            assert forall|k: int| 0 <= k < st.len() implies k <= #[trigger] st[k] by {
                lemma_starts_at_least_index(st, byte_len(self.text@) as int, k);
            }
        }
        let m = Mapping { gen_line, gen_col, orig_line, orig_col };
        let ghost old_ms = self.mappings();
        self.mappings.push(m);
        assert(self.mappings() =~= old_ms.push(m.view()));
    }

    /// Serialize to source map JSON (v3 spec).
    pub fn to_json(&self, generated_file: &str) -> (s: String)
        requires
            self.wf(),
        ensures
            s@ == "{\"version\":3,\"file\":\""@ + json_escaped(generated_file@) + "\",\"sources\":[\""@
                + json_escaped(self.name()) + "\"],\"names\":[],\"mappings\":\""@ + encode_mappings_spec(
                self.mappings(),
            ) + "\"}"@,
    {
        assert forall|i: int| 0 <= i < self.mappings@.len() implies bounded(
            #[trigger] self.mappings@[i].view(),
        ) by {
            assert(self.mappings()[i] == self.mappings@[i].view());
        }
        let encoded = Self::encode_mappings(&self.mappings);
        let mut s = String::new();
        s.push_str("{\"version\":3,\"file\":\"");
        push_json_escaped(&mut s, generated_file);
        s.push_str("\",\"sources\":[\"");
        push_json_escaped(&mut s, self.source_name.as_str());
        s.push_str("\"],\"names\":[],\"mappings\":\"");
        s.push_str(encoded.as_str());
        s.push_str("\"}");
        s
    }

    fn encode_mappings(mappings: &Vec<Mapping>) -> (s: String)
        requires
            forall|i: int| 0 <= i < mappings@.len() ==> bounded(#[trigger] mappings@[i].view()),
        ensures
            s@ == encode_mappings_spec(mappings@.map_values(|m: Mapping| m.view())),
    {
        let ghost ms = mappings@.map_values(|m: Mapping| m.view());
        let mut result = String::new();
        let mut prev_gen_line: usize = 0;
        let mut prev_gen_col: usize = 0;
        let mut prev_orig_line: usize = 0;
        let mut prev_orig_col: usize = 0;
        let mut i: usize = 0;
        while i < mappings.len()
            invariant
                ms == mappings@.map_values(|m: Mapping| m.view()),
                forall|k: int| 0 <= k < mappings@.len() ==> bounded(#[trigger] mappings@[k].view()),
                i <= mappings.len(),
                encode_state(ms.take(i as int)) == (
                    result@,
                    prev_gen_line as int,
                    prev_gen_col as int,
                    prev_orig_line as int,
                    prev_orig_col as int,
                ),
                prev_gen_line < POSITION_LIMIT,
                prev_gen_col < POSITION_LIMIT,
                prev_orig_line < POSITION_LIMIT,
                prev_orig_col < POSITION_LIMIT,
            decreases mappings.len() - i,
        {
            let m = mappings[i];
            assert(bounded(mappings@[i as int].view()));
            let ghost st0 = (
                result@,
                prev_gen_line as int,
                prev_gen_col as int,
                prev_orig_line as int,
                prev_orig_col as int,
            );
            let ghost r0 = result@;
            let r0_empty = result.as_str().is_empty();
            let advanced = prev_gen_line < m.gen_line;
            let ghost pl0 = prev_gen_line;
            let ghost pc0 = prev_gen_col;
            while prev_gen_line < m.gen_line
                invariant
                    pl0 <= prev_gen_line <= m.gen_line || prev_gen_line == pl0,
                    m.gen_line < POSITION_LIMIT,
                    pl0 < m.gen_line ==> pl0 <= prev_gen_line <= m.gen_line,
                    pl0 < m.gen_line ==> result@ == r0 + repeat(
                        ';',
                        (prev_gen_line - pl0) as nat,
                    ),
                    pl0 < m.gen_line && prev_gen_line > pl0 ==> prev_gen_col == 0,
                    pl0 >= m.gen_line ==> result@ == r0 && prev_gen_line == pl0 && prev_gen_col
                        == pc0,
                    prev_gen_col < POSITION_LIMIT,
                decreases m.gen_line - prev_gen_line,
            {
                result.push(';');
                prev_gen_line += 1;
                prev_gen_col = 0;
            }
            let ghost r1 = result@;
            if !r0_empty && !advanced {
                result.push(',');
            }
            let ghost r2 = result@;
            proof {
                let (r, pl, pc, ol, oc) = st0;
                let (gl, gc, mol, moc) = m.view();
                let rr1 = if gl > pl {
                    r + repeat(';', (gl - pl) as nat)
                } else {
                    r
                };
                assert(r1 == rr1);
                let pl1 = if gl > pl {
                    gl
                } else {
                    pl
                };
                assert(prev_gen_line == pl1);
                assert(prev_gen_col == (if gl > pl {
                    0
                } else {
                    pc
                }));
                assert(r2 == (if r.len() > 0 && gl <= pl {
                    rr1.push(',')
                } else {
                    rr1
                }));
            }
            let e1 = vlq_encode(m.gen_col as i64 - prev_gen_col as i64);
            result.push_str(e1.as_str());
            let e2 = vlq_encode(0);
            result.push_str(e2.as_str());
            let e3 = vlq_encode(m.orig_line as i64 - prev_orig_line as i64);
            result.push_str(e3.as_str());
            let e4 = vlq_encode(m.orig_col as i64 - prev_orig_col as i64);
            result.push_str(e4.as_str());
            prev_gen_col = m.gen_col;
            prev_orig_line = m.orig_line;
            prev_orig_col = m.orig_col;
            i += 1;
            proof {
                assert(ms.take(i as int).drop_last() == ms.take(i - 1));
                assert(ms.take(i as int).last() == m.view());
                assert(encode_state(ms.take(i as int)) == encode_step(st0, m.view()));
            }
        }
        assert(ms.take(i as int) == ms);
        result
    }
}

/// In a strictly increasing sequence of naturals that starts at 0, the
/// element at index `k` is at least `k`.
pub proof fn lemma_starts_at_least_index(st: Seq<int>, bound: int, k: int)
    requires
        sorted_starts(st, bound),
        0 <= k < st.len(),
    ensures
        k <= st[k],
    decreases k,
{
    if k > 0 {
        lemma_starts_at_least_index(st, bound, k - 1);
        assert(st[k - 1] < st[k]);
    }
}

/// Diagnostics and source maps agree on positions: over the same text, a
/// diagnostic's 1-based (line, column) of an offset is the source map's
/// 0-based one plus one in each.
pub proof fn law_positions_agree(
    sf: crate::diagnostic::SourceFile,
    sm: SourceMap,
    offset: int,
    line: int,
    col: int,
)
    requires
        sf.text() == sm.text(),
    ensures
        sf.spec_line_col(offset, line + 1, col + 1) <==> sm.spec_line_col(offset, line, col),
{
}

// ── Reading a mappings field back ───────────────────────────────────────
/// A separator of a mappings field: `;` ends a generated line, `,` ends a
/// segment within one.
pub open spec fn is_map_sep(c: char) -> bool {
    c == ';' || c == ','
}

/// Length of the run of non-separators at the end of `s`.
pub open spec fn trailing_segment_len(s: Seq<char>) -> nat
    decreases s.len(),
{
    if s.len() == 0 || is_map_sep(s.last()) {
        0
    } else {
        trailing_segment_len(s.drop_last()) + 1
    }
}

/// The pieces of a mappings field, in order: each separator on its own,
/// and each maximal run of other characters (a segment).
pub open spec fn map_pieces(s: Seq<char>) -> Seq<Seq<char>>
    decreases s.len(),
{
    if s.len() == 0 {
        Seq::empty()
    } else if is_map_sep(s.last()) {
        map_pieces(s.drop_last()).push(seq![s.last()])
    } else {
        let n = trailing_segment_len(s);
        if 0 < n <= s.len() {
            map_pieces(s.take(s.len() - n)).push(s.skip(s.len() - n))
        } else {
            Seq::empty()
        }
    }
}

/// How many characters the VLQ value at the start of `s` takes: up to and
/// including the first digit without the continuation bit.
pub open spec fn vlq_len(s: Seq<char>) -> nat
    decreases s.len(),
{
    if s.len() == 0 {
        0
    } else if base64_value(s[0]) >= 32 {
        1 + vlq_len(s.drop_first())
    } else {
        1
    }
}

/// The VLQ values a segment holds, read one after another.
pub open spec fn segment_fields(s: Seq<char>) -> Seq<int>
    decreases s.len(),
{
    let n = vlq_len(s);
    if 0 < n <= s.len() {
        seq![vlq_value(s.take(n as int))] + segment_fields(s.skip(n as int))
    } else {
        Seq::empty()
    }
}

/// The decoder\'s state: the mappings read so far, the generated line, and
/// the previous generated column, original line and original column.
pub type DecodeState = (Seq<(int, int, int, int)>, int, int, int, int);

/// Reads one piece: `;` moves to the next generated line (columns count
/// from 0 again), `,` does nothing, and a segment of four fields adds the
/// mapping its relative fields give (the second field, the source index,
/// is not used: there is one source).
pub open spec fn decode_piece(st: DecodeState, p: Seq<char>) -> DecodeState {
    let (ms, line, gc, ol, oc) = st;
    if p == seq![';'] {
        (ms, line + 1, 0, ol, oc)
    } else if p == seq![','] {
        st
    } else {
        let f = segment_fields(p);
        if f.len() == 4 {
            let m = (line, gc + f[0], ol + f[2], oc + f[3]);
            (ms.push(m), line, m.1, m.2, m.3)
        } else {
            st
        }
    }
}

/// Reads pieces in order from the start of a field.
pub open spec fn decode_pieces(ps: Seq<Seq<char>>) -> DecodeState
    decreases ps.len(),
{
    if ps.len() == 0 {
        (Seq::empty(), 0, 0, 0, 0)
    } else {
        decode_piece(decode_pieces(ps.drop_last()), ps.last())
    }
}

/// The mappings a `mappings` field gives back, read as source map v3 says.
pub open spec fn decode_mappings(text: Seq<char>) -> Seq<(int, int, int, int)> {
    decode_pieces(map_pieces(text)).0
}

proof fn lemma_digit_not_sep(d: nat)
    requires
        d < 64,
    ensures
        !is_map_sep(base64_digit(d)),
{
}

proof fn lemma_vlq_digits_no_sep(n: nat)
    ensures
        forall|i: int| 0 <= i < vlq_digits(n).len() ==> !is_map_sep(#[trigger] vlq_digits(n)[i]),
    decreases n,
{
    if n < 32 {
        lemma_digit_not_sep(n);
    } else {
        lemma_digit_not_sep(n % 32 + 32);
        lemma_vlq_digits_no_sep(n / 32);
        let s = vlq_digits(n);
        let t = vlq_digits(n / 32);
        assert forall|i: int| 0 <= i < s.len() implies !is_map_sep(#[trigger] s[i]) by {
            if i > 0 {
                assert(s[i] == t[i - 1]);
            }
        }
    }
}

proof fn lemma_vlq_no_sep(v: int)
    ensures
        forall|i: int| 0 <= i < vlq(v).len() ==> !is_map_sep(#[trigger] vlq(v)[i]),
        vlq(v).len() >= 1,
{
    let n: nat = if v < 0 {
        (2 * (-v) + 1) as nat
    } else {
        (2 * v) as nat
    };
    lemma_vlq_digits_no_sep(n);
    lemma_vlq_digits_round_trip(n);
}

/// Digits whose continuation bits mark all but the last are read as one
/// value, whatever follows.
proof fn lemma_vlq_len_of(d: Seq<char>, rest: Seq<char>)
    requires
        d.len() >= 1,
        forall|i: int| 0 <= i < d.len() ==> (base64_value(#[trigger] d[i]) >= 32 <==> i < d.len() - 1),
    ensures
        vlq_len(d + rest) == d.len(),
    decreases d.len(),
{
    if d.len() > 1 {
        let t = d.drop_first();
        assert forall|i: int| 0 <= i < t.len() implies (base64_value(#[trigger] t[i]) >= 32 <==> i
            < t.len() - 1) by {
            assert(t[i] == d[i + 1]);
        }
        lemma_vlq_len_of(t, rest);
        assert((d + rest).drop_first() =~= t + rest);
        assert((d + rest)[0] == d[0]);
    } else {
        assert((d + rest)[0] == d[0]);
    }
}

proof fn lemma_read_vlq(v: int, rest: Seq<char>)
    ensures
        segment_fields(vlq(v) + rest) == seq![v] + segment_fields(rest),
{
    law_vlq_round_trip(v);
    let d = vlq(v);
    lemma_vlq_no_sep(v);
    lemma_vlq_len_of(d, rest);
    assert((d + rest).take(d.len() as int) =~= d);
    assert((d + rest).skip(d.len() as int) =~= rest);
}

proof fn lemma_segment_fields(a: int, b: int, c: int)
    ensures
        segment_fields(vlq(a) + vlq(0) + vlq(b) + vlq(c)) == seq![a, 0, b, c],
{
    let e: Seq<char> = Seq::empty();
    assert(segment_fields(e) == Seq::<int>::empty());
    lemma_read_vlq(c, e);
    assert(vlq(c) + e =~= vlq(c));
    lemma_read_vlq(b, vlq(c));
    lemma_read_vlq(0, vlq(b) + vlq(c));
    lemma_read_vlq(a, vlq(0) + (vlq(b) + vlq(c)));
    assert(vlq(a) + vlq(0) + vlq(b) + vlq(c) =~= vlq(a) + (vlq(0) + (vlq(b) + vlq(c))));
    assert(seq![a] + (seq![0] + (seq![b] + (seq![c] + Seq::<int>::empty()))) =~= seq![a, 0, b, c]);
}

proof fn lemma_trailing_len(x: Seq<char>, seg: Seq<char>)
    requires
        forall|i: int| 0 <= i < seg.len() ==> !is_map_sep(#[trigger] seg[i]),
        x.len() == 0 || is_map_sep(x.last()),
    ensures
        trailing_segment_len(x + seg) == seg.len(),
    decreases seg.len(),
{
    if seg.len() == 0 {
        assert(x + seg =~= x);
    } else {
        lemma_trailing_len(x, seg.drop_last());
        assert((x + seg).drop_last() =~= x + seg.drop_last());
        assert((x + seg).last() == seg.last());
    }
}

proof fn lemma_pieces_segment(x: Seq<char>, seg: Seq<char>)
    requires
        seg.len() >= 1,
        forall|i: int| 0 <= i < seg.len() ==> !is_map_sep(#[trigger] seg[i]),
        x.len() == 0 || is_map_sep(x.last()),
    ensures
        map_pieces(x + seg) == map_pieces(x).push(seg),
{
    lemma_trailing_len(x, seg);
    assert((x + seg).last() == seg.last());
    assert((x + seg).take(x.len() as int) =~= x);
    assert((x + seg).skip(x.len() as int) =~= seg);
}

proof fn lemma_pieces_sep(x: Seq<char>, c: char)
    requires
        is_map_sep(c),
    ensures
        map_pieces(x.push(c)) == map_pieces(x).push(seq![c]),
{
    assert(x.push(c).drop_last() =~= x);
}

proof fn lemma_decode_push(ps: Seq<Seq<char>>, p: Seq<char>)
    ensures
        decode_pieces(ps.push(p)) == decode_piece(decode_pieces(ps), p),
{
    assert(ps.push(p).drop_last() =~= ps);
}

/// Reading `n` line ends moves `n` lines on, with columns from 0.
proof fn lemma_decode_line_ends(x: Seq<char>, n: nat)
    requires
        n >= 1,
    ensures
        ({
            let st = decode_pieces(map_pieces(x));
            decode_pieces(map_pieces(x + repeat(';', n))) == (st.0, st.1 + n, 0int, st.3, st.4)
        }),
    decreases n,
{
    let y = x + repeat(';', (n - 1) as nat);
    assert(x + repeat(';', n) =~= y.push(';'));
    lemma_pieces_sep(y, ';');
    lemma_decode_push(map_pieces(y), seq![';']);
    if n > 1 {
        lemma_decode_line_ends(x, (n - 1) as nat);
    } else {
        assert(y =~= x);
    }
}

/// Reading back the encoding of mappings in order of generated line gives
/// the encoder\'s own state.
proof fn lemma_decode_encode(ms: Seq<(int, int, int, int)>)
    requires
        forall|k: int| 0 <= k < ms.len() ==> #[trigger] ms[k].0 >= 0,
        forall|j: int, k: int| 0 <= j < k < ms.len() ==> ms[j].0 <= ms[k].0,
    ensures
        ({
            let st = encode_state(ms);
            &&& decode_pieces(map_pieces(st.0)) == (ms, st.1, st.2, st.3, st.4)
            &&& st.1 == (if ms.len() == 0 {
                0
            } else {
                ms.last().0
            })
            &&& (st.0.len() == 0 <==> ms.len() == 0)
        }),
    decreases ms.len(),
{
    if ms.len() > 0 {
        let p = ms.drop_last();
        let m = ms.last();
        lemma_decode_encode(p);
        let st = encode_state(p);
        let (r, pl, pc, ol, oc) = st;
        let (gl, gc, mol, moc) = m;
        if p.len() > 0 {
            assert(p.last() == ms[ms.len() - 2]);
        }
        assert(gl >= pl);
        let pc1 = if gl > pl {
            0
        } else {
            pc
        };
        let r2 = if gl > pl {
            r + repeat(';', (gl - pl) as nat)
        } else if r.len() > 0 {
            r.push(',')
        } else {
            r
        };
        let seg = vlq(gc - pc1) + vlq(0) + vlq(mol - ol) + vlq(moc - oc);
        assert(encode_state(ms) == encode_step(st, m));
        assert(encode_state(ms).0 == r2 + seg);
        lemma_vlq_no_sep(gc - pc1);
        lemma_vlq_no_sep(0);
        lemma_vlq_no_sep(mol - ol);
        lemma_vlq_no_sep(moc - oc);
        assert forall|i: int| 0 <= i < seg.len() implies !is_map_sep(#[trigger] seg[i]) by {
            let a = vlq(gc - pc1);
            let b = vlq(0);
            let c = vlq(mol - ol);
            let d = vlq(moc - oc);
            if i < a.len() {
                assert(seg[i] == a[i]);
            } else if i < a.len() + b.len() {
                assert(seg[i] == b[i - a.len()]);
            } else if i < a.len() + b.len() + c.len() {
                assert(seg[i] == c[i - a.len() - b.len()]);
            } else {
                assert(seg[i] == d[i - a.len() - b.len() - c.len()]);
            }
        }
        let before = decode_pieces(map_pieces(r2));
        if gl > pl {
            lemma_decode_line_ends(r, (gl - pl) as nat);
            let rep = repeat(';', (gl - pl) as nat);
            assert(rep == repeat(';', (gl - pl - 1) as nat).push(';'));
            assert(r2.last() == rep.last());
            assert(r2.last() == ';');
        } else if r.len() > 0 {
            lemma_pieces_sep(r, ',');
            lemma_decode_push(map_pieces(r), seq![',']);
            assert(seq![','] != seq![';']) by {
                assert(seq![','][0] != seq![';'][0]);
            }
        }
        assert(before == (p, if gl > pl {
            gl
        } else {
            pl
        }, pc1, ol, oc));
        lemma_pieces_segment(r2, seg);
        lemma_decode_push(map_pieces(r2), seg);
        lemma_segment_fields(gc - pc1, mol - ol, moc - oc);
        assert(seg[0] == vlq(gc - pc1)[0]);
        assert(seg != seq![';'] && seg != seq![',']) by {
            assert(!is_map_sep(seg[0]));
        }
        assert(p.push(m) =~= ms);
    }
}

/// A `mappings` field reads back as the mappings it encodes: for mappings
/// in order of generated line, each segment\'s relative fields, added up
/// from the start (generated columns from the start of their line), give
/// back every mapping\'s generated line, generated column, original line
/// and original column.
pub proof fn law_mappings_read_back(ms: Seq<(int, int, int, int)>)
    requires
        forall|k: int| 0 <= k < ms.len() ==> #[trigger] ms[k].0 >= 0,
        forall|j: int, k: int| 0 <= j < k < ms.len() ==> ms[j].0 <= ms[k].0,
    ensures
        decode_mappings(encode_mappings_spec(ms)) == ms,
{
    lemma_decode_encode(ms);
}

} // verus!
