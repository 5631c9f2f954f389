//! JavaScript code generation: prints a program with its types erased, and
//! can record, for each statement, where it came from in the source.
use vstd::prelude::*;

pub mod expr;
pub mod ops;
pub mod printed;
pub mod stmt;

use crate::ast::{Expression, Program, Statement};
use crate::source_map::{SourceMap, POSITION_LIMIT};
use crate::text::{char_width, chars_of, utf8_width};
use crate::token::Span;
use printed::{
    escape_pending, escaped, indent_text, operand_needs_parens, quoted, spec_needs_parens,
    stmts_text,
};

verus! {

/// Number of line breaks in `s`.
pub open spec fn line_count(s: Seq<char>) -> nat
    decreases s.len(),
{
    if s.len() == 0 {
        0
    } else {
        line_count(s.drop_last()) + if s.last() == '\n' {
            1nat
        } else {
            0nat
        }
    }
}

/// Byte column at the end of `s`: the UTF-8 length of what follows its
/// last line break.
pub open spec fn column(s: Seq<char>) -> nat
    decreases s.len(),
{
    if s.len() == 0 {
        0
    } else if s.last() == '\n' {
        0
    } else {
        column(s.drop_last()) + utf8_width(s.last())
    }
}

pub open spec fn capped(n: nat) -> nat {
    if n < usize::MAX {
        n
    } else {
        usize::MAX as nat
    }
}

/// How an attached source map may change while code is generated: it
/// stays attached, keeps its source, and only gains mappings.
pub open spec fn map_grows(a: Option<SourceMap>, b: Option<SourceMap>) -> bool {
    match a {
        None => b is None,
        Some(x) => {
            &&& b is Some
            &&& b->0.text() == x.text()
            &&& b->0.name() == x.name()
            &&& x.mappings().len() <= b->0.mappings().len()
            &&& forall|i: int|
                0 <= i < x.mappings().len() ==> #[trigger] b->0.mappings()[i] == x.mappings()[i]
        },
    }
}

pub struct Codegen {
    pub output: String,
    pub indent: usize,
    /// Line of the end of `output` (0-based).
    pub gen_line: usize,
    /// Byte column of the end of `output` (0-based).
    pub gen_col: usize,
    pub source_map: Option<SourceMap>,
}

impl Codegen {
    /// The generated position is tracked (saturating at `usize::MAX`) and
    /// an attached source map is well formed.
    pub closed spec fn wf(self) -> bool {
        &&& self.gen_line as nat == capped(line_count(self.output@))
        &&& self.gen_col as nat == capped(column(self.output@))
        &&& match self.source_map {
            Some(sm) => sm.wf(),
            None => true,
        }
    }

    /// The attached source map, if any.
    pub open spec fn source_map_of(self) -> Option<SourceMap> {
        self.source_map
    }

    pub fn new() -> (cg: Self)
        ensures
            cg.wf(),
            cg.output@ == Seq::<char>::empty(),
            cg.indent == 0,
            cg.gen_line == 0,
            cg.gen_col == 0,
            cg.source_map_of() is None,
    {
        Codegen { output: String::new(), indent: 0, gen_line: 0, gen_col: 0, source_map: None }
    }

    /// The position a code generator holds is where its output ends: the
    /// number of line breaks in it and the byte column after the last one
    /// (each held at `usize::MAX` at most).
    pub proof fn law_position_tracks_output(self)
        requires
            self.wf(),
        ensures
            self.gen_line as nat == capped(line_count(self.output@)),
            self.gen_col as nat == capped(column(self.output@)),
    {
    }

    /// Attaches a source map that records, for each generated statement,
    /// its generated position and the position of its source.
    pub fn set_source_map(&mut self, sm: SourceMap)
        requires
            old(self).wf(),
            sm.wf(),
        ensures
            final(self).wf(),
            final(self).output == old(self).output,
            final(self).indent == old(self).indent,
            final(self).source_map_of() == Some(sm),
    {
        self.source_map = Some(sm);
    }

    /// Detaches the source map and hands it back.
    pub fn take_source_map(&mut self) -> (sm: Option<SourceMap>)
        requires
            old(self).wf(),
        ensures
            final(self).wf(),
            final(self).output == old(self).output,
            final(self).indent == old(self).indent,
            sm == old(self).source_map_of(),
            final(self).source_map_of() is None,
            sm matches Some(m) ==> m.wf(),
    {
        self.source_map.take()
    }

    /// Appends `s` as a double-quoted string literal (see `quoted`).
    pub fn emit_quoted(&mut self, s: &str)
        requires
            old(self).wf(),
        ensures
            final(self).wf(),
            final(self).output@ == old(self).output@ + quoted(s@),
            final(self).indent == old(self).indent,
            final(self).source_map_of() == old(self).source_map_of(),
    {
        let cs = chars_of(s);
        let mut t = String::new();
        let mut pending = false;
        let mut i: usize = 0;
        while i < cs.len()
            invariant
                i <= cs.len(),
                cs@ == s@,
                t@ == escaped(cs@.take(i as int)),
                pending == escape_pending(cs@.take(i as int)),
            decreases cs.len() - i,
        {
            let c = cs[i];
            assert(cs@.take(i + 1).drop_last() =~= cs@.take(i as int));
            assert(cs@.take(i + 1).last() == c);
            if !pending && c == '"' {
                t.push('\\');
                t.push('"');
                assert(t@ =~= escaped(cs@.take(i as int)) + seq!['\\', '"']);
            } else {
                t.push(c);
                assert(t@ =~= escaped(cs@.take(i as int)) + seq![c]);
            }
            pending = !pending && c == '\\';
            i += 1;
        }
        assert(cs@.take(cs.len() as int) =~= s@);
        let ghost o = self.output@;
        self.emit("\"");
        self.emit(t.as_str());
        if pending {
            self.emit("\\");
        }
        self.emit("\"");
        assert(self.output@ =~= o + quoted(s@));
    }

    /// Appends `s` to the output, keeping track of the position.
    pub fn emit(&mut self, s: &str)
        requires
            old(self).wf(),
        ensures
            final(self).wf(),
            final(self).output@ == old(self).output@ + s@,
            final(self).indent == old(self).indent,
            final(self).source_map_of() == old(self).source_map_of(),
    {
        let cs = chars_of(s);
        let mut i: usize = 0;
        while i < cs.len()
            invariant
                i <= cs.len(),
                cs@ == s@,
                self.wf(),
                self.output@ == old(self).output@ + s@.subrange(0, i as int),
                self.indent == old(self).indent,
                self.source_map == old(self).source_map,
            decreases cs.len() - i,
        {
            let c = cs[i];
            let ghost before = self.output@;
            self.output.push(c);
            assert(self.output@.drop_last() == before);
            assert(self.output@.last() == c);
            if c == '\n' {
                if self.gen_line < usize::MAX {
                    self.gen_line = self.gen_line + 1;
                }
                self.gen_col = 0;
            } else {
                let w = char_width(c);
                if self.gen_col <= usize::MAX - w {
                    self.gen_col = self.gen_col + w;
                } else {
                    self.gen_col = usize::MAX;
                }
            }
            i += 1;
            assert(s@.subrange(0, i as int) =~= s@.subrange(0, i - 1).push(c));
        }
        assert(s@.subrange(0, s@.len() as int) =~= s@);
    }

    /// Records that the statement about to be printed came from `span`.
    /// Positions that do not fit a source map are not recorded.
    pub fn record_mapping(&mut self, span: Span)
        requires
            old(self).wf(),
        ensures
            final(self).wf(),
            final(self).output == old(self).output,
            final(self).indent == old(self).indent,
            map_grows(old(self).source_map_of(), final(self).source_map_of()),
            old(self).source_map_of() matches Some(sm) ==> if old(self).gen_line < POSITION_LIMIT
                && old(self).gen_col < POSITION_LIMIT && span.start < POSITION_LIMIT
                && old(self).gen_line < usize::MAX && old(self).gen_col < usize::MAX {
                exists|l: int, c: int|
                    sm.spec_line_col(span.start as int, l, c) && final(self).source_map_of()->0.mappings()
                        == sm.mappings().push((old(self).gen_line as int, old(self).gen_col as int, l, c))
            } else {
                final(self).source_map_of() == Some(sm)
            },
    {
        match self.source_map.take() {
            Some(mut sm) => {
                if self.gen_line < usize::MAX && self.gen_col < usize::MAX && (self.gen_line as u64)
                    < POSITION_LIMIT && (self.gen_col as u64) < POSITION_LIMIT
                    && (span.start as u64) < POSITION_LIMIT {
                    sm.add_mapping(self.gen_line, self.gen_col, span);
                }
                self.source_map = Some(sm);
            },
            None => {},
        }
    }

    /// Appends the indentation of the current level.
    pub fn gen_indent(&mut self)
        requires
            old(self).wf(),
        ensures
            final(self).wf(),
            final(self).output@ == old(self).output@ + indent_text(old(self).indent as nat),
            final(self).indent == old(self).indent,
            final(self).source_map_of() == old(self).source_map_of(),
    {
        let mut i: usize = 0;
        while i < self.indent
            invariant
                i <= self.indent,
                self.wf(),
                self.output@ == old(self).output@ + indent_text(i as nat),
                self.indent == old(self).indent,
                self.source_map_of() == old(self).source_map_of(),
            decreases self.indent - i,
        {
            self.emit("  ");
            i += 1;
        }
    }

    /// Prints every statement of `program` and returns the whole output.
    pub fn generate(&mut self, program: &Program) -> (out: &str)
        requires
            old(self).wf(),
        ensures
            final(self).wf(),
            out@ == final(self).output@,
            final(self).output@ == old(self).output@ + stmts_text(
                program.body@,
                old(self).indent as nat,
            ),
            final(self).indent == old(self).indent,
            map_grows(old(self).source_map_of(), final(self).source_map_of()),
    {
        let mut i: usize = 0;
        while i < program.body.len()
            invariant
                i <= program.body.len(),
                self.wf(),
                self.output@ == old(self).output@ + stmts_text(
                    program.body@.subrange(0, i as int),
                    old(self).indent as nat,
                ),
                self.indent == old(self).indent,
                map_grows(old(self).source_map_of(), self.source_map_of()),
            decreases program.body.len() - i,
        {
            self.gen_statement(&program.body[i]);
            assert(program.body@.subrange(0, i + 1).drop_last() =~= program.body@.subrange(
                0,
                i as int,
            ));
            i += 1;
        }
        assert(program.body@.subrange(0, program.body@.len() as int) =~= program.body@);
        self.output.as_str()
    }
}

/// Whether `inner`, printed as an operand of `outer`, needs parentheses:
/// it binds more loosely than `outer`.
pub fn needs_parens(outer: &Expression, inner: &Expression) -> (r: bool)
    ensures
        r == spec_needs_parens(*outer, *inner),
{
    let outer_prec: u8 = match outer {
        Expression::BinaryExpression { operator, .. } => ops::binary_precedence(*operator),
        Expression::UnaryExpression { .. } => 15,
        Expression::CallExpression { .. } => 17,
        Expression::MemberExpression { .. } => 18,
        Expression::ConditionalExpression { .. } => 1,
        Expression::AssignmentExpression { .. } => 1,
        _ => {
            return false;
        },
    };
    let inner_prec: u8 = match inner {
        Expression::BinaryExpression { operator, .. } => ops::binary_precedence(*operator),
        Expression::UnaryExpression { .. } => 15,
        Expression::ConditionalExpression { .. } => 1,
        Expression::AssignmentExpression { .. } => 1,
        _ => {
            return false;
        },
    };
    inner_prec < outer_prec
}

/// Whether `inner`, printed as the left or right operand of `outer`, needs
/// parentheses (see `operand_needs_parens`).
pub fn operand_parens(outer: &Expression, inner: &Expression, right: bool) -> (r: bool)
    ensures
        r == operand_needs_parens(*outer, *inner, right),
{
    if needs_parens(outer, inner) {
        return true;
    }
    match outer {
        Expression::BinaryExpression { operator, .. } => {
            let o = ops::binary_precedence(*operator);
            let i: u8 = match inner {
                Expression::BinaryExpression { operator: op2, .. } => ops::binary_precedence(*op2),
                Expression::UnaryExpression { .. } => 15,
                Expression::ConditionalExpression { .. } => 1,
                Expression::AssignmentExpression { .. } => 1,
                _ => {
                    return false;
                },
            };
            if i != o {
                return false;
            }
            let ra = matches!(operator, crate::ast::BinaryOp::Exp) || matches!(
                operator,
                crate::ast::BinaryOp::NullishCoalescing
            );
            if right {
                !ra
            } else {
                ra
            }
        },
        _ => false,
    }
}

} // verus!
