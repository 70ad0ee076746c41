//! Source positions, spans and compiler errors for multi-file reporting.

use vstd::prelude::*;
use crate::text::{decimal_text, push_decimal, push_str_chars, push_string_chars, string_from_chars};

verus! {

/// A position in a named source file, with the length of the marked text.
#[derive(Debug, PartialEq, Eq, Hash)]
pub struct Position {
    pub file: String,
    pub line: usize,
    pub column: usize,
    pub length: usize,
}

impl Position {
    pub fn new(file: String, line: usize, column: usize, length: usize) -> (r: Position)
        ensures
            r == (Position { file, line, column, length }),
    {
        Position { file, line, column, length }
    }

    /// The position used when none is known: `<unknown>` at 0:0.
    pub fn unknown() -> (r: Position)
        ensures
            r.file@ == "<unknown>"@,
            r.line == 0,
            r.column == 0,
            r.length == 0,
    {
        Position { file: String::from_str("<unknown>"), line: 0, column: 0, length: 0 }
    }

    /// The same place with another length.
    pub fn with_length(&self, length: usize) -> (r: Position)
        ensures
            r.file == self.file,
            r.line == self.line,
            r.column == self.column,
            r.length == length,
    {
        Position { file: self.file.clone(), line: self.line, column: self.column, length }
    }

    /// A copy equal to this position.
    pub fn duplicate(&self) -> (r: Position)
        ensures
            r == *self,
    {
        Position { file: self.file.clone(), line: self.line, column: self.column, length: self.length }
    }

    /// `file:line:column`, as `Display` writes a position.
    pub fn to_text(&self) -> (r: String)
        ensures
            r@ == position_text(*self),
    {
        let mut out: Vec<char> = Vec::new();
        push_string_chars(&mut out, &self.file);
        push_str_chars(&mut out, ":");
        push_decimal(self.line as u64, &mut out);
        push_str_chars(&mut out, ":");
        push_decimal(self.column as u64, &mut out);
        proof {
            reveal_strlit(":");
        }
        assert(out@ =~= position_text(*self));
        string_from_chars(out.as_slice())
    }
}

impl Clone for Position {
    fn clone(&self) -> (r: Position)
        ensures
            r == *self,
    {
        self.duplicate()
    }
}

/// `file:line:column`
pub open spec fn position_text(p: Position) -> Seq<char> {
    p.file@ + seq![':'] + decimal_text(p.line as nat) + seq![':'] + decimal_text(p.column as nat)
}

/// `(line, column)` of `a` comes strictly before that of `b`.
pub open spec fn precedes(a: Position, b: Position) -> bool {
    a.line < b.line || (a.line == b.line && a.column < b.column)
}

/// A range of source text, from `start` to `end`.
#[derive(Debug, PartialEq)]
pub struct Span {
    pub start: Position,
    pub end: Position,
}

impl Span {
    pub fn new(start: Position, end: Position) -> (r: Span)
        ensures
            r == (Span { start, end }),
    {
        Span { start, end }
    }

    /// The span of one position.
    pub fn single(pos: Position) -> (r: Span)
        ensures
            r.start == pos,
            r.end == pos,
    {
        Span { end: pos.duplicate(), start: pos }
    }

    /// The smallest span from the earlier start to the later end of the two; on ties the
    /// start and end of `other` are kept.
    pub fn merge(&self, other: &Span) -> (r: Span)
        ensures
            r.start == (if precedes(self.start, other.start) { self.start } else { other.start }),
            r.end == (if precedes(other.end, self.end) { self.end } else { other.end }),
    {
        let start = if self.start.line < other.start.line
            || (self.start.line == other.start.line && self.start.column < other.start.column) {
            self.start.duplicate()
        } else {
            other.start.duplicate()
        };
        let end = if self.end.line > other.end.line
            || (self.end.line == other.end.line && self.end.column > other.end.column) {
            self.end.duplicate()
        } else {
            other.end.duplicate()
        };
        Span { start, end }
    }

    /// A copy equal to this span.
    pub fn duplicate(&self) -> (r: Span)
        ensures
            r == *self,
    {
        Span { start: self.start.duplicate(), end: self.end.duplicate() }
    }

    /// The text `Display` writes for a span: `file:line:col` for a point, `file:line:c1-c2` within
    /// a line, `file:l1:c1-l2:c2` within a file, `start to end` across files.
    pub fn to_text(&self) -> (r: String)
        ensures
            r@ == span_text(*self),
    {
        let mut out: Vec<char> = Vec::new();
        if self.start.file == self.end.file {
            push_string_chars(&mut out, &self.start.file);
            push_str_chars(&mut out, ":");
            push_decimal(self.start.line as u64, &mut out);
            push_str_chars(&mut out, ":");
            push_decimal(self.start.column as u64, &mut out);
            if self.start.line == self.end.line {
                if self.start.column != self.end.column {
                    push_str_chars(&mut out, "-");
                    push_decimal(self.end.column as u64, &mut out);
                }
            } else {
                push_str_chars(&mut out, "-");
                push_decimal(self.end.line as u64, &mut out);
                push_str_chars(&mut out, ":");
                push_decimal(self.end.column as u64, &mut out);
            }
        } else {
            let a = self.start.to_text();
            let b = self.end.to_text();
            push_string_chars(&mut out, &a);
            push_str_chars(&mut out, " to ");
            push_string_chars(&mut out, &b);
        }
        proof {
            reveal_strlit(":");
            reveal_strlit("-");
        }
        assert(out@ =~= span_text(*self));
        string_from_chars(out.as_slice())
    }
}

impl Clone for Span {
    fn clone(&self) -> (r: Span)
        ensures
            r == *self,
    {
        self.duplicate()
    }
}

pub open spec fn span_text(s: Span) -> Seq<char> {
    if s.start.file@ == s.end.file@ {
        let head = s.start.file@ + seq![':'] + decimal_text(s.start.line as nat) + seq![':']
            + decimal_text(s.start.column as nat);
        if s.start.line == s.end.line {
            if s.start.column == s.end.column {
                head
            } else {
                head + seq!['-'] + decimal_text(s.end.column as nat)
            }
        } else {
            head + seq!['-'] + decimal_text(s.end.line as nat) + seq![':'] + decimal_text(s.end.column as nat)
        }
    } else {
        position_text(s.start) + " to "@ + position_text(s.end)
    }
}

/// The kinds of compiler errors.
#[derive(Debug, PartialEq, Eq, Structural, Clone, Copy)]
pub enum ErrorKind {
    UnexpectedCharacter,
    UnterminatedString,
    InvalidNumber,
    InvalidQuantumLiteral,
    UnexpectedToken,
    MissingToken,
    InvalidSyntax,
    UndefinedVariable,
    UndefinedFunction,
    UndefinedType,
    RedefinedSymbol,
    TypeMismatch,
    InvalidOperation,
    InvalidAccess,
    MissingReturn,
    UnreachableCode,
    InvalidBreak,
    InvalidContinue,
    ModuleNotFound,
    CircularDependency,
    ImportError,
    IOError,
    InvalidQuantumOperation,
    QuantumStateError,
    EntanglementError,
}

/// A compiler error with its span, an optional suggestion and related notes.
#[derive(Debug)]
pub struct CompilerError {
    pub message: String,
    pub kind: ErrorKind,
    pub span: Span,
    pub suggestion: Option<String>,
    pub related: Vec<(Span, String)>,
}

/// Only unreachable-code reports are warnings; every other kind is an error.
pub open spec fn kind_is_error(k: ErrorKind) -> bool {
    k != ErrorKind::UnreachableCode
}

impl CompilerError {
    pub fn new(message: String, kind: ErrorKind, span: Span) -> (r: CompilerError)
        ensures
            r.message == message,
            r.kind == kind,
            r.span == span,
            r.suggestion is None,
            r.related@.len() == 0,
    {
        CompilerError { message, kind, span, suggestion: None, related: Vec::new() }
    }

    pub fn with_suggestion(self, suggestion: String) -> (r: CompilerError)
        ensures
            r.message == self.message,
            r.kind == self.kind,
            r.span == self.span,
            r.suggestion == Some(suggestion),
            r.related == self.related,
    {
        let mut e = self;
        e.suggestion = Some(suggestion);
        e
    }

    pub fn with_related(self, span: Span, message: String) -> (r: CompilerError)
        ensures
            r.message == self.message,
            r.kind == self.kind,
            r.span == self.span,
            r.suggestion == self.suggestion,
            r.related@ == self.related@.push((span, message)),
    {
        let mut e = self;
        e.related.push((span, message));
        e
    }

    pub fn is_error(&self) -> (r: bool)
        ensures
            r == kind_is_error(self.kind),
    {
        match self.kind {
            ErrorKind::UnreachableCode => false,
            _ => true,
        }
    }

    /// The text `Display` writes: `error: message at span`, then the suggestion and the
    /// related notes, one per line.
    pub fn to_text(&self) -> (r: String)
        ensures
            r@ == compiler_error_text(*self),
    {
        let mut out: Vec<char> = Vec::new();
        push_str_chars(&mut out, "error: ");
        push_string_chars(&mut out, &self.message);
        push_str_chars(&mut out, " at ");
        let st = self.span.to_text();
        push_string_chars(&mut out, &st);
        match &self.suggestion {
            Some(sg) => {
                push_str_chars(&mut out, "\n  suggestion: ");
                push_string_chars(&mut out, sg);
            },
            None => {},
        }
        let ghost head = out@;
        let n = self.related.len();
        let mut i: usize = 0;
        while i < n
            invariant
                n == self.related@.len(),
                i <= n,
                out@ == head + notes_text(self.related@.subrange(0, i as int)),
            decreases n - i,
        {
            let ghost before = out@;
            push_str_chars(&mut out, "\n  note: ");
            push_string_chars(&mut out, &self.related[i].1);
            push_str_chars(&mut out, " at ");
            let t = self.related[i].0.to_text();
            push_string_chars(&mut out, &t);
            proof {
                let sub = self.related@.subrange(0, i + 1);
                assert(sub.drop_last() =~= self.related@.subrange(0, i as int));
            }
            i += 1;
            assert(out@ =~= head + notes_text(self.related@.subrange(0, i as int)));
        }
        assert(self.related@.subrange(0, n as int) =~= self.related@);
        assert(out@ =~= compiler_error_text(*self));
        string_from_chars(out.as_slice())
    }
}

pub open spec fn notes_text(rel: Seq<(Span, String)>) -> Seq<char>
    decreases rel.len(),
{
    if rel.len() == 0 {
        Seq::empty()
    } else {
        notes_text(rel.drop_last()) + "\n  note: "@ + rel.last().1@ + " at "@ + span_text(rel.last().0)
    }
}

pub open spec fn compiler_error_text(e: CompilerError) -> Seq<char> {
    "error: "@ + e.message@ + " at "@ + span_text(e.span) + match e.suggestion {
        Some(s) => "\n  suggestion: "@ + s@,
        None => Seq::empty(),
    } + notes_text(e.related@)
}

/// Several compiler errors, in the order they were found.
#[derive(Debug)]
pub struct CompilerErrors {
    pub errors: Vec<CompilerError>,
}

impl CompilerErrors {
    pub fn new() -> (r: CompilerErrors)
        ensures
            r.errors@.len() == 0,
    {
        CompilerErrors { errors: Vec::new() }
    }

    pub fn push(&mut self, error: CompilerError)
        ensures
            final(self).errors@ == old(self).errors@.push(error),
    {
        self.errors.push(error);
    }

    pub fn extend(&mut self, errors: Vec<CompilerError>)
        ensures
            final(self).errors@ == old(self).errors@ + errors@,
    {
        let mut rest = errors;
        self.errors.append(&mut rest);
    }

    /// Whether some entry is an error (not only warnings).
    pub fn has_errors(&self) -> (r: bool)
        ensures
            r == exists|i: int| 0 <= i < self.errors@.len() && kind_is_error(#[trigger] self.errors@[i].kind),
    {
        let n = self.errors.len();
        let mut i: usize = 0;
        while i < n
            invariant
                n == self.errors@.len(),
                i <= n,
                forall|k: int| 0 <= k < i ==> !kind_is_error(#[trigger] self.errors@[k].kind),
            decreases n - i,
        {
            if self.errors[i].is_error() {
                return true;
            }
            i += 1;
        }
        false
    }

    /// The collection of one error (what `From<CompilerError>` gives).
    pub fn from_error(error: CompilerError) -> (r: CompilerErrors)
        ensures
            r.errors@ == seq![error],
    {
        let mut errors = CompilerErrors::new();
        errors.push(error);
        assert(errors.errors@ =~= seq![error]);
        errors
    }

    pub fn is_empty(&self) -> (r: bool)
        ensures
            r == (self.errors@.len() == 0),
    {
        self.errors.len() == 0
    }

    pub fn len(&self) -> (r: usize)
        ensures
            r == self.errors@.len(),
    {
        self.errors.len()
    }

    /// The errors' texts, one per line (as `Display` writes them).
    pub fn to_text(&self) -> (r: String)
        ensures
            r@ == errors_text(self.errors@),
    {
        let mut out: Vec<char> = Vec::new();
        let n = self.errors.len();
        let mut i: usize = 0;
        while i < n
            invariant
                n == self.errors@.len(),
                i <= n,
                out@ == errors_text(self.errors@.subrange(0, i as int)),
            decreases n - i,
        {
            if i > 0 {
                out.push('\n');
            }
            let t = self.errors[i].to_text();
            push_string_chars(&mut out, &t);
            proof {
                let sub = self.errors@.subrange(0, i + 1);
                assert(sub.drop_last() =~= self.errors@.subrange(0, i as int));
            }
            i += 1;
            assert(out@ =~= errors_text(self.errors@.subrange(0, i as int)));
        }
        assert(self.errors@.subrange(0, n as int) =~= self.errors@);
        string_from_chars(out.as_slice())
    }
}

pub open spec fn errors_text(es: Seq<CompilerError>) -> Seq<char>
    decreases es.len(),
{
    if es.len() == 0 {
        Seq::empty()
    } else if es.len() == 1 {
        compiler_error_text(es[0])
    } else {
        errors_text(es.drop_last()) + seq!['\n'] + compiler_error_text(es.last())
    }
}

/// Types that can be turned into a span of a given file.
pub trait ToSpan {
    fn to_span(&self, file: &str) -> Span;
}

/// Types that know their position.
pub trait HasPosition {
    /// The position a value knows.
    spec fn known_position(&self) -> Position;

    fn position(&self) -> (r: Position)
        ensures
            r == self.known_position(),
    ;

    /// The span of the value's position alone.
    fn span(&self, file: &str) -> (r: Span)
        ensures
            r.start == self.known_position(),
            r.end == self.known_position(),
    {
        Span::single(self.position())
    }
}

} // verus!
