//! Source positions and structured diagnostics.

use vstd::prelude::*;
use vstd::string::StringExecFns;

use crate::fmt::{push_radix, radix_digits};

verus! {

/// Byte-range plus line/column position within a source file.
///
/// `start` and `end` are byte offsets (`end` exclusive); `line` and `col` are
/// 1-based, with `col` counted in bytes from the start of the line.
#[derive(Debug, Clone, Copy, PartialEq, Eq, Hash, Structural)]
pub struct Span {
    pub start: usize,
    pub end: usize,
    pub line: u32,
    pub col: u32,
}

/// The span that covers both `a` and `b`; its column comes from whichever
/// span starts first (from `a` when both start at the same offset).
pub open spec fn spec_merge(a: Span, b: Span) -> Span {
    Span {
        start: if a.start <= b.start { a.start } else { b.start },
        end: if a.end >= b.end { a.end } else { b.end },
        line: if a.line <= b.line { a.line } else { b.line },
        col: if a.start <= b.start { a.col } else { b.col },
    }
}

/// The placeholder span given to generated nodes.
pub open spec fn spec_dummy() -> Span {
    Span { start: 0, end: 0, line: 0, col: 0 }
}

impl Span {
    /// Create a new span from raw fields.
    pub fn new(start: usize, end: usize, line: u32, col: u32) -> (r: Self)
        ensures
            r == (Span { start, end, line, col }),
    {
        Span { start, end, line, col }
    }

    /// Placeholder span for generated nodes that have no source location.
    pub fn dummy() -> (r: Self)
        ensures
            r == spec_dummy(),
    {
        Span { start: 0, end: 0, line: 0, col: 0 }
    }

    /// `line:col`, as the span is shown in messages.
    pub fn display(&self) -> (r: String)
        ensures
            r@ == radix_digits(self.line as nat, 10) + ":"@ + radix_digits(self.col as nat, 10),
    {
        let mut out = String::new();
        push_radix(&mut out, self.line as u64, 10);
        out.append(":");
        push_radix(&mut out, self.col as u64, 10);
        out
    }

    /// Merge two spans into one that covers both.
    pub fn merge(self, other: Self) -> (r: Self)
        ensures
            r == spec_merge(self, other),
    {
        let first_col = if self.start <= other.start { self.col } else { other.col };
        Span {
            start: if self.start <= other.start { self.start } else { other.start },
            end: if self.end >= other.end { self.end } else { other.end },
            line: if self.line <= other.line { self.line } else { other.line },
            col: first_col,
        }
    }
}

/// Merging covers both spans: the result starts no later and ends no earlier
/// than either input, and begins exactly where the earlier one begins.
pub proof fn lemma_merge_covers(a: Span, b: Span)
    ensures
        spec_merge(a, b).start <= a.start,
        spec_merge(a, b).start <= b.start,
        spec_merge(a, b).end >= a.end,
        spec_merge(a, b).end >= b.end,
        spec_merge(a, b).start == a.start || spec_merge(a, b).start == b.start,
        spec_merge(a, b).end == a.end || spec_merge(a, b).end == b.end,
{
}

/// The byte range of a merge does not depend on the order of its arguments,
/// and the column does not either when the two spans start at different offsets.
pub proof fn lemma_merge_symmetric(a: Span, b: Span)
    ensures
        spec_merge(a, b).start == spec_merge(b, a).start,
        spec_merge(a, b).end == spec_merge(b, a).end,
        spec_merge(a, b).line == spec_merge(b, a).line,
        a.start != b.start ==> spec_merge(a, b) == spec_merge(b, a),
{
}

/// Merging a span with itself gives it back unchanged.
pub proof fn lemma_merge_idempotent(a: Span)
    ensures
        spec_merge(a, a) == a,
{
}

/// Severity level of a diagnostic message.
#[derive(Debug, Clone, Copy, PartialEq, Eq, Structural)]
pub enum Severity {
    /// A hard error that prevents transpilation.
    Error,
    /// A non-fatal issue; transpilation may continue.
    Warning,
    /// Informational annotation attached to another diagnostic.
    Note,
}

/// A structured diagnostic message with optional error code, notes, fix
/// suggestion, and secondary source spans.
#[derive(Debug, Clone)]
pub struct Diagnostic {
    pub severity: Severity,
    pub message: String,
    pub span: Span,
    /// Short error code, e.g. `"E0001"`.
    pub code: Option<&'static str>,
    /// Human-readable fix hint shown below the message.
    pub suggestion: Option<String>,
    /// Additional explanatory notes.
    pub notes: Vec<String>,
    /// Additional labeled spans rendered alongside the primary span.
    pub secondary_labels: Vec<(Span, String)>,
}

/// The abstract content of a diagnostic: every string taken by its characters.
pub ghost struct DiagnosticView {
    pub severity: Severity,
    pub message: Seq<char>,
    pub span: Span,
    pub code: Option<Seq<char>>,
    pub suggestion: Option<Seq<char>>,
    pub notes: Seq<Seq<char>>,
    pub secondary_labels: Seq<(Span, Seq<char>)>,
}

impl View for Diagnostic {
    type V = DiagnosticView;

    open spec fn view(&self) -> DiagnosticView {
        DiagnosticView {
            severity: self.severity,
            message: self.message@,
            span: self.span,
            code: match self.code {
                Some(c) => Some(c@),
                None => None,
            },
            suggestion: match self.suggestion {
                Some(s) => Some(s@),
                None => None,
            },
            notes: self.notes@.map_values(|n: String| n@),
            secondary_labels: self.secondary_labels@.map_values(|l: (Span, String)| (l.0, l.1@)),
        }
    }
}

/// A fresh diagnostic of the given severity with no code, notes, suggestion or labels.
pub open spec fn spec_diagnostic(severity: Severity, message: Seq<char>, span: Span) -> DiagnosticView {
    DiagnosticView {
        severity,
        message,
        span,
        code: None,
        suggestion: None,
        notes: Seq::empty(),
        secondary_labels: Seq::empty(),
    }
}

impl Diagnostic {
    fn with_severity(severity: Severity, message: &str, span: Span) -> (r: Self)
        ensures
            r@ == spec_diagnostic(severity, message@, span),
    {
        let r = Diagnostic {
            severity,
            message: message.to_owned(),
            span,
            code: None,
            suggestion: None,
            notes: Vec::new(),
            secondary_labels: Vec::new(),
        };
        assert(r@.notes =~= Seq::<Seq<char>>::empty());
        assert(r@.secondary_labels =~= Seq::<(Span, Seq<char>)>::empty());
        r
    }

    /// Build an error-level diagnostic.
    pub fn error(message: &str, span: Span) -> (r: Self)
        ensures
            r@ == spec_diagnostic(Severity::Error, message@, span),
    {
        Self::with_severity(Severity::Error, message, span)
    }

    /// Build a warning-level diagnostic.
    pub fn warning(message: &str, span: Span) -> (r: Self)
        ensures
            r@ == spec_diagnostic(Severity::Warning, message@, span),
    {
        Self::with_severity(Severity::Warning, message, span)
    }

    /// Build a note-level diagnostic.
    pub fn note(message: &str, span: Span) -> (r: Self)
        ensures
            r@ == spec_diagnostic(Severity::Note, message@, span),
    {
        Self::with_severity(Severity::Note, message, span)
    }

    /// Attach a short error code.
    pub fn with_code(self, code: &'static str) -> (r: Self)
        ensures
            r@ == (DiagnosticView { code: Some(code@), ..self@ }),
    {
        let mut d = self;
        d.code = Some(code);
        d
    }

    /// Attach a fix suggestion shown to the user.
    pub fn with_suggestion(self, suggestion: &str) -> (r: Self)
        ensures
            r@ == (DiagnosticView { suggestion: Some(suggestion@), ..self@ }),
    {
        let mut d = self;
        d.suggestion = Some(suggestion.to_owned());
        d
    }

    /// Attach an explanatory note.
    pub fn with_note(self, note: &str) -> (r: Self)
        ensures
            r@ == (DiagnosticView { notes: self@.notes.push(note@), ..self@ }),
    {
        let mut d = self;
        let ghost old_notes = d.notes@;
        d.notes.push(note.to_owned());
        assert(d.notes@.map_values(|n: String| n@) =~= old_notes.map_values(|n: String| n@).push(note@));
        d
    }

    /// Attach an additional labeled span shown alongside the primary span.
    pub fn with_secondary_label(self, span: Span, message: &str) -> (r: Self)
        ensures
            r@ == (DiagnosticView {
                secondary_labels: self@.secondary_labels.push((span, message@)),
                ..self@
            }),
    {
        let mut d = self;
        let ghost old_labels = d.secondary_labels@;
        d.secondary_labels.push((span, message.to_owned()));
        assert(d.secondary_labels@.map_values(|l: (Span, String)| (l.0, l.1@)) =~= old_labels.map_values(
            |l: (Span, String)| (l.0, l.1@),
        ).push((span, message@)));
        d
    }

    /// A copy of this diagnostic with the same content.
    pub fn duplicate(&self) -> (r: Self)
        ensures
            r@ == self@,
    {
        let mut notes: Vec<String> = Vec::new();
        let mut i: usize = 0;
        while i < self.notes.len()
            invariant
                i <= self.notes.len(),
                notes.len() == i,
                forall|k: int| 0 <= k < i ==> notes@[k]@ == self.notes@[k]@,
            decreases self.notes.len() - i,
        {
            notes.push(self.notes[i].clone());
            i += 1;
        }
        let mut labels: Vec<(Span, String)> = Vec::new();
        let mut j: usize = 0;
        while j < self.secondary_labels.len()
            invariant
                j <= self.secondary_labels.len(),
                labels.len() == j,
                forall|k: int|
                    0 <= k < j ==> labels@[k].0 == self.secondary_labels@[k].0 && labels@[k].1@
                        == self.secondary_labels@[k].1@,
            decreases self.secondary_labels.len() - j,
        {
            let (s, m) = &self.secondary_labels[j];
            labels.push((*s, m.clone()));
            j += 1;
        }
        assert(notes@.map_values(|n: String| n@) =~= self.notes@.map_values(|n: String| n@));
        assert(labels@.map_values(|l: (Span, String)| (l.0, l.1@)) =~= self.secondary_labels@.map_values(
            |l: (Span, String)| (l.0, l.1@),
        ));
        let suggestion = match &self.suggestion {
            Some(s) => Some(s.clone()),
            None => None,
        };
        Diagnostic {
            severity: self.severity,
            message: self.message.clone(),
            span: self.span,
            code: self.code,
            suggestion,
            notes,
            secondary_labels: labels,
        }
    }

    /// Whether this diagnostic is an error.
    pub fn is_error(&self) -> (r: bool)
        ensures
            r == (self.severity == Severity::Error),
    {
        match self.severity {
            Severity::Error => true,
            _ => false,
        }
    }
}

/// Sinks that receive and display diagnostics.
pub trait Reporter {
    /// Emit a single diagnostic against the provided source text.
    fn report(&mut self, diagnostic: &Diagnostic, source: &str, filename: &str);

    /// Returns `true` if at least one error has been reported.
    fn has_errors(&self) -> bool;
}

/// Whether any of the diagnostics is an error.
pub open spec fn any_error(ds: Seq<DiagnosticView>) -> bool {
    exists|i: int| 0 <= i < ds.len() && ds[i].severity == Severity::Error
}

/// Reporting one more diagnostic makes the reporter hold an error exactly
/// when it held one before or the new diagnostic is one; nothing reported
/// means no error.
pub proof fn lemma_any_error_push(ds: Seq<DiagnosticView>, d: DiagnosticView)
    ensures
        any_error(ds.push(d)) == (any_error(ds) || d.severity == Severity::Error),
        !any_error(Seq::<DiagnosticView>::empty()),
{
    if any_error(ds) {
        let i = choose|i: int| 0 <= i < ds.len() && ds[i].severity == Severity::Error;
        assert(ds.push(d)[i] == ds[i]);
    }
    if d.severity == Severity::Error {
        assert(ds.push(d)[ds.len() as int] == d);
    }
    if any_error(ds.push(d)) {
        let i = choose|i: int| 0 <= i < ds.push(d).len() && ds.push(d)[i].severity == Severity::Error;
        if i < ds.len() {
            assert(ds[i] == ds.push(d)[i]);
        }
    }
}

/// A simple in-memory reporter that keeps every diagnostic it receives.
#[derive(Debug)]
pub struct CollectingReporter {
    pub diagnostics: Vec<Diagnostic>,
}

impl Default for CollectingReporter {
    /// A reporter that has received nothing.
    fn default() -> (r: Self)
        ensures
            r.diagnostics@.len() == 0,
            r.received() == Seq::<DiagnosticView>::empty(),
    {
        let r = CollectingReporter { diagnostics: Vec::new() };
        assert(r.received() =~= Seq::<DiagnosticView>::empty());
        r
    }
}

impl CollectingReporter {
    /// The diagnostics received so far, by content.
    pub open spec fn received(&self) -> Seq<DiagnosticView> {
        self.diagnostics@.map_values(|d: Diagnostic| d@)
    }
}

impl Reporter for CollectingReporter {
    fn report(&mut self, diagnostic: &Diagnostic, _source: &str, _filename: &str)
        ensures
            final(self).received() == old(self).received().push(diagnostic@),
    {
        let ghost before = self.diagnostics@;
        self.diagnostics.push(diagnostic.duplicate());
        assert(self.diagnostics@.map_values(|d: Diagnostic| d@) =~= before.map_values(
            |d: Diagnostic| d@,
        ).push(diagnostic@));
    }

    fn has_errors(&self) -> (r: bool)
        ensures
            r == any_error(self.received()),
    {
        let mut i: usize = 0;
        while i < self.diagnostics.len()
            invariant
                i <= self.diagnostics.len(),
                forall|j: int| 0 <= j < i ==> self.diagnostics@[j].severity != Severity::Error,
            decreases self.diagnostics.len() - i,
        {
            if self.diagnostics[i].is_error() {
                assert(self.received()[i as int].severity == Severity::Error);
                return true;
            }
            i += 1;
        }
        assert forall|j: int| 0 <= j < self.received().len() implies self.received()[j].severity
            != Severity::Error by {
            assert(self.received()[j] == self.diagnostics@[j]@);
        }
        false
    }
}

} // verus!
