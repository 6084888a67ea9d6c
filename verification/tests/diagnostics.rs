use valua::diagnostics::{CollectingReporter, Diagnostic, Reporter, Severity, Span};

fn span(start: usize, end: usize, line: u32, col: u32) -> Span {
    Span::new(start, end, line, col)
}

#[test]
fn test_span_merge_covers_both_endpoints() {
    let a = span(0, 5, 1, 1);
    let b = span(3, 10, 2, 3);
    let m = a.merge(b);
    assert_eq!(m.start, 0);
    assert_eq!(m.end, 10);
}

#[test]
fn test_span_merge_col_from_earlier_span() {
    let earlier = span(0, 5, 1, 7);
    let later = span(6, 10, 1, 15);
    let m = later.merge(earlier);
    assert_eq!(m.col, 7, "col should be from whichever span starts first");
}

#[test]
fn test_span_display() {
    let s = span(0, 5, 3, 7);
    assert_eq!(s.display(), "3:7");
}

#[test]
fn test_diagnostic_builder() {
    let s = span(0, 1, 1, 1);
    let d = Diagnostic::error("bad token", s)
        .with_code("E0001")
        .with_suggestion("remove it");
    assert_eq!(d.severity, Severity::Error);
    assert_eq!(d.code, Some("E0001"));
    assert!(d.suggestion.is_some());
}

#[test]
fn test_diagnostic_secondary_label() {
    let s1 = span(0, 5, 1, 1);
    let s2 = span(10, 15, 3, 1);
    let d = Diagnostic::error("mutation", s2).with_secondary_label(s1, "declared here");
    assert_eq!(d.secondary_labels.len(), 1);
    assert_eq!(d.secondary_labels[0].1, "declared here");
}

#[test]
fn test_collecting_reporter_tracks_errors() {
    let mut r = CollectingReporter::default();
    let s = span(0, 1, 1, 1);
    assert!(!r.has_errors());
    r.report(&Diagnostic::warning("w", s), "", "f");
    assert!(!r.has_errors());
    r.report(&Diagnostic::error("e", s), "", "f");
    assert!(r.has_errors());
    assert_eq!(r.diagnostics.len(), 2);
}

#[test]
fn merge_is_symmetric_on_concrete_spans() {
    let a = span(4, 9, 2, 5);
    let b = span(1, 6, 1, 2);
    let ab = a.merge(b);
    let ba = b.merge(a);
    assert_eq!((ab.start, ab.end, ab.line, ab.col), (ba.start, ba.end, ba.line, ba.col));
    assert_eq!((ab.start, ab.end, ab.line, ab.col), (1, 9, 1, 2));
}

#[test]
fn dummy_span_is_all_zero() {
    let d = Span::dummy();
    assert_eq!((d.start, d.end, d.line, d.col), (0, 0, 0, 0));
}

#[test]
fn note_and_warning_severities() {
    let s = span(0, 1, 1, 1);
    assert_eq!(Diagnostic::note("n", s).severity, Severity::Note);
    assert!(!Diagnostic::warning("w", s).is_error());
    let d = Diagnostic::error("e", s).with_note("extra");
    assert_eq!(d.notes, vec!["extra".to_string()]);
}
