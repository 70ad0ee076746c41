use aeonmi::diagnostics::{gutter, legacy_syntax_error, nth_line, quantum_syntax_error, underline, Span as DSpan};
use aeonmi::enhanced_error::{CompilerError, CompilerErrors, ErrorKind, Position, Span};

fn pos(line: usize, column: usize) -> Position {
    Position::new("a.ai".to_string(), line, column, 1)
}

#[test]
fn positions_and_spans_print_like_display() {
    assert_eq!(pos(3, 4).to_text(), "a.ai:3:4");
    assert_eq!(Position::unknown().to_text(), "<unknown>:0:0");
    assert_eq!(Span::single(pos(3, 4)).to_text(), "a.ai:3:4");
    assert_eq!(Span::new(pos(3, 4), pos(3, 9)).to_text(), "a.ai:3:4-9");
    assert_eq!(Span::new(pos(3, 4), pos(5, 2)).to_text(), "a.ai:3:4-5:2");
}

#[test]
fn merging_spans_covers_both() {
    let a = Span::new(pos(2, 5), pos(2, 8));
    let b = Span::new(pos(1, 9), pos(2, 6));
    let m = a.merge(&b);
    assert_eq!((m.start.line, m.start.column), (1, 9));
    assert_eq!((m.end.line, m.end.column), (2, 8));
}

#[test]
fn compiler_errors_count_only_real_errors() {
    let warn = CompilerError::new("unused".to_string(), ErrorKind::UnreachableCode, Span::single(pos(1, 1)));
    assert!(!warn.is_error());
    let mut es = CompilerErrors::new();
    assert!(es.is_empty());
    es.push(warn);
    assert!(!es.has_errors());
    es.extend(vec![CompilerError::new("bad".to_string(), ErrorKind::TypeMismatch, Span::single(pos(2, 1)))
        .with_suggestion("fix it".to_string())]);
    assert!(es.has_errors());
    assert_eq!(es.len(), 2);
    assert_eq!(
        es.errors[1].to_text(),
        "error: bad at a.ai:2:1\n  suggestion: fix it"
    );
}

#[test]
fn syntax_advice_follows_the_message() {
    let d = quantum_syntax_error("Expected quantum binding operator here", DSpan::single(1, 2));
    assert_eq!(d.title, "Expected quantum binding operator here");
    assert!(d.suggestion.unwrap().starts_with("Use ←"));
    let d = quantum_syntax_error("bad probability", DSpan::single(1, 2));
    assert_eq!(d.quantum_context.as_deref(), Some("Probability values should be between 0.0 and 1.0"));
    assert!(d.help.is_none());
    let d = quantum_syntax_error("nothing known", DSpan::single(1, 2));
    assert!(d.suggestion.is_none() && d.help.is_none() && d.quantum_context.is_none());
}

#[test]
fn legacy_keywords() {
    let d = legacy_syntax_error("while", DSpan::single(3, 1));
    assert_eq!(d.title, "Legacy 'while' loop detected");
    assert_eq!(d.help.as_deref(), Some("Quantum loops can include decoherence thresholds"));
    let d = legacy_syntax_error("goto", DSpan::single(3, 1));
    assert_eq!(d.title, "Legacy syntax detected");
}

#[test]
fn source_excerpts() {
    let src = "first\r\nsecond\nthird";
    assert_eq!(nth_line(src, 0).as_deref(), Some("first"));
    assert_eq!(nth_line(src, 2).as_deref(), Some("second"));
    assert_eq!(nth_line(src, 3).as_deref(), Some("third"));
    assert_eq!(nth_line(src, 4), None);
    assert_eq!(underline(3, 2), "  ^^");
    assert_eq!(underline(0, 0), "^");
    assert_eq!(gutter(7), "   7");
    assert_eq!(gutter(12345), "12345");
}
