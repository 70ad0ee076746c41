use aeonmi::lexer::{Lexer, LexerError, LexerOptions};
use aeonmi::token::TokenKind;

fn kinds(src: &str) -> Vec<TokenKind> {
    let mut lx = Lexer::from_str(src);
    lx.tokenize().unwrap().into_iter().map(|t| t.kind).collect()
}

#[test]
fn ket_vs_closure_disambiguation() {
    let mut lx = Lexer::with_options("|x| x + 1", LexerOptions::default());
    let t1 = lx.next_token().unwrap().unwrap();
    assert!(matches!(t1.kind, TokenKind::Pipe));
    let t2 = lx.next_token().unwrap().unwrap();
    assert!(matches!(t2.kind, TokenKind::Identifier(_)));
    let t3 = lx.next_token().unwrap().unwrap();
    assert!(matches!(t3.kind, TokenKind::Pipe));
}

#[test]
fn parses_qubit_literal() {
    let mut lx = Lexer::with_options("|psi+>", LexerOptions::default());
    let t = lx.next_token().unwrap().unwrap();
    match t.kind {
        TokenKind::QubitLiteral(s) => assert_eq!(s, "|psi+⟩"),
        _ => panic!("expected QubitLiteral"),
    }
}

#[test]
fn invalid_unterminated_ket() {
    let mut lx = Lexer::with_options("|psi+", LexerOptions::default());
    let err = lx.next_token().unwrap_err();
    match err {
        LexerError::InvalidQubitLiteral(_, _, _) => {}
        _ => panic!("expected InvalidQubitLiteral"),
    }
}

#[test]
fn keywords_identifiers_and_numbers() {
    assert_eq!(
        kinds("let x = 42.5;"),
        vec![
            TokenKind::Let,
            TokenKind::Identifier("x".to_string()),
            TokenKind::Equals,
            TokenKind::NumberLiteral("42.5".to_string()),
            TokenKind::Semicolon,
            TokenKind::EOF,
        ]
    );
}

#[test]
fn positions_follow_lines() {
    let mut lx = Lexer::from_str("a\n  bc");
    let toks = lx.tokenize().unwrap();
    assert_eq!((toks[0].line, toks[0].column), (1, 1));
    assert_eq!((toks[1].line, toks[1].column), (2, 3));
    assert_eq!(toks[1].lexeme, "bc");
}

#[test]
fn string_escapes_and_unicode() {
    let mut lx = Lexer::from_str("\"a\\n\\u{41}\\\"\"");
    let t = lx.next_token().unwrap().unwrap();
    assert_eq!(t.kind, TokenKind::StringLiteral("a\nA\"".to_string()));
}

#[test]
fn unterminated_string_is_reported() {
    let mut lx = Lexer::from_str("\"abc");
    match lx.next_token() {
        Err(LexerError::UnterminatedString(1, 1)) => {}
        other => panic!("unexpected {:?}", other),
    }
}

#[test]
fn bad_unicode_escape_is_reported() {
    let mut lx = Lexer::from_str("\"\\u{D800}\"");
    match lx.next_token() {
        Err(LexerError::InvalidGlyph(s, _, _)) => assert_eq!(s, "\\u{55296}"),
        other => panic!("unexpected {:?}", other),
    }
}

#[test]
fn comments_are_skipped() {
    assert_eq!(
        kinds("// note\n⍝ also\n⦅ nested ⦅ x ⦆ ⦆ y"),
        vec![TokenKind::Identifier("y".to_string()), TokenKind::EOF]
    );
}

#[test]
fn unterminated_block_comment() {
    let mut lx = Lexer::from_str("⦅ open");
    assert!(matches!(lx.next_token(), Err(LexerError::UnterminatedComment(1, 1))));
}

#[test]
fn glyph_and_multi_char_operators() {
    assert_eq!(
        kinds("a ← b ⊗ c == d -> e || f"),
        vec![
            TokenKind::Identifier("a".to_string()),
            TokenKind::QuantumBind,
            TokenKind::Identifier("b".to_string()),
            TokenKind::QuantumTensor,
            TokenKind::Identifier("c".to_string()),
            TokenKind::DoubleEquals,
            TokenKind::Identifier("d".to_string()),
            TokenKind::Arrow,
            TokenKind::Identifier("e".to_string()),
            TokenKind::OrOr,
            TokenKind::Identifier("f".to_string()),
            TokenKind::EOF,
        ]
    );
}

#[test]
fn hieroglyph_and_unexpected_character() {
    assert_eq!(kinds("𓀀"), vec![TokenKind::HieroglyphicOp("𓀀".to_string()), TokenKind::EOF]);
    let mut lx = Lexer::from_str("#");
    assert!(matches!(lx.next_token(), Err(LexerError::UnexpectedCharacter('#', 1, 1))));
}

#[test]
fn ai_block_requires_authorisation() {
    let mut opts = LexerOptions::default();
    opts.markers.ai_start = '«';
    opts.markers.ai_end = '»';
    let mut lx = Lexer::with_options("«secret»", opts.clone());
    assert!(matches!(lx.next_token(), Err(LexerError::UnauthorizedAIAccess(1, 1))));
    opts.ai_access_authorized = true;
    let mut lx = Lexer::with_options("«secret» x", opts);
    let t = lx.next_token().unwrap().unwrap();
    assert_eq!(t.kind, TokenKind::StringLiteral("secret".to_string()));
    let t = lx.next_token().unwrap().unwrap();
    assert_eq!(t.kind, TokenKind::Identifier("x".to_string()));
}

#[test]
fn ai_block_size_limit() {
    let mut opts = LexerOptions::default();
    opts.markers.ai_start = '«';
    opts.markers.ai_end = '»';
    opts.ai_access_authorized = true;
    opts.max_ai_block_size = 3;
    let mut lx = Lexer::with_options("«abcd»", opts);
    assert!(matches!(lx.next_token(), Err(LexerError::AIContentTooLarge(1, 2))));
}

#[test]
fn mixed_numerals() {
    let mut opts = LexerOptions::default();
    opts.allow_mixed_numerals = true;
    let mut lx = Lexer::with_options("1\u{1D362}.5", opts);
    let t = lx.next_token().unwrap().unwrap();
    assert_eq!(t.kind, TokenKind::NumberLiteral("12.5".to_string()));
}

#[test]
fn end_of_input_repeats() {
    let mut lx = Lexer::from_str("");
    let a = lx.next_token().unwrap().unwrap();
    let b = lx.next_token().unwrap().unwrap();
    assert_eq!(a.kind, TokenKind::EOF);
    assert_eq!(b.kind, TokenKind::EOF);
}

#[test]
fn error_messages_match_display_text() {
    let e = LexerError::UnexpectedCharacter('#', 3, 7);
    assert_eq!(e.message(), "Unexpected character '#' at 3:7");
    let d = LexerError::Diagnostic("m".to_string(), 1, 2, Some("h".to_string()));
    assert_eq!(d.message(), "Diagnostic at 1:2: m\nHint: h");
}

#[test]
fn token_kinds_print_as_debug_does() {
    for kind in [
        TokenKind::Identifier("a\"b".to_string()),
        TokenKind::BooleanLiteral(true),
        TokenKind::EOF,
        TokenKind::Self_,
        TokenKind::QuantumBracketOpen,
    ] {
        assert_eq!(kind.debug_text(), format!("{:?}", kind));
    }
}

#[test]
fn number_kinds_print_as_doubles_do() {
    for (text, value) in [("1.5", 1.5f64), ("1", 1.0), ("2.50", 2.5), ("007", 7.0), ("0.25", 0.25)] {
        assert_eq!(TokenKind::NumberLiteral(text.to_string()).debug_text(), format!("NumberLiteral({:?})", value));
    }
}

#[test]
fn eof_repeats_without_moving() {
    let mut lx = Lexer::new("x", false);
    let first = lx.next_token().unwrap().unwrap();
    assert_eq!(first.kind, TokenKind::Identifier("x".to_string()));
    let eof = lx.next_token().unwrap().unwrap();
    assert_eq!(eof.kind, TokenKind::EOF);
    assert_eq!(eof.lexeme, "");
    let again = lx.next_token().unwrap().unwrap();
    assert_eq!((again.line, again.column), (eof.line, eof.column));
}
