use aeonmi::lexer::Lexer;
use aeonmi::qube_ast::{AssertOp, QubeExpr, QubeNode};
use aeonmi::qube_parser::{QubeParseError, QubeParser};
use aeonmi::token::{Token, TokenKind};

fn toks(kinds: Vec<TokenKind>) -> Vec<Token> {
    kinds.into_iter().enumerate().map(|(i, k)| Token::new(k, String::new(), 1, i + 1)).collect()
}

fn id(s: &str) -> TokenKind {
    TokenKind::Identifier(s.to_string())
}

fn num(s: &str) -> TokenKind {
    TokenKind::NumberLiteral(s.to_string())
}

fn ket(s: &str) -> TokenKind {
    TokenKind::QubitLiteral(s.to_string())
}

fn parse(kinds: Vec<TokenKind>) -> Result<Vec<QubeNode>, QubeParseError> {
    match QubeParser::new(toks(kinds)).parse()? {
        QubeNode::Program(stmts) => Ok(stmts),
        other => panic!("expected a program, got {:?}", other),
    }
}

fn terms(e: &QubeExpr) -> Vec<(String, String)> {
    match e {
        QubeExpr::Superposition(ts) => ts.iter().map(|t| (t.amplitude.clone(), t.state.clone())).collect(),
        other => panic!("expected a superposition, got {:?}", other),
    }
}

#[test]
fn empty_input_is_an_empty_program() {
    assert!(parse(vec![]).unwrap().is_empty());
}

#[test]
fn state_with_weighted_superposition() {
    let stmts = parse(vec![
        id("state"), id("q"), TokenKind::Equals,
        num("0.707"), ket("|0⟩"), TokenKind::Plus, num("0.707"), ket("|1⟩"), TokenKind::Semicolon,
    ])
    .unwrap();
    assert_eq!(stmts.len(), 1);
    let QubeNode::StateDecl { name, value } = &stmts[0] else { panic!("expected a state") };
    assert_eq!(name, "q");
    assert_eq!(
        terms(value),
        vec![("0.707".to_string(), "|0⟩".to_string()), ("0.707".to_string(), "|1⟩".to_string())]
    );
}

#[test]
fn signed_terms_after_a_basis_state() {
    let stmts = parse(vec![
        id("state"), id("q"), TokenKind::Equals,
        ket("|0⟩"), TokenKind::Minus, num("0.5"), ket("|1⟩"), TokenKind::Plus, ket("|+⟩"), TokenKind::Minus, ket("|-⟩"),
    ])
    .unwrap();
    let QubeNode::StateDecl { value, .. } = &stmts[0] else { panic!("expected a state") };
    assert_eq!(
        terms(value),
        vec![
            ("1".to_string(), "|0⟩".to_string()),
            ("-0.5".to_string(), "|1⟩".to_string()),
            ("1".to_string(), "|+⟩".to_string()),
            ("-1".to_string(), "|-⟩".to_string()),
        ]
    );
}

#[test]
fn gate_applications() {
    let stmts = parse(vec![
        id("apply"), id("Rx"), TokenKind::OpenParen, num("1.5708"), TokenKind::CloseParen, TokenKind::Arrow, id("q"),
        id("apply"), id("CNOT"), TokenKind::OpenParen, id("q0"), TokenKind::Comma, id("q1"), TokenKind::CloseParen,
        TokenKind::Semicolon,
        id("apply"), id("H"), TokenKind::Arrow, id("q"),
    ])
    .unwrap();
    assert_eq!(stmts.len(), 3);
    match &stmts[0] {
        QubeNode::GateApply { gate, targets, angle } => {
            assert_eq!(gate, "Rx");
            assert_eq!(targets, &vec!["q".to_string()]);
            assert_eq!(angle.as_deref(), Some("1.5708"));
        }
        other => panic!("unexpected {:?}", other),
    }
    match &stmts[1] {
        QubeNode::GateApply { gate, targets, angle } => {
            assert_eq!(gate, "CNOT");
            assert_eq!(targets, &vec!["q0".to_string(), "q1".to_string()]);
            assert!(angle.is_none());
        }
        other => panic!("unexpected {:?}", other),
    }
    assert!(matches!(&stmts[2], QubeNode::GateApply { gate, .. } if gate == "H"));
}

#[test]
fn collapse_assert_and_log() {
    let stmts = parse(vec![
        id("collapse"), id("q"), TokenKind::Arrow, id("r"),
        id("assert"), id("r"), TokenKind::QuantumIn, TokenKind::OpenBrace, num("0"), TokenKind::Comma, num("1"),
        TokenKind::CloseBrace,
        id("assert"), id("r"), TokenKind::DoubleEquals, num("1"),
        TokenKind::QuantumComment,
        TokenKind::Log, TokenKind::OpenParen, id("r"), TokenKind::CloseParen,
        id("print"), TokenKind::StringLiteral("done".to_string()),
    ])
    .unwrap();
    assert_eq!(stmts.len(), 5);
    assert!(matches!(&stmts[0], QubeNode::Collapse { state, result } if state == "q" && result == "r"));
    match &stmts[1] {
        QubeNode::Assert { state, op, values } => {
            assert_eq!(state, "r");
            assert_eq!(*op, AssertOp::In);
            assert_eq!(values.len(), 2);
            assert!(matches!(&values[1], QubeExpr::Number(n) if n == "1"));
        }
        other => panic!("unexpected {:?}", other),
    }
    assert!(matches!(&stmts[2], QubeNode::Assert { op: AssertOp::Eq, values, .. } if values.len() == 1));
    assert!(matches!(&stmts[3], QubeNode::Log(QubeExpr::Ident(x)) if x == "r"));
    assert!(matches!(&stmts[4], QubeNode::Log(QubeExpr::Str(x)) if x == "done"));
}

#[test]
fn errors_name_the_expected_token_and_its_place() {
    let e = parse(vec![id("state"), num("5")]).unwrap_err();
    assert_eq!(e.message, "Expected state name after 'state'");
    assert_eq!((e.line, e.column), (1, 2));
    let e = parse(vec![id("collapse"), id("q"), id("r")]).unwrap_err();
    assert_eq!(e.message, "Expected '->' after state name in collapse");
    assert_eq!(e.column, 3);
    let e = parse(vec![TokenKind::Semicolon]).unwrap_err();
    assert_eq!(e.message, "Unexpected token Semicolon");
    let e = parse(vec![id("assert"), id("r"), TokenKind::LessThan, num("1")]).unwrap_err();
    assert_eq!(e.message, "Expected '∈' or '==' in assert, got LessThan");
    let e = parse(vec![id("log"), TokenKind::Comma]).unwrap_err();
    assert_eq!(e.message, "Expected QUBE expression, got Comma");
    assert_eq!(e.to_text(), "QUBE parse error at 1:2: Expected QUBE expression, got Comma");
}

#[test]
fn parses_lexed_source() {
    let mut lx = Lexer::from_str("state q = |0⟩\napply H -> q\ncollapse q -> r\n");
    let tokens = lx.tokenize().unwrap();
    let mut p = QubeParser::new(tokens);
    let QubeNode::Program(stmts) = p.parse().unwrap() else { panic!("expected a program") };
    assert_eq!(stmts.len(), 3);
    assert!(matches!(&stmts[0], QubeNode::StateDecl { value: QubeExpr::QubitLiteral(k), .. } if k == "|0⟩"));
}
