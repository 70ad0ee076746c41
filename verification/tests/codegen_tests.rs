use aeonmi::ast::{ASTNode, MatchArm};
use aeonmi::code_generator::CodeGenerator;
use aeonmi::token::TokenKind;

fn ident(s: &str) -> ASTNode {
    ASTNode::Identifier(s.to_string())
}

fn num(s: &str) -> ASTNode {
    ASTNode::NumberLiteral(s.to_string())
}

#[test]
fn gen_let_and_log_js() {
    let ast = ASTNode::Program(vec![
        ASTNode::new_variable_decl("x", num("42")),
        ASTNode::new_log(ident("x")),
    ]);
    let mut g = CodeGenerator::new();
    let js = g.generate(&ast).unwrap();
    assert!(js.contains("let x = 42;"));
    assert!(js.contains("console.log(x);"));
    assert_eq!(js, "let x = 42;\nconsole.log(x);\n");
}

#[test]
fn gen_assignment_and_call_js() {
    let call = ASTNode::new_call(ident("add"), vec![num("2"), num("3")]);
    let prog = ASTNode::Program(vec![ASTNode::new_assignment("x", call)]);
    let mut g = CodeGenerator::new();
    let js = g.generate(&prog).unwrap();
    assert!(js.contains("x = add(2, 3);"));
    assert_eq!(js, "x = add(2, 3);\n");
}

#[test]
fn gen_ai_backend_is_refused() {
    let ast = ASTNode::Program(vec![ASTNode::new_variable_decl("x", num("1"))]);
    let mut g = CodeGenerator::new_ai();
    assert!(g.generate(&ast).is_err());
}

#[test]
fn gen_len_call_brings_its_helper() {
    let prog = ASTNode::Program(vec![ASTNode::new_call(ident("len"), vec![ident("a")])]);
    let mut g = CodeGenerator::new();
    let js = g.generate(&prog).unwrap();
    assert!(js.starts_with("const __aeonmi_len"));
    assert!(js.ends_with("\n__aeonmi_len(a);\n"));
    let again = g.generate(&ASTNode::Program(vec![ASTNode::new_log(ident("a"))])).unwrap();
    assert_eq!(again, "console.log(a);\n");
}

#[test]
fn gen_if_block_is_indented() {
    let cond = ASTNode::new_binary_expr(TokenKind::LessThan, ident("a"), num("1"));
    let body = ASTNode::Block(vec![ASTNode::new_log(ident("a"))]);
    let prog = ASTNode::Program(vec![ASTNode::new_if(cond, body, None)]);
    let mut g = CodeGenerator::new();
    assert_eq!(g.generate(&prog).unwrap(), "if ((a < 1)) {\n  console.log(a);\n}\n");
}

#[test]
fn gen_if_without_block_is_braced() {
    let prog = ASTNode::Program(vec![ASTNode::new_if(
        ident("ok"),
        ASTNode::new_return(num("1")),
        Some(ASTNode::new_return(num("2"))),
    )]);
    let mut g = CodeGenerator::new();
    assert_eq!(g.generate(&prog).unwrap(), "if (ok) {\n  return 1;\n} else {\n  return 2;\n}\n");
}

#[test]
fn gen_string_literal_is_escaped() {
    let mut g = CodeGenerator::new();
    let js = g.emit_expr_js(&ASTNode::StringLiteral("a\"b\\c\nd".to_string()));
    assert_eq!(js, "\"a\\\"b\\\\c\\nd\"");
}

#[test]
fn gen_function_declaration() {
    let f = ASTNode::new_function("add", vec!["a", "b"], vec![ASTNode::new_return(ASTNode::new_binary_expr(
        TokenKind::Plus,
        ident("a"),
        ident("b"),
    ))]);
    let mut g = CodeGenerator::new();
    assert_eq!(g.emit_js(&f), "function add(a, b) {\n  return (a + b);\n}\n");
}

#[test]
fn gen_match_as_if_chain() {
    let arms = vec![
        MatchArm { pattern: num("1"), guard: None, body: ASTNode::new_log(ident("one")), line: 1, column: 1 },
        MatchArm { pattern: ident("_"), guard: None, body: ASTNode::new_log(ident("other")), line: 2, column: 1 },
    ];
    let m = ASTNode::MatchExpr { value: Box::new(ident("v")), arms, line: 1, column: 1 };
    let mut g = CodeGenerator::new();
    assert_eq!(
        g.emit_js(&m),
        "let __match_val = v;\nif ((__match_val === 1)) {\n  console.log(one);\n}\nelse if (true) {\n  console.log(other);\n}\n"
    );
}

#[test]
fn gen_quantum_op_statement_needs_runtime() {
    let prog = ASTNode::Program(vec![ASTNode::new_quantum_op(TokenKind::Measure, vec![ident("q")])]);
    let mut g = CodeGenerator::new();
    let js = g.generate(&prog).unwrap();
    assert!(js.ends_with("measure(q);\n"));
    assert!(js.len() > "measure(q);\n".len());
}

#[test]
fn gen_if_expression_returns_last_value() {
    let e = ASTNode::new_if(ident("c"), ASTNode::Block(vec![num("1")]), Some(num("2")));
    let mut g = CodeGenerator::new();
    assert_eq!(
        g.emit_expr_js(&e),
        "((() => { if (c) {\nreturn (1);\n} else {\nreturn (2);\n} return undefined; })())"
    );
}

#[test]
fn gen_numbers_in_shortest_form() {
    let mut g = CodeGenerator::new();
    assert_eq!(g.emit_expr_js(&num("42.0")), "42");
    assert_eq!(g.emit_expr_js(&num("007")), "7");
    assert_eq!(g.emit_expr_js(&num("3.140")), "3.14");
    assert_eq!(g.emit_expr_js(&num("0.5")), "0.5");
    assert_eq!(g.emit_expr_js(&num("0")), "0");
    assert_eq!(g.emit_expr_js(&num("10")), "10");
}

#[test]
fn diagnostic_location_line() {
    assert_eq!(aeonmi::diagnostics::location_text("main.ai", 12, 3), "main.ai:12:3");
}

#[test]
fn gen_program_twice_gives_the_same_text() {
    let prog = ASTNode::Program(vec![ASTNode::new_call(ident("len"), vec![ident("a")])]);
    let mut g = CodeGenerator::new();
    let first = g.generate(&prog).unwrap();
    let second = g.generate(&prog).unwrap();
    assert_eq!(first, second);
}
