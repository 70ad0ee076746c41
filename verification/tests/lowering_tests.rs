use aeonmi::ast::ASTNode;
use aeonmi::ir::{BinOp, Expr, Lit, UnOp};
use aeonmi::lowering::lower_expr_ast;
use aeonmi::token::TokenKind;

fn ident(s: &str) -> ASTNode {
    ASTNode::Identifier(s.to_string())
}

fn ir_ident(s: &str) -> Expr {
    Expr::Ident(s.to_string())
}

#[test]
fn lower_binary_and_unary() {
    let n = ASTNode::new_binary_expr(
        TokenKind::Plus,
        ASTNode::NumberLiteral("1".to_string()),
        ASTNode::new_unary_expr(TokenKind::Minus, ident("x")),
    );
    assert_eq!(
        lower_expr_ast(&n),
        Ok(Expr::Binary {
            left: Box::new(Expr::Lit(Lit::Number("1".to_string()))),
            op: BinOp::Add,
            right: Box::new(Expr::Unary { op: UnOp::Neg, expr: Box::new(ir_ident("x")) }),
        })
    );
}

#[test]
fn lower_unknown_operator_is_eq() {
    let n = ASTNode::new_binary_expr(TokenKind::AndAnd, ident("a"), ident("b"));
    assert_eq!(
        lower_expr_ast(&n),
        Ok(Expr::Binary { left: Box::new(ir_ident("a")), op: BinOp::Eq, right: Box::new(ir_ident("b")) })
    );
}

#[test]
fn lower_log_and_glyph_become_calls() {
    let log = ASTNode::new_log(ident("x"));
    assert_eq!(lower_expr_ast(&log), Ok(Expr::Call { callee: Box::new(ir_ident("log")), args: vec![ir_ident("x")] }));
    let glyph = ASTNode::new_hieroglyphic_op("𓀀", vec![ident("q")]);
    assert_eq!(
        lower_expr_ast(&glyph),
        Ok(Expr::Call {
            callee: Box::new(ir_ident("__glyph")),
            args: vec![Expr::Lit(Lit::String("𓀀".to_string())), ir_ident("q")],
        })
    );
}

#[test]
fn lower_index_access() {
    let q = ASTNode::new_quantum_index_access(ident("a"), ident("i"), true);
    assert_eq!(
        lower_expr_ast(&q),
        Ok(Expr::Call { callee: Box::new(ir_ident("__quantum_index")), args: vec![ir_ident("a"), ir_ident("i")] })
    );
    let c = ASTNode::new_quantum_index_access(ident("a"), ident("i"), false);
    assert_eq!(
        lower_expr_ast(&c),
        Ok(Expr::Call { callee: Box::new(ir_ident("__index_access")), args: vec![ir_ident("a"), ir_ident("i")] })
    );
}

#[test]
fn lower_statements_and_others() {
    let a = ASTNode::new_assignment("x", ident("y"));
    assert_eq!(lower_expr_ast(&a), Ok(Expr::Object(vec![])));
    let o = ASTNode::new_object_literal(vec![]);
    assert_eq!(
        lower_expr_ast(&o),
        Ok(Expr::Lit(Lit::String("/* Quantum AST node not yet implemented in lowering */".to_string())))
    );
    let s = ASTNode::new_quantum_state("|0⟩", Some("0.5".to_string()));
    assert_eq!(lower_expr_ast(&s), Ok(Expr::Lit(Lit::String("|0⟩ /* amplitude: 0.5 */".to_string()))));
}

#[test]
fn lower_method_call() {
    let m = ASTNode::new_method_call(ident("v"), "push", vec![ASTNode::BooleanLiteral(true)], vec![]);
    assert_eq!(
        lower_expr_ast(&m),
        Ok(Expr::Call {
            callee: Box::new(Expr::Member { object: Box::new(ir_ident("v")), property: "push".to_string() }),
            args: vec![Expr::Lit(Lit::Bool(true))],
        })
    );
}

use aeonmi::ast::MatchArm;
use aeonmi::ir::{Block, Stmt};
use aeonmi::lowering::lower_stmt_ast;

#[test]
fn lower_if_with_blocks() {
    let n = ASTNode::new_if(
        ident("c"),
        ASTNode::Block(vec![ASTNode::new_log(ident("a")), ASTNode::new_return(ident("b"))]),
        Some(ASTNode::new_return(ident("d"))),
    );
    assert_eq!(
        lower_stmt_ast(&n),
        Ok(Stmt::If {
            cond: ir_ident("c"),
            then_block: Block {
                stmts: vec![
                    Stmt::Expr(Expr::Call { callee: Box::new(ir_ident("log")), args: vec![ir_ident("a")] }),
                    Stmt::Return(Some(ir_ident("b"))),
                ],
            },
            else_block: Some(Block { stmts: vec![Stmt::Return(Some(ir_ident("d")))] }),
        })
    );
}

#[test]
fn lower_blocks_by_size() {
    assert_eq!(lower_stmt_ast(&ASTNode::Block(vec![])), Ok(Stmt::Expr(Expr::Object(vec![]))));
    assert_eq!(lower_stmt_ast(&ASTNode::Block(vec![ident("x")])), Ok(Stmt::Expr(ir_ident("x"))));
    assert_eq!(
        lower_stmt_ast(&ASTNode::Block(vec![ident("x"), ident("y")])),
        Ok(Stmt::Block(vec![Stmt::Expr(ir_ident("x")), Stmt::Expr(ir_ident("y"))]))
    );
}

#[test]
fn lower_declarations() {
    let v = ASTNode::new_variable_decl("x", ASTNode::NumberLiteral("2".to_string()));
    assert_eq!(
        lower_stmt_ast(&v),
        Ok(Stmt::Let { name: "x".to_string(), value: Some(Expr::Lit(Lit::Number("2".to_string()))) })
    );
    let s = ASTNode::new_struct_decl("P", vec![], 1, 1);
    assert_eq!(
        lower_stmt_ast(&s),
        Ok(Stmt::Let { name: "__struct_P".to_string(), value: Some(Expr::Lit(Lit::String("P".to_string()))) })
    );
    let a = ASTNode::new_assignment("x", ident("y"));
    assert_eq!(lower_stmt_ast(&a), Ok(Stmt::Assign { target: ir_ident("x"), value: ir_ident("y") }));
}

#[test]
fn lower_match_to_if_chain() {
    let arms = vec![
        MatchArm { pattern: ASTNode::NumberLiteral("1".to_string()), guard: None, body: ident("one"), line: 1, column: 1 },
        MatchArm { pattern: ident("_"), guard: None, body: ident("other"), line: 2, column: 1 },
    ];
    let m = ASTNode::new_match_expr(ident("v"), arms, 1, 1);
    let inner = Stmt::If {
        cond: Expr::Lit(Lit::Bool(true)),
        then_block: Block { stmts: vec![Stmt::Expr(ir_ident("other"))] },
        else_block: Some(Block { stmts: vec![Stmt::Expr(Expr::Object(vec![]))] }),
    };
    assert_eq!(
        lower_stmt_ast(&m),
        Ok(Stmt::If {
            cond: Expr::Binary {
                left: Box::new(ir_ident("v")),
                op: BinOp::Eq,
                right: Box::new(Expr::Lit(Lit::Number("1".to_string()))),
            },
            then_block: Block { stmts: vec![Stmt::Expr(ir_ident("one"))] },
            else_block: Some(Block { stmts: vec![inner] }),
        })
    );
}

#[test]
fn lower_quantum_try_catch_default_probability() {
    let n = ASTNode::QuantumTryCatch { attempt_body: vec![], error_probability: None, catch_body: None, success_body: None };
    assert_eq!(
        lower_stmt_ast(&n),
        Ok(Stmt::Expr(Expr::Call {
            callee: Box::new(ir_ident("__quantum_try_catch")),
            args: vec![
                Expr::Lit(Lit::Number("0.1".to_string())),
                Expr::Lit(Lit::String("attempt_block".to_string())),
                Expr::Lit(Lit::String("catch_block".to_string())),
            ],
        }))
    );
}
