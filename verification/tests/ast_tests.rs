use aeonmi::ast::{ASTNode, QuantumBindingType};
use aeonmi::token::TokenKind;

#[test]
fn test_if_else_node() {
    let cond = ASTNode::BooleanLiteral(true);
    let then_b = ASTNode::NumberLiteral("1.0".to_string());
    let else_b = ASTNode::NumberLiteral("0.0".to_string());
    let node = ASTNode::new_if(
        ASTNode::BooleanLiteral(true),
        ASTNode::NumberLiteral("1.0".to_string()),
        Some(ASTNode::NumberLiteral("0.0".to_string())),
    );
    if let ASTNode::If { condition, then_branch, else_branch } = node {
        assert_eq!(*condition, cond);
        assert_eq!(*then_branch, then_b);
        assert_eq!(*else_branch.unwrap(), else_b);
    } else {
        panic!("Expected If node");
    }
}

#[test]
fn test_quantum_op_node() {
    let qop = ASTNode::new_quantum_op(TokenKind::Superpose, vec![ASTNode::Identifier("q1".into())]);
    if let ASTNode::QuantumOp { op, qubits } = qop {
        assert_eq!(op, TokenKind::Superpose);
        assert_eq!(qubits[0], ASTNode::Identifier("q1".into()));
    } else {
        panic!("Expected QuantumOp node");
    }
}

#[test]
fn test_assignment_and_call_nodes() {
    let call = ASTNode::new_call(ASTNode::Identifier("f".into()), vec![ASTNode::NumberLiteral("1.0".to_string())]);
    let asn = ASTNode::new_assignment("x", call);
    let ASTNode::Assignment { name, value, .. } = asn else { panic!("Expected Assignment") };
    assert_eq!(name, "x");
    let ASTNode::Call { callee, args } = *value else { panic!("Expected Call") };
    assert_eq!(*callee, ASTNode::Identifier("f".into()));
    assert_eq!(args[0], ASTNode::NumberLiteral("1.0".to_string()));
}

#[test]
fn function_parameters_are_plain() {
    let f = ASTNode::new_function("add", vec!["a", "b"], vec![]);
    let ASTNode::Function { name, line, column, params, return_type, body } = f else { panic!("Expected Function") };
    assert_eq!(name, "add");
    assert_eq!((line, column), (0, 0));
    assert_eq!(params.len(), 2);
    assert_eq!(params[1].name, "b");
    assert!(params[0].type_annotation.is_none() && params[0].default.is_none() && !params[0].is_variadic);
    assert!(return_type.is_none());
    assert!(body.is_empty());
}

#[test]
fn binding_kind_from_hieroglyph() {
    let kinds: Vec<QuantumBindingType> = ["𓀀", "𓀁", "𓀂", "𓀃", "𓀄", "𓀇", "𓀉", "x"]
        .iter()
        .map(|s| match ASTNode::new_quantum_variable_decl_from_symbol("q", ASTNode::BooleanLiteral(true), s, 1, 2) {
            ASTNode::QuantumVariableDecl { binding_type, .. } => binding_type,
            _ => panic!("Expected QuantumVariableDecl"),
        })
        .collect();
    assert_eq!(
        kinds,
        vec![
            QuantumBindingType::Classical,
            QuantumBindingType::Superposition,
            QuantumBindingType::Tensor,
            QuantumBindingType::Approximation,
            QuantumBindingType::Classical,
            QuantumBindingType::Approximation,
            QuantumBindingType::Superposition,
            QuantumBindingType::Classical,
        ]
    );
}

#[test]
fn for_loop_parts_are_boxed_when_present() {
    let node = ASTNode::new_for(None, Some(ASTNode::BooleanLiteral(false)), None, ASTNode::Block(vec![]));
    let ASTNode::For { init, condition, increment, body } = node else { panic!("Expected For") };
    assert!(init.is_none() && increment.is_none());
    assert_eq!(*condition.unwrap(), ASTNode::BooleanLiteral(false));
    assert_eq!(*body, ASTNode::Block(vec![]));
}
