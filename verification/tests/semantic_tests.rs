use aeonmi::ast::ASTNode;
use aeonmi::enhanced_error::ErrorKind;
use aeonmi::enhanced_semantic::{DiagnosticCategory, DiagnosticSeverity, EnhancedSemanticAnalyzer, Type};

fn num(s: &str) -> ASTNode {
    ASTNode::NumberLiteral(s.to_string())
}

fn var(name: &str, value: ASTNode, line: usize, column: usize) -> ASTNode {
    ASTNode::new_variable_decl_at(name, value, line, column)
}

#[test]
fn empty_program_has_no_diagnostics() {
    let mut a = EnhancedSemanticAnalyzer::new();
    assert!(a.analyze(&ASTNode::Program(vec![])).is_ok());
    assert!(a.get_diagnostics().is_empty());
}

#[test]
fn assignment_to_undefined_variable_is_an_error() {
    let mut a = EnhancedSemanticAnalyzer::new();
    a.set_current_file("main.ai".to_string());
    let prog = ASTNode::Program(vec![ASTNode::new_assignment_at("x", num("1"), 3, 5)]);
    let ds = a.analyze(&prog).unwrap_err();
    assert_eq!(ds.len(), 1);
    assert_eq!(ds[0].error.message, "Undefined variable 'x'");
    assert_eq!(ds[0].error.kind, ErrorKind::UndefinedVariable);
    assert_eq!(ds[0].severity, DiagnosticSeverity::Error);
    assert_eq!(ds[0].category, DiagnosticCategory::UndefinedVariable);
    assert_eq!(ds[0].error.suggestion.as_deref(), Some("Did you mean to declare it with 'let x'?"));
    assert_eq!(ds[0].error.span.start.file, "main.ai");
    assert_eq!((ds[0].error.span.start.line, ds[0].error.span.start.column, ds[0].error.span.start.length), (3, 5, 1));
}

#[test]
fn builtins_are_immutable() {
    let mut a = EnhancedSemanticAnalyzer::new();
    let prog = ASTNode::Program(vec![ASTNode::new_assignment_at("print", num("1"), 1, 1)]);
    let ds = a.analyze(&prog).unwrap_err();
    assert_eq!(ds.len(), 1);
    assert_eq!(ds[0].error.message, "Cannot assign to immutable variable 'print'");
    assert_eq!(ds[0].category, DiagnosticCategory::InvalidOperation);
    assert_eq!(ds[0].error.suggestion.as_deref(), Some("Declare the variable as mutable"));
}

#[test]
fn unused_variable_in_block_is_a_warning() {
    let mut a = EnhancedSemanticAnalyzer::new();
    let prog = ASTNode::Program(vec![ASTNode::Block(vec![var("y", num("2"), 4, 7), var("_z", num("3"), 5, 1)])]);
    assert!(a.analyze(&prog).is_ok());
    let ds = a.get_diagnostics();
    assert_eq!(ds.len(), 1);
    assert_eq!(ds[0].error.message, "Unused variable 'y'");
    assert_eq!(ds[0].severity, DiagnosticSeverity::Warning);
    assert_eq!(ds[0].category, DiagnosticCategory::UnusedVariable);
    assert_eq!(ds[0].error.kind, ErrorKind::UnreachableCode);
    assert_eq!(ds[0].error.suggestion.as_deref(), Some("Prefix with underscore if intentionally unused: '_y'"));
    assert_eq!((ds[0].error.span.start.line, ds[0].error.span.start.column), (4, 7));
}

#[test]
fn assigned_variable_is_used() {
    let mut a = EnhancedSemanticAnalyzer::new();
    let prog = ASTNode::Program(vec![ASTNode::Block(vec![
        var("y", num("2"), 1, 1),
        ASTNode::new_assignment_at("y", num("3"), 2, 1),
    ])]);
    assert!(a.analyze(&prog).is_ok());
    assert!(a.get_diagnostics().is_empty());
}

#[test]
fn redeclaration_in_the_same_scope_is_an_error() {
    let mut a = EnhancedSemanticAnalyzer::new();
    let prog = ASTNode::Program(vec![var("x", num("1"), 1, 1), var("x", num("2"), 2, 1)]);
    let ds = a.analyze(&prog).unwrap_err();
    assert_eq!(ds.len(), 1);
    assert_eq!(ds[0].error.message, "Variable 'x' is already defined in this scope");
    assert_eq!(ds[0].category, DiagnosticCategory::RedefinedSymbol);
    assert_eq!(ds[0].error.suggestion.as_deref(), Some("Consider using a different name"));
}

#[test]
fn shadowing_in_an_inner_scope_is_allowed() {
    let mut a = EnhancedSemanticAnalyzer::new();
    let prog = ASTNode::Program(vec![
        var("v", num("1"), 1, 1),
        ASTNode::Block(vec![var("v", ASTNode::StringLiteral("s".to_string()), 2, 3)]),
    ]);
    assert!(a.analyze(&prog).is_ok());
    let ds = a.get_diagnostics();
    assert_eq!(ds.len(), 1);
    assert_eq!(ds[0].error.message, "Unused variable 'v'");
    assert_eq!(ds[0].error.span.start.line, 2);
}

#[test]
fn return_outside_function_is_an_error() {
    let mut a = EnhancedSemanticAnalyzer::new();
    let prog = ASTNode::Program(vec![ASTNode::new_return(num("1"))]);
    let ds = a.analyze(&prog).unwrap_err();
    assert_eq!(ds.len(), 1);
    assert_eq!(ds[0].error.message, "Return statement outside function");
    assert_eq!((ds[0].error.span.start.line, ds[0].error.span.start.column, ds[0].error.span.start.length), (0, 0, 6));
}

#[test]
fn function_declarations() {
    let mut a = EnhancedSemanticAnalyzer::new();
    let f = ASTNode::new_function("f", vec!["a"], vec![ASTNode::new_return(num("1"))]);
    let g = ASTNode::new_function("f", vec![], vec![]);
    let ds = a.analyze(&ASTNode::Program(vec![f, g])).unwrap_err();
    assert_eq!(ds.len(), 2);
    assert_eq!(ds[0].error.message, "Unused variable 'a'");
    assert_eq!(ds[0].severity, DiagnosticSeverity::Warning);
    assert_eq!(ds[1].error.message, "Function 'f' is already defined");
    assert_eq!(
        ds[1].error.suggestion.as_deref(),
        Some("Consider using a different name or removing the duplicate definition")
    );
}

#[test]
fn type_mismatch_in_condition_is_reported_at_the_identifier() {
    let mut a = EnhancedSemanticAnalyzer::new();
    let prog = ASTNode::Program(vec![
        var("n", num("1"), 1, 1),
        ASTNode::new_if(ASTNode::new_identifier_spanned("n", 2, 4, 1), ASTNode::Block(vec![]), None),
    ]);
    let ds = a.analyze(&prog).unwrap_err();
    assert_eq!(ds.len(), 1);
    assert_eq!(ds[0].error.message, "Type mismatch: expected boolean, found number");
    assert_eq!(ds[0].category, DiagnosticCategory::TypeMismatch);
    assert_eq!((ds[0].error.span.start.line, ds[0].error.span.start.column), (2, 4));
}

#[test]
fn earlier_diagnostics_are_dropped_by_a_new_analysis() {
    let mut a = EnhancedSemanticAnalyzer::new();
    assert!(a.analyze(&ASTNode::Program(vec![ASTNode::new_return(num("1"))])).is_err());
    assert!(a.analyze(&ASTNode::Program(vec![])).is_ok());
    assert!(a.get_diagnostics().is_empty());
}

#[test]
fn type_texts() {
    assert_eq!(Type::function(vec![Type::Number, Type::String], Type::Void).to_text(), "function(number, string) -> void");
    assert_eq!(Type::function(vec![], Type::Any).to_text(), "function() -> any");
    assert_eq!(Type::Array(Box::new(Type::Qubit)).to_text(), "array<qubit>");
    assert_eq!(Type::Struct("P".to_string()).to_text(), "struct P");
    assert_eq!(Type::QuantumArray(Box::new(Type::Unknown)).to_text(), "quantum_array<unknown>");
}

#[test]
fn type_equality() {
    let a = Type::function(vec![Type::Number], Type::Boolean);
    let b = Type::function(vec![Type::Number], Type::Boolean);
    let c = Type::function(vec![Type::String], Type::Boolean);
    assert!(a.equals(&b));
    assert!(!a.equals(&c));
    assert!(a.duplicate().equals(&a));
    assert!(!Type::Class("A".to_string()).equals(&Type::Struct("A".to_string())));
}
