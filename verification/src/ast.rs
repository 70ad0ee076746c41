//! The abstract syntax tree built by the parser and read by the later passes.
//!
//! Numbers are carried as their decimal text, as the lexer produced them; a pass
//! that needs the numeric value reads it from that text.

use vstd::prelude::*;
use crate::text::owned;
use crate::token::TokenKind;

verus! {

/// A node of the syntax tree.
#[derive(Debug, PartialEq)]
pub enum ASTNode {
    Program(Vec<ASTNode>),
    Module { path: Vec<String>, body: Vec<ASTNode> },
    Import { path: Vec<String>, items: Option<Vec<String>> },
    RecordDecl { name: String, fields: Vec<(String, Option<ASTNode>)>, line: usize, column: usize },
    EnumDecl { name: String, variants: Vec<String>, line: usize, column: usize },
    TypeAlias { name: String, target: Box<ASTNode>, line: usize, column: usize },
    Function {
        name: String,
        line: usize,
        column: usize,
        params: Vec<FunctionParam>,
        return_type: Option<String>,
        body: Vec<ASTNode>,
    },
    FunctionExpr {
        name: Option<String>,
        line: usize,
        column: usize,
        params: Vec<FunctionParam>,
        body: Vec<ASTNode>,
    },
    ClassDecl {
        name: String,
        superclass: Option<String>,
        methods: Vec<ASTNode>,
        line: usize,
        column: usize,
    },
    StructDecl { name: String, fields: Vec<StructField>, line: usize, column: usize },
    TraitDecl { name: String, methods: Vec<ASTNode>, line: usize, column: usize },
    ImplBlock {
        trait_name: Option<String>,
        type_ident: String,
        methods: Vec<ASTNode>,
        line: usize,
        column: usize,
    },
    VariableDecl {
        name: String,
        type_annotation: Option<String>,
        value: Box<ASTNode>,
        line: usize,
        column: usize,
    },
    Block(Vec<ASTNode>),
    Return(Box<ASTNode>),
    Log(Box<ASTNode>),
    If { condition: Box<ASTNode>, then_branch: Box<ASTNode>, else_branch: Option<Box<ASTNode>> },
    While { condition: Box<ASTNode>, body: Box<ASTNode> },
    For {
        init: Option<Box<ASTNode>>,
        condition: Option<Box<ASTNode>>,
        increment: Option<Box<ASTNode>>,
        body: Box<ASTNode>,
    },
    ForIn { binding: ForInBinding, iterable: Box<ASTNode>, body: Box<ASTNode> },
    Match { value: Box<ASTNode>, arms: Vec<MatchArm> },
    Assignment { name: String, value: Box<ASTNode>, line: usize, column: usize },
    Call { callee: Box<ASTNode>, args: Vec<ASTNode> },
    MethodCall {
        object: Box<ASTNode>,
        method: String,
        args: Vec<ASTNode>,
        named_args: Vec<(String, ASTNode)>,
    },
    BinaryExpr { op: TokenKind, left: Box<ASTNode>, right: Box<ASTNode> },
    UnaryExpr { op: TokenKind, expr: Box<ASTNode> },
    Identifier(String),
    IdentifierSpanned { name: String, line: usize, column: usize, len: usize },
    NumberLiteral(String),
    StringLiteral(String),
    BooleanLiteral(bool),
    ArrayLiteral(Vec<ASTNode>),
    ObjectLiteral(Vec<(String, ASTNode)>),
    StructLiteral { type_ident: String, fields: Vec<(String, ASTNode)> },
    TypeCast { expr: Box<ASTNode>, target_type: String },
    GenericType { base_type: String, type_args: Vec<String> },
    ReferenceExpr { is_mutable: bool, expr: Box<ASTNode> },
    IndexExpr { array: Box<ASTNode>, index: Box<ASTNode> },
    FieldAccess { object: Box<ASTNode>, field: String },
    MatchExpr { value: Box<ASTNode>, arms: Vec<MatchArm>, line: usize, column: usize },
    QuantumOp { op: TokenKind, qubits: Vec<ASTNode> },
    HieroglyphicOp { symbol: String, args: Vec<ASTNode> },
    QuantumArray { elements: Vec<ASTNode>, dimensions: Option<Vec<usize>>, is_superposition: bool },
    QuantumIndexAccess { array: Box<ASTNode>, index: Box<ASTNode>, is_quantum_index: bool },
    QuantumVariableDecl {
        name: String,
        binding_type: QuantumBindingType,
        value: Box<ASTNode>,
        line: usize,
        column: usize,
    },
    QuantumBinaryExpr { op: TokenKind, left: Box<ASTNode>, right: Box<ASTNode> },
    ProbabilityBranch {
        condition: Box<ASTNode>,
        probability: Option<String>,
        then_branch: Box<ASTNode>,
        else_branch: Option<Box<ASTNode>>,
    },
    QuantumLoop { condition: Box<ASTNode>, body: Box<ASTNode>, decoherence_threshold: Option<String> },
    SuperpositionSwitch { value: Box<ASTNode>, cases: Vec<SuperpositionCase> },
    QuantumFunction {
        func_type: QuantumFunctionType,
        name: String,
        params: Vec<FunctionParam>,
        body: Vec<ASTNode>,
        line: usize,
        column: usize,
    },
    QuantumState { state: String, amplitude: Option<String> },
    AILearningBlock { data_binding: Option<String>, model_binding: Option<String>, body: Vec<ASTNode> },
    TimeBlock { duration: Option<Box<ASTNode>>, body: Vec<ASTNode> },
    QuantumTryCatch {
        attempt_body: Vec<ASTNode>,
        error_probability: Option<String>,
        catch_body: Option<Vec<ASTNode>>,
        success_body: Option<Vec<ASTNode>>,
    },
    Error(String),
}

/// A parameter of a function declaration.
#[derive(Debug, PartialEq)]
pub struct FunctionParam {
    pub name: String,
    pub line: usize,
    pub column: usize,
    pub type_annotation: Option<String>,
    pub default: Option<Box<ASTNode>>,
    pub is_variadic: bool,
}

/// A field of a struct declaration.
#[derive(Debug, PartialEq)]
pub struct StructField {
    pub name: String,
    pub default: Option<ASTNode>,
    pub line: usize,
    pub column: usize,
}

/// The loop variable of a `for .. in` loop.
#[derive(Debug, PartialEq)]
pub struct ForInBinding {
    pub name: String,
    pub is_mutable: bool,
    pub type_annotation: Option<String>,
    pub line: usize,
    pub column: usize,
}

/// How a quantum variable is bound: `←`, `∈`, `⊗` or `≈`.
#[derive(Debug, PartialEq, Eq, Structural, Clone, Copy)]
pub enum QuantumBindingType {
    Classical,
    Superposition,
    Tensor,
    Approximation,
}

/// The kind of a function: classical `◯`, quantum `⊙` or neural `🧠`.
#[derive(Debug, PartialEq, Eq, Structural, Clone, Copy)]
pub enum QuantumFunctionType {
    Classical,
    Quantum,
    AINeural,
}

/// One case of a superposition switch: a basis-state pattern (or `*`) and its body.
#[derive(Debug, PartialEq)]
pub struct SuperpositionCase {
    pub pattern: String,
    pub body: Vec<ASTNode>,
}

/// One arm of a `match`.
#[derive(Debug, PartialEq)]
pub struct MatchArm {
    pub pattern: ASTNode,
    pub guard: Option<ASTNode>,
    pub body: ASTNode,
    pub line: usize,
    pub column: usize,
}

/// The binding kind a hieroglyphic declaration symbol stands for: the glyphs
/// U+13000..U+13009 cycle through classical, superposition, tensor and
/// approximation; any other symbol binds classically.
pub open spec fn binding_for_symbol(symbol: Seq<char>) -> QuantumBindingType {
    if symbol =~= seq!['\u{13000}'] || symbol =~= seq!['\u{13004}'] || symbol =~= seq!['\u{13008}'] {
        QuantumBindingType::Classical
    } else if symbol =~= seq!['\u{13001}'] || symbol =~= seq!['\u{13005}'] || symbol =~= seq!['\u{13009}'] {
        QuantumBindingType::Superposition
    } else if symbol =~= seq!['\u{13002}'] || symbol =~= seq!['\u{13006}'] {
        QuantumBindingType::Tensor
    } else if symbol =~= seq!['\u{13003}'] || symbol =~= seq!['\u{13007}'] {
        QuantumBindingType::Approximation
    } else {
        QuantumBindingType::Classical
    }
}

fn binding_for_symbol_exec(symbol: &str) -> (r: QuantumBindingType)
    ensures
        r == binding_for_symbol(symbol@),
{
    let cs = crate::text::chars_of(symbol);
    if cs.len() != 1 {
        assert(!(symbol@ =~= seq!['\u{13000}']) && !(symbol@ =~= seq!['\u{13004}']) && !(symbol@ =~= seq!['\u{13008}']));
        assert(!(symbol@ =~= seq!['\u{13001}']) && !(symbol@ =~= seq!['\u{13005}']) && !(symbol@ =~= seq!['\u{13009}']));
        assert(!(symbol@ =~= seq!['\u{13002}']) && !(symbol@ =~= seq!['\u{13006}']));
        assert(!(symbol@ =~= seq!['\u{13003}']) && !(symbol@ =~= seq!['\u{13007}']));
        return QuantumBindingType::Classical;
    }
    let c = cs[0];
    assert(symbol@ =~= seq![c]);
    if c == '\u{13000}' || c == '\u{13004}' || c == '\u{13008}' {
        QuantumBindingType::Classical
    } else if c == '\u{13001}' || c == '\u{13005}' || c == '\u{13009}' {
        QuantumBindingType::Superposition
    } else if c == '\u{13002}' || c == '\u{13006}' {
        QuantumBindingType::Tensor
    } else if c == '\u{13003}' || c == '\u{13007}' {
        QuantumBindingType::Approximation
    } else {
        QuantumBindingType::Classical
    }
}

/// A parameter with only a name: at 0:0, untyped, without default, not variadic.
pub open spec fn plain_param(p: FunctionParam, name: Seq<char>) -> bool {
    &&& p.name@ == name
    &&& p.line == 0
    &&& p.column == 0
    &&& p.type_annotation is None
    &&& p.default is None
    &&& !p.is_variadic
}

impl ASTNode {
    /// A function at 0:0 whose parameters are plain names, with no return type.
    pub fn new_function(name: &str, params: Vec<&str>, body: Vec<ASTNode>) -> (r: ASTNode)
        ensures
            r matches ASTNode::Function { name: n, line, column, params: ps, return_type, body: b }
                && n@ == name@ && line == 0 && column == 0 && return_type is None && b == body
                && ps@.len() == params@.len()
                && forall|i: int| 0 <= i < params@.len() ==> #[trigger] plain_param(ps@[i], params@[i]@),
    {
        let mut ps: Vec<FunctionParam> = Vec::new();
        let mut i: usize = 0;
        while i < params.len()
            invariant
                i <= params@.len(),
                ps@.len() == i,
                forall|j: int| 0 <= j < i ==> #[trigger] plain_param(ps@[j], params@[j]@),
            decreases params@.len() - i,
        {
            let p = FunctionParam {
                name: owned(params[i]),
                line: 0,
                column: 0,
                type_annotation: None,
                default: None,
                is_variadic: false,
            };
            ps.push(p);
            i += 1;
        }
        ASTNode::Function { name: owned(name), line: 0, column: 0, params: ps, return_type: None, body }
    }

    pub fn new_function_at(
        name: &str,
        line: usize,
        column: usize,
        params: Vec<FunctionParam>,
        body: Vec<ASTNode>,
        return_type: Option<String>,
    ) -> (r: ASTNode)
        ensures
            r matches ASTNode::Function { name: n, line: l, column: c, params: ps, return_type: rt, body: b }
                && n@ == name@ && l == line && c == column && ps == params && rt == return_type && b == body,
    {
        ASTNode::Function { name: owned(name), line, column, params, return_type, body }
    }

    pub fn new_function_expr(
        name: Option<String>,
        params: Vec<FunctionParam>,
        body: Vec<ASTNode>,
        line: usize,
        column: usize,
    ) -> (r: ASTNode)
        ensures
            r == (ASTNode::FunctionExpr { name, line, column, params, body }),
    {
        ASTNode::FunctionExpr { name, line, column, params, body }
    }

    pub fn new_class_decl(
        name: &str,
        superclass: Option<String>,
        methods: Vec<ASTNode>,
        line: usize,
        column: usize,
    ) -> (r: ASTNode)
        ensures
            r matches ASTNode::ClassDecl { name: n, superclass: s, methods: m, line: l, column: c }
                && n@ == name@ && s == superclass && m == methods && l == line && c == column,
    {
        ASTNode::ClassDecl { name: owned(name), superclass, methods, line, column }
    }

    pub fn new_struct_decl(name: &str, fields: Vec<StructField>, line: usize, column: usize) -> (r: ASTNode)
        ensures
            r matches ASTNode::StructDecl { name: n, fields: f, line: l, column: c }
                && n@ == name@ && f == fields && l == line && c == column,
    {
        ASTNode::StructDecl { name: owned(name), fields, line, column }
    }

    pub fn new_trait_decl(name: &str, methods: Vec<ASTNode>, line: usize, column: usize) -> (r: ASTNode)
        ensures
            r matches ASTNode::TraitDecl { name: n, methods: m, line: l, column: c }
                && n@ == name@ && m == methods && l == line && c == column,
    {
        ASTNode::TraitDecl { name: owned(name), methods, line, column }
    }

    pub fn new_impl_block(
        trait_name: Option<String>,
        type_ident: &str,
        methods: Vec<ASTNode>,
        line: usize,
        column: usize,
    ) -> (r: ASTNode)
        ensures
            r matches ASTNode::ImplBlock { trait_name: tn, type_ident: ty, methods: m, line: l, column: c }
                && tn == trait_name && ty@ == type_ident@ && m == methods && l == line && c == column,
    {
        ASTNode::ImplBlock { trait_name, type_ident: owned(type_ident), methods, line, column }
    }

    /// An untyped variable declaration at 0:0.
    pub fn new_variable_decl(name: &str, value: ASTNode) -> (r: ASTNode)
        ensures
            r matches ASTNode::VariableDecl { name: n, type_annotation: t, value: v, line: l, column: c }
                && n@ == name@ && t is None && *v == value && l == 0 && c == 0,
    {
        ASTNode::VariableDecl { name: owned(name), type_annotation: None, value: Box::new(value), line: 0, column: 0 }
    }

    pub fn new_variable_decl_at(name: &str, value: ASTNode, line: usize, column: usize) -> (r: ASTNode)
        ensures
            r matches ASTNode::VariableDecl { name: n, type_annotation: t, value: v, line: l, column: c }
                && n@ == name@ && t is None && *v == value && l == line && c == column,
    {
        ASTNode::VariableDecl { name: owned(name), type_annotation: None, value: Box::new(value), line, column }
    }

    pub fn new_variable_decl_typed(
        name: &str,
        type_annotation: Option<String>,
        value: ASTNode,
        line: usize,
        column: usize,
    ) -> (r: ASTNode)
        ensures
            r matches ASTNode::VariableDecl { name: n, type_annotation: t, value: v, line: l, column: c }
                && n@ == name@ && t == type_annotation && *v == value && l == line && c == column,
    {
        ASTNode::VariableDecl { name: owned(name), type_annotation, value: Box::new(value), line, column }
    }

    pub fn new_quantum_array(elements: Vec<ASTNode>, is_superposition: bool) -> (r: ASTNode)
        ensures
            r == (ASTNode::QuantumArray { elements, dimensions: None, is_superposition }),
    {
        ASTNode::QuantumArray { elements, dimensions: None, is_superposition }
    }

    pub fn new_quantum_array_multidim(elements: Vec<ASTNode>, dimensions: Vec<usize>) -> (r: ASTNode)
        ensures
            r == (ASTNode::QuantumArray { elements, dimensions: Some(dimensions), is_superposition: false }),
    {
        ASTNode::QuantumArray { elements, dimensions: Some(dimensions), is_superposition: false }
    }

    pub fn new_array_literal(elements: Vec<ASTNode>) -> (r: ASTNode)
        ensures
            r == ASTNode::ArrayLiteral(elements),
    {
        ASTNode::ArrayLiteral(elements)
    }

    pub fn new_object_literal(fields: Vec<(String, ASTNode)>) -> (r: ASTNode)
        ensures
            r == ASTNode::ObjectLiteral(fields),
    {
        ASTNode::ObjectLiteral(fields)
    }

    pub fn new_struct_literal(type_ident: String, fields: Vec<(String, ASTNode)>) -> (r: ASTNode)
        ensures
            r == (ASTNode::StructLiteral { type_ident, fields }),
    {
        ASTNode::StructLiteral { type_ident, fields }
    }

    pub fn new_index_expr(array: ASTNode, index: ASTNode) -> (r: ASTNode)
        ensures
            r == (ASTNode::IndexExpr { array: Box::new(array), index: Box::new(index) }),
    {
        ASTNode::IndexExpr { array: Box::new(array), index: Box::new(index) }
    }

    pub fn new_field_access(object: ASTNode, field: &str) -> (r: ASTNode)
        ensures
            r matches ASTNode::FieldAccess { object: o, field: f } && *o == object && f@ == field@,
    {
        ASTNode::FieldAccess { object: Box::new(object), field: owned(field) }
    }

    pub fn new_match_expr(value: ASTNode, arms: Vec<MatchArm>, line: usize, column: usize) -> (r: ASTNode)
        ensures
            r == (ASTNode::MatchExpr { value: Box::new(value), arms, line, column }),
    {
        ASTNode::MatchExpr { value: Box::new(value), arms, line, column }
    }

    pub fn new_method_call(
        object: ASTNode,
        method: &str,
        args: Vec<ASTNode>,
        named_args: Vec<(String, ASTNode)>,
    ) -> (r: ASTNode)
        ensures
            r matches ASTNode::MethodCall { object: o, method: m, args: a, named_args: na }
                && *o == object && m@ == method@ && a == args && na == named_args,
    {
        ASTNode::MethodCall { object: Box::new(object), method: owned(method), args, named_args }
    }

    pub fn new_type_cast(expr: ASTNode, target_type: &str) -> (r: ASTNode)
        ensures
            r matches ASTNode::TypeCast { expr: e, target_type: t } && *e == expr && t@ == target_type@,
    {
        ASTNode::TypeCast { expr: Box::new(expr), target_type: owned(target_type) }
    }

    pub fn new_reference_expr(is_mutable: bool, expr: ASTNode) -> (r: ASTNode)
        ensures
            r == (ASTNode::ReferenceExpr { is_mutable, expr: Box::new(expr) }),
    {
        ASTNode::ReferenceExpr { is_mutable, expr: Box::new(expr) }
    }

    pub fn new_quantum_variable_decl(
        name: &str,
        binding_type: QuantumBindingType,
        value: ASTNode,
        line: usize,
        column: usize,
    ) -> (r: ASTNode)
        ensures
            r matches ASTNode::QuantumVariableDecl { name: n, binding_type: b, value: v, line: l, column: c }
                && n@ == name@ && b == binding_type && *v == value && l == line && c == column,
    {
        ASTNode::QuantumVariableDecl { name: owned(name), binding_type, value: Box::new(value), line, column }
    }

    /// A quantum variable declaration whose binding kind is read from a
    /// hieroglyphic declaration symbol.
    pub fn new_quantum_variable_decl_from_symbol(
        name: &str,
        value: ASTNode,
        symbol: &str,
        line: usize,
        column: usize,
    ) -> (r: ASTNode)
        ensures
            r matches ASTNode::QuantumVariableDecl { name: n, binding_type: b, value: v, line: l, column: c }
                && n@ == name@ && b == binding_for_symbol(symbol@) && *v == value && l == line && c == column,
    {
        let binding_type = binding_for_symbol_exec(symbol);
        ASTNode::QuantumVariableDecl { name: owned(name), binding_type, value: Box::new(value), line, column }
    }

    pub fn new_quantum_binary_expr(op: TokenKind, left: ASTNode, right: ASTNode) -> (r: ASTNode)
        ensures
            r == (ASTNode::QuantumBinaryExpr { op, left: Box::new(left), right: Box::new(right) }),
    {
        ASTNode::QuantumBinaryExpr { op, left: Box::new(left), right: Box::new(right) }
    }

    pub fn new_probability_branch(
        condition: ASTNode,
        probability: Option<String>,
        then_branch: ASTNode,
        else_branch: Option<ASTNode>,
    ) -> (r: ASTNode)
        ensures
            r matches ASTNode::ProbabilityBranch { condition: c, probability: p, then_branch: t, else_branch: e }
                && *c == condition && p == probability && *t == then_branch
                && match else_branch {
                    Some(x) => e matches Some(y) && *y == x,
                    None => e is None,
                },
    {
        let e = match else_branch {
            Some(x) => Some(Box::new(x)),
            None => None,
        };
        ASTNode::ProbabilityBranch {
            condition: Box::new(condition),
            probability,
            then_branch: Box::new(then_branch),
            else_branch: e,
        }
    }

    pub fn new_quantum_function(
        func_type: QuantumFunctionType,
        name: &str,
        params: Vec<FunctionParam>,
        body: Vec<ASTNode>,
        line: usize,
        column: usize,
    ) -> (r: ASTNode)
        ensures
            r matches ASTNode::QuantumFunction { func_type: f, name: n, params: p, body: b, line: l, column: c }
                && f == func_type && n@ == name@ && p == params && b == body && l == line && c == column,
    {
        ASTNode::QuantumFunction { func_type, name: owned(name), params, body, line, column }
    }

    pub fn new_quantum_state(state: &str, amplitude: Option<String>) -> (r: ASTNode)
        ensures
            r matches ASTNode::QuantumState { state: s, amplitude: a } && s@ == state@ && a == amplitude,
    {
        ASTNode::QuantumState { state: owned(state), amplitude }
    }

    pub fn new_quantum_index_access(array: ASTNode, index: ASTNode, is_quantum: bool) -> (r: ASTNode)
        ensures
            r == (ASTNode::QuantumIndexAccess {
                array: Box::new(array),
                index: Box::new(index),
                is_quantum_index: is_quantum,
            }),
    {
        ASTNode::QuantumIndexAccess { array: Box::new(array), index: Box::new(index), is_quantum_index: is_quantum }
    }

    /// An assignment at 0:0.
    pub fn new_assignment(name: &str, value: ASTNode) -> (r: ASTNode)
        ensures
            r matches ASTNode::Assignment { name: n, value: v, line: l, column: c }
                && n@ == name@ && *v == value && l == 0 && c == 0,
    {
        ASTNode::Assignment { name: owned(name), value: Box::new(value), line: 0, column: 0 }
    }

    pub fn new_assignment_at(name: &str, value: ASTNode, line: usize, column: usize) -> (r: ASTNode)
        ensures
            r matches ASTNode::Assignment { name: n, value: v, line: l, column: c }
                && n@ == name@ && *v == value && l == line && c == column,
    {
        ASTNode::Assignment { name: owned(name), value: Box::new(value), line, column }
    }

    pub fn new_call(callee: ASTNode, args: Vec<ASTNode>) -> (r: ASTNode)
        ensures
            r == (ASTNode::Call { callee: Box::new(callee), args }),
    {
        ASTNode::Call { callee: Box::new(callee), args }
    }

    pub fn new_binary_expr(op: TokenKind, left: ASTNode, right: ASTNode) -> (r: ASTNode)
        ensures
            r == (ASTNode::BinaryExpr { op, left: Box::new(left), right: Box::new(right) }),
    {
        ASTNode::BinaryExpr { op, left: Box::new(left), right: Box::new(right) }
    }

    pub fn new_unary_expr(op: TokenKind, expr: ASTNode) -> (r: ASTNode)
        ensures
            r == (ASTNode::UnaryExpr { op, expr: Box::new(expr) }),
    {
        ASTNode::UnaryExpr { op, expr: Box::new(expr) }
    }

    pub fn new_identifier_spanned(name: &str, line: usize, column: usize, len: usize) -> (r: ASTNode)
        ensures
            r matches ASTNode::IdentifierSpanned { name: n, line: l, column: c, len: k }
                && n@ == name@ && l == line && c == column && k == len,
    {
        ASTNode::IdentifierSpanned { name: owned(name), line, column, len }
    }

    pub fn new_if(cond: ASTNode, then_branch: ASTNode, else_branch: Option<ASTNode>) -> (r: ASTNode)
        ensures
            r matches ASTNode::If { condition: c, then_branch: t, else_branch: e }
                && *c == cond && *t == then_branch
                && match else_branch {
                    Some(x) => e matches Some(y) && *y == x,
                    None => e is None,
                },
    {
        let e = match else_branch {
            Some(x) => Some(Box::new(x)),
            None => None,
        };
        ASTNode::If { condition: Box::new(cond), then_branch: Box::new(then_branch), else_branch: e }
    }

    pub fn new_while(cond: ASTNode, body: ASTNode) -> (r: ASTNode)
        ensures
            r == (ASTNode::While { condition: Box::new(cond), body: Box::new(body) }),
    {
        ASTNode::While { condition: Box::new(cond), body: Box::new(body) }
    }

    pub fn new_for(
        init: Option<ASTNode>,
        condition: Option<ASTNode>,
        increment: Option<ASTNode>,
        body: ASTNode,
    ) -> (r: ASTNode)
        ensures
            r matches ASTNode::For { init: i, condition: c, increment: n, body: b }
                && *b == body
                && (match init { Some(x) => i matches Some(y) && *y == x, None => i is None })
                && (match condition { Some(x) => c matches Some(y) && *y == x, None => c is None })
                && (match increment { Some(x) => n matches Some(y) && *y == x, None => n is None }),
    {
        let i = match init {
            Some(x) => Some(Box::new(x)),
            None => None,
        };
        let c = match condition {
            Some(x) => Some(Box::new(x)),
            None => None,
        };
        let n = match increment {
            Some(x) => Some(Box::new(x)),
            None => None,
        };
        ASTNode::For { init: i, condition: c, increment: n, body: Box::new(body) }
    }

    pub fn new_for_in(binding: ForInBinding, iterable: ASTNode, body: ASTNode) -> (r: ASTNode)
        ensures
            r == (ASTNode::ForIn { binding, iterable: Box::new(iterable), body: Box::new(body) }),
    {
        ASTNode::ForIn { binding, iterable: Box::new(iterable), body: Box::new(body) }
    }

    pub fn new_log(expr: ASTNode) -> (r: ASTNode)
        ensures
            r == ASTNode::Log(Box::new(expr)),
    {
        ASTNode::Log(Box::new(expr))
    }

    pub fn new_return(expr: ASTNode) -> (r: ASTNode)
        ensures
            r == ASTNode::Return(Box::new(expr)),
    {
        ASTNode::Return(Box::new(expr))
    }

    pub fn new_quantum_op(op: TokenKind, qubits: Vec<ASTNode>) -> (r: ASTNode)
        ensures
            r == (ASTNode::QuantumOp { op, qubits }),
    {
        ASTNode::QuantumOp { op, qubits }
    }

    pub fn new_hieroglyphic_op(symbol: &str, args: Vec<ASTNode>) -> (r: ASTNode)
        ensures
            r matches ASTNode::HieroglyphicOp { symbol: s, args: a } && s@ == symbol@ && a == args,
    {
        ASTNode::HieroglyphicOp { symbol: owned(symbol), args }
    }
}

} // verus!
