//! Lowering expressions of the syntax tree to the intermediate representation.
//! Operators map to the representation's own; calls of quantum operations,
//! glyphs, logging and indexing become calls of named runtime functions; nodes
//! with no expression form become an empty object or a comment literal.

use vstd::prelude::*;
use crate::ast::{ASTNode, MatchArm, QuantumBindingType, QuantumFunctionType};
use crate::ir::{BinOp, Block, Expr, Lit, Stmt, UnOp};
use crate::js_text::qop_name;
use crate::text::{push_str_chars, push_string_chars, string_from_chars};
use crate::token::TokenKind;

verus! {

/// The representation's operator for a binary operator token; an unknown one
/// becomes `Eq`.
pub open spec fn binop_of(t: TokenKind) -> BinOp {
    match t {
        TokenKind::Plus => BinOp::Add,
        TokenKind::Minus => BinOp::Sub,
        TokenKind::Star => BinOp::Mul,
        TokenKind::Slash => BinOp::Div,
        TokenKind::DoubleEquals => BinOp::Eq,
        TokenKind::NotEquals => BinOp::Ne,
        TokenKind::LessThan => BinOp::Lt,
        TokenKind::LessEqual => BinOp::Le,
        TokenKind::GreaterThan => BinOp::Gt,
        TokenKind::GreaterEqual => BinOp::Ge,
        TokenKind::Percent => BinOp::Mod,
        TokenKind::Bind => BinOp::Add,
        TokenKind::Caret => BinOp::Mod,
        _ => BinOp::Eq,
    }
}

/// The representation's operator for a unary operator token: `-` negates, any
/// other is `Not`.
pub open spec fn unop_of(t: TokenKind) -> UnOp {
    match t {
        TokenKind::Minus => UnOp::Neg,
        _ => UnOp::Not,
    }
}

/// The runtime function a quantum binary operator calls.
pub open spec fn quantum_callee(op: TokenKind) -> Seq<char> {
    match op {
        TokenKind::QuantumXor => "__quantum_xor"@,
        TokenKind::QuantumTensor => "__quantum_tensor"@,
        TokenKind::SuperpositionState => "__quantum_superposition"@,
        TokenKind::Entangle => "__quantum_entangle"@,
        _ => "__quantum_op"@,
    }
}

/// The expression is the name `name`.
pub open spec fn is_ident(e: Expr, name: Seq<char>) -> bool {
    e matches Expr::Ident(s) && s@ == name
}

/// The expression is the string literal `t`.
pub open spec fn is_text_lit(e: Expr, t: Seq<char>) -> bool {
    e matches Expr::Lit(Lit::String(s)) && s@ == t
}

/// The expression is the empty object.
pub open spec fn is_empty_object(e: Expr) -> bool {
    e matches Expr::Object(fs) && fs@.len() == 0
}

/// `e` is the lowering of the syntax node `n`.
pub open spec fn lowered(n: ASTNode, e: Expr) -> bool
    decreases n, 1int,
{
    match n {
        ASTNode::Identifier(s) => is_ident(e, s@),
        ASTNode::IdentifierSpanned { name, .. } => is_ident(e, name@),
        ASTNode::NumberLiteral(t) => e matches Expr::Lit(Lit::Number(x)) && x@ == t@,
        ASTNode::StringLiteral(s) => is_text_lit(e, s@),
        ASTNode::BooleanLiteral(b) => e == Expr::Lit(Lit::Bool(b)),
        ASTNode::UnaryExpr { op, expr } => e matches Expr::Unary { op: o, expr: x } && o == unop_of(op) && lowered(
            *expr,
            *x,
        ),
        ASTNode::BinaryExpr { op, left, right } => e matches Expr::Binary { left: l, op: o, right: r } && o == binop_of(op)
            && lowered(*left, *l) && lowered(*right, *r),
        ASTNode::Call { callee, args } => e matches Expr::Call { callee: c, args: a } && lowered(*callee, *c)
            && lowered_list(args@, a@),
        ASTNode::Log(x) => e matches Expr::Call { callee: c, args: a } && is_ident(*c, "log"@) && a@.len() == 1
            && lowered(*x, a@[0]),
        ASTNode::QuantumOp { op, qubits } => e matches Expr::Call { callee: c, args: a } && is_ident(*c, qop_name(op))
            && lowered_list(qubits@, a@),
        ASTNode::HieroglyphicOp { symbol, args } => e matches Expr::Call { callee: c, args: a } && is_ident(
            *c,
            "__glyph"@,
        ) && a@.len() == args@.len() + 1 && is_text_lit(a@[0], symbol@) && lowered_list(
            args@,
            a@.subrange(1, a@.len() as int),
        ),
        ASTNode::QuantumState { state, amplitude } => match amplitude {
            Some(amp) => is_text_lit(e, state@ + " /* amplitude: "@ + amp@ + " */"@),
            None => is_text_lit(e, state@),
        },
        ASTNode::Error(msg) => is_text_lit(e, "/* error: "@ + msg@ + " */"@),
        ASTNode::MethodCall { object, method, args, .. } => e matches Expr::Call { callee: c, args: a } && (*c matches Expr::Member {
            object: o,
            property: p,
        } && p@ == method@ && lowered(*object, *o)) && lowered_list(args@, a@),
        ASTNode::FieldAccess { object, field } => e matches Expr::Member { object: o, property: p } && p@ == field@
            && lowered(*object, *o),
        ASTNode::ArrayLiteral(es) => e matches Expr::Array(a) && lowered_list(es@, a@),
        ASTNode::QuantumBinaryExpr { op, left, right } => e matches Expr::Call { callee: c, args: a } && is_ident(
            *c,
            quantum_callee(op),
        ) && a@.len() == 2 && lowered(*left, a@[0]) && lowered(*right, a@[1]),
        ASTNode::QuantumIndexAccess { array, index, is_quantum_index } => e matches Expr::Call {
            callee: c,
            args: a,
        } && is_ident(*c, if is_quantum_index { "__quantum_index"@ } else { "__index_access"@ }) && a@.len() == 2
            && lowered(*array, a@[0]) && lowered(*index, a@[1]),
        ASTNode::Assignment { .. } | ASTNode::Block(_) | ASTNode::If { .. } | ASTNode::While { .. } | ASTNode::For {
            ..
        } | ASTNode::Function { .. } | ASTNode::VariableDecl { .. } | ASTNode::Return(_) | ASTNode::Program(_)
        | ASTNode::MatchExpr { .. } | ASTNode::StructDecl { .. } | ASTNode::EnumDecl { .. } | ASTNode::ImplBlock {
            ..
        } => is_empty_object(e),
        _ => is_text_lit(e, "/* Quantum AST node not yet implemented in lowering */"@),
    }
}

/// `es` are the lowerings of `ns`, in order.
pub open spec fn lowered_list(ns: Seq<ASTNode>, es: Seq<Expr>) -> bool
    decreases ns, 0int,
{
    &&& ns.len() == es.len()
    &&& ns.len() > 0 ==> lowered_list(ns.drop_last(), es.drop_last()) && lowered(ns.last(), es.last())
}

/// The statements can be lowered: no program node stands where a statement is
/// lowered (lowering stops there).
pub open spec fn stmt_lowerable(n: ASTNode) -> bool
    decreases n, 1int,
{
    match n {
        ASTNode::Program(_) => false,
        ASTNode::Block(items) => forall|i: int| 0 <= i < items@.len() ==> stmt_lowerable(#[trigger] items@[i]),
        ASTNode::If { then_branch, else_branch, .. } => block_lowerable(*then_branch) && (else_branch matches Some(
            e,
        ) ==> block_lowerable(*e)),
        ASTNode::While { body, .. } => block_lowerable(*body),
        ASTNode::For { increment, body, .. } => (increment matches Some(x) ==> stmt_lowerable(*x)) && block_lowerable(
            *body,
        ),
        ASTNode::QuantumFunction { body, .. } => forall|i: int| 0 <= i < body@.len() ==> stmt_lowerable(#[trigger] body@[i]),
        ASTNode::ProbabilityBranch { then_branch, else_branch, .. } => block_lowerable(*then_branch) && (
        else_branch matches Some(e) ==> block_lowerable(*e)),
        ASTNode::QuantumLoop { body, .. } => block_lowerable(*body),
        ASTNode::AILearningBlock { body, .. } => forall|i: int| 0 <= i < body@.len() ==> stmt_lowerable(#[trigger] body@[i]),
        ASTNode::TimeBlock { body, .. } => forall|i: int| 0 <= i < body@.len() ==> stmt_lowerable(#[trigger] body@[i]),
        ASTNode::MatchExpr { arms, .. } => forall|i: int| 0 <= i < arms@.len() ==> block_lowerable(#[trigger] arms@[i].body),
        _ => true,
    }
}

/// The branch can be lowered to a block.
pub open spec fn block_lowerable(n: ASTNode) -> bool
    decreases n, 2int,
{
    match n {
        ASTNode::Block(items) => forall|i: int| 0 <= i < items@.len() ==> stmt_lowerable(#[trigger] items@[i]),
        _ => stmt_lowerable(n),
    }
}

/// `s` is the lowering of a `for` loop's initializer `n`: a declaration keeps a
/// quantum binding's kind in a comment after the name.
pub open spec fn lowered_init(n: ASTNode, s: Stmt) -> bool {
    match n {
        ASTNode::VariableDecl { name, value, .. } => s matches Stmt::Let { name: x, value: Some(v) } && x@ == name@
            && lowered(*value, v),
        ASTNode::QuantumVariableDecl { name, binding_type, value, .. } => s matches Stmt::Let {
            name: x,
            value: Some(v),
        } && x@ == name@ + " /* "@ + binding_kind_text(binding_type) + " */"@ && lowered(*value, v),
        ASTNode::Assignment { name, value, .. } => s matches Stmt::Assign { target, value: v } && is_ident(target, name@)
            && lowered(*value, v),
        ASTNode::Return(e) => s matches Stmt::Return(Some(v)) && lowered(*e, v),
        _ => s matches Stmt::Expr(x) && lowered(n, x),
    }
}

/// The kind of a quantum binding as a `for` initializer's comment names it.
pub open spec fn binding_kind_text(b: QuantumBindingType) -> Seq<char> {
    match b {
        QuantumBindingType::Classical => "Quantum:Classical"@,
        QuantumBindingType::Superposition => "Quantum:Superposition"@,
        QuantumBindingType::Tensor => "Quantum:Tensor"@,
        QuantumBindingType::Approximation => "Quantum:Approximation"@,
    }
}

/// The name of a function kind, as `Debug` writes it.
pub open spec fn function_kind_text(f: QuantumFunctionType) -> Seq<char> {
    match f {
        QuantumFunctionType::Classical => "Classical"@,
        QuantumFunctionType::Quantum => "Quantum"@,
        QuantumFunctionType::AINeural => "AINeural"@,
    }
}

/// The expression is the string literal `t`, the number literal `t`, or the
/// empty object.
pub open spec fn is_number_lit(e: Expr, t: Seq<char>) -> bool {
    e matches Expr::Lit(Lit::Number(x)) && x@ == t
}

/// The condition a `match` arm tests of the lowered value `value`: a name pattern
/// matches anything, any other pattern is compared for equality; a guard is joined
/// with `And`.
pub open spec fn arm_cond(value: ASTNode, arm: MatchArm, c: Expr) -> bool {
    let pat_ok = |pc: Expr| if arm.pattern is Identifier || arm.pattern is IdentifierSpanned {
        pc == Expr::Lit(Lit::Bool(true))
    } else {
        pc matches Expr::Binary { left: l, op: BinOp::Eq, right: r } && lowered(value, *l) && lowered(arm.pattern, *r)
    };
    match arm.guard {
        Some(g) => c matches Expr::Binary { left: l, op: BinOp::And, right: r } && pat_ok(*l) && lowered(g, *r),
        None => pat_ok(c),
    }
}

/// `s` is the lowering of a statement `n` (see `stmt_lowerable`).
pub open spec fn lowered_stmt(n: ASTNode, s: Stmt) -> bool
    decreases n, 1int,
{
    match n {
        ASTNode::Block(items) => if items@.len() == 0 {
            s matches Stmt::Expr(x) && is_empty_object(x)
        } else if items@.len() == 1 {
            lowered_stmt(items@[0], s)
        } else {
            s matches Stmt::Block(v) && lowered_stmts(items@, v@)
        },
        ASTNode::Return(e) => s matches Stmt::Return(Some(v)) && lowered(*e, v),
        ASTNode::Assignment { name, value, .. } => s matches Stmt::Assign { target, value: v } && is_ident(target, name@)
            && lowered(*value, v),
        ASTNode::Log(_) | ASTNode::Call { .. } | ASTNode::BinaryExpr { .. } | ASTNode::UnaryExpr { .. }
        | ASTNode::Identifier(_) | ASTNode::NumberLiteral(_) | ASTNode::StringLiteral(_) | ASTNode::BooleanLiteral(_)
        | ASTNode::QuantumOp { .. } | ASTNode::HieroglyphicOp { .. } | ASTNode::Error(_) | ASTNode::IdentifierSpanned {
            ..
        } | ASTNode::QuantumBinaryExpr { .. } | ASTNode::QuantumIndexAccess { .. } | ASTNode::MethodCall { .. }
        | ASTNode::FieldAccess { .. } | ASTNode::ArrayLiteral(_) => s matches Stmt::Expr(x) && lowered(n, x),
        ASTNode::If { condition, then_branch, else_branch } => s matches Stmt::If { cond, then_block, else_block }
            && lowered(*condition, cond) && lowered_block(*then_branch, then_block) && (match else_branch {
            Some(b) => else_block matches Some(eb) && lowered_block(*b, eb),
            None => else_block is None,
        }),
        ASTNode::While { condition, body } => s matches Stmt::While { cond, body: b } && lowered(*condition, cond)
            && lowered_block(*body, b),
        ASTNode::For { init, condition, increment, body } => s matches Stmt::For { init: i, cond, step, body: b }
            && (match init {
            Some(x) => i matches Some(bi) && lowered_init(*x, *bi),
            None => i is None,
        }) && (match condition {
            Some(x) => cond matches Some(c) && lowered(*x, c),
            None => cond is None,
        }) && (match increment {
            Some(x) => step matches Some(bs) && lowered_stmt(*x, *bs),
            None => step is None,
        }) && lowered_block(*body, b),
        ASTNode::VariableDecl { name, value, .. } => s matches Stmt::Let { name: x, value: Some(v) } && x@ == name@
            && lowered(*value, v),
        ASTNode::QuantumVariableDecl { name, value, .. } => s matches Stmt::Let { name: x, value: Some(v) } && x@
            == name@ && lowered(*value, v),
        ASTNode::QuantumFunction { func_type, name, .. } => s matches Stmt::Expr(Expr::Call { callee, args }) && is_ident(
            *callee,
            "__quantum_function"@,
        ) && args@.len() == 2 && is_text_lit(args@[0], name@) && is_text_lit(args@[1], function_kind_text(func_type)),
        ASTNode::ProbabilityBranch { condition, then_branch, else_branch, .. } => s matches Stmt::If {
            cond,
            then_block,
            else_block,
        } && lowered(*condition, cond) && lowered_block(*then_branch, then_block) && (match else_branch {
            Some(b) => else_block matches Some(eb) && lowered_block(*b, eb),
            None => else_block is None,
        }),
        ASTNode::QuantumLoop { condition, body, decoherence_threshold } => s matches Stmt::While { cond, body: b }
            && lowered_block(*body, b) && (if decoherence_threshold is Some {
            cond matches Expr::Call { callee, args } && is_ident(*callee, "__quantum_protect_loop"@) && args@.len() == 1
                && lowered(*condition, args@[0])
        } else {
            lowered(*condition, cond)
        }),
        ASTNode::SuperpositionSwitch { value, .. } => s matches Stmt::Expr(Expr::Call { callee, args }) && is_ident(
            *callee,
            "__superposition_switch"@,
        ) && args@.len() == 1 && lowered(*value, args@[0]),
        ASTNode::QuantumTryCatch { error_probability, .. } => s matches Stmt::Expr(Expr::Call { callee, args })
            && is_ident(*callee, "__quantum_try_catch"@) && args@.len() == 3 && is_number_lit(
            args@[0],
            match error_probability {
                Some(p) => p@,
                None => "0.1"@,
            },
        ) && is_text_lit(args@[1], "attempt_block"@) && is_text_lit(args@[2], "catch_block"@),
        ASTNode::AILearningBlock { .. } => s matches Stmt::Expr(Expr::Call { callee, args }) && is_ident(
            *callee,
            "__ai_learning_block"@,
        ) && args@.len() == 1 && is_empty_object(args@[0]),
        ASTNode::TimeBlock { duration, .. } => s matches Stmt::Expr(Expr::Call { callee, args }) && is_ident(
            *callee,
            "__time_block"@,
        ) && args@.len() == 1 && (match duration {
            Some(d) => lowered(*d, args@[0]),
            None => is_text_lit(args@[0], "auto"@),
        }),
        ASTNode::StructDecl { name, .. } => s matches Stmt::Let { name: x, value: Some(v) } && x@ == "__struct_"@
            + name@ && is_text_lit(v, name@),
        ASTNode::EnumDecl { name, .. } => s matches Stmt::Let { name: x, value: Some(v) } && x@ == "__enum_"@ + name@
            && is_text_lit(v, name@),
        ASTNode::MatchExpr { value, arms, .. } => match_chain(*value, arms@, s),
        _ => s matches Stmt::Expr(x) && is_empty_object(x),
    }
}

/// `s` is the chain of `if`s the arms of a `match` on `value` lower to, the first
/// arm outermost, ending in an empty object.
pub open spec fn match_chain(value: ASTNode, arms: Seq<MatchArm>, s: Stmt) -> bool
    decreases arms, 0int,
{
    if arms.len() == 0 {
        s matches Stmt::Expr(x) && is_empty_object(x)
    } else {
        s matches Stmt::If { cond, then_block, else_block: Some(eb) } && arm_cond(value, arms[0], cond) && lowered_block(
            arms[0].body,
            then_block,
        ) && eb.stmts@.len() == 1 && match_chain(value, arms.subrange(1, arms.len() as int), eb.stmts@[0])
    }
}

/// `b` is the lowering of a branch `n`: a block's statements, or the statement alone.
pub open spec fn lowered_block(n: ASTNode, b: Block) -> bool
    decreases n, 2int,
{
    match n {
        ASTNode::Block(items) => lowered_stmts(items@, b.stmts@),
        _ => b.stmts@.len() == 1 && lowered_stmt(n, b.stmts@[0]),
    }
}

/// `ss` are the lowerings of the statements `ns`, in order.
pub open spec fn lowered_stmts(ns: Seq<ASTNode>, ss: Seq<Stmt>) -> bool
    decreases ns, 0int,
{
    &&& ns.len() == ss.len()
    &&& ns.len() > 0 ==> lowered_stmts(ns.drop_last(), ss.drop_last()) && lowered_stmt(ns.last(), ss.last())
}

/// The name as an expression.
fn ident(s: &str) -> (r: Expr)
    ensures
        is_ident(r, s@),
{
    Expr::Ident(String::from_str(s))
}

/// The text of some characters as a string literal.
fn text_lit(cs: &Vec<char>) -> (r: Expr)
    ensures
        is_text_lit(r, cs@),
{
    Expr::Lit(Lit::String(string_from_chars(cs.as_slice())))
}

/// The representation's operator for a binary operator token.
fn binop_token(t: &TokenKind) -> (r: BinOp)
    ensures
        r == binop_of(*t),
{
    match t {
        TokenKind::Plus => BinOp::Add,
        TokenKind::Minus => BinOp::Sub,
        TokenKind::Star => BinOp::Mul,
        TokenKind::Slash => BinOp::Div,
        TokenKind::DoubleEquals => BinOp::Eq,
        TokenKind::NotEquals => BinOp::Ne,
        TokenKind::LessThan => BinOp::Lt,
        TokenKind::LessEqual => BinOp::Le,
        TokenKind::GreaterThan => BinOp::Gt,
        TokenKind::GreaterEqual => BinOp::Ge,
        TokenKind::Percent => BinOp::Mod,
        TokenKind::Bind => BinOp::Add,
        TokenKind::Caret => BinOp::Mod,
        _ => BinOp::Eq,
    }
}

/// The runtime function a quantum binary operator calls.
fn quantum_callee_str(op: &TokenKind) -> (r: &'static str)
    ensures
        r@ == quantum_callee(*op),
{
    match op {
        TokenKind::QuantumXor => "__quantum_xor",
        TokenKind::QuantumTensor => "__quantum_tensor",
        TokenKind::SuperpositionState => "__quantum_superposition",
        TokenKind::Entangle => "__quantum_entangle",
        _ => "__quantum_op",
    }
}

/// The function a quantum operation calls.
fn qop_name_str(op: &TokenKind) -> (r: &'static str)
    ensures
        r@ == qop_name(*op),
{
    match op {
        TokenKind::Superpose => "superpose",
        TokenKind::Entangle => "entangle",
        TokenKind::Measure => "measure",
        TokenKind::Dod => "dod",
        _ => "qop",
    }
}

/// Lowers expressions in order.
fn lower_list(ns: &Vec<ASTNode>) -> (r: Vec<Expr>)
    ensures
        lowered_list(ns@, r@),
    decreases ns, 0int,
{
    let mut out: Vec<Expr> = Vec::new();
    let mut i: usize = 0;
    proof {
        assert(ns@.take(0) =~= Seq::<ASTNode>::empty());
    }
    while i < ns.len()
        invariant
            i <= ns@.len(),
            lowered_list(ns@.take(i as int), out@),
        decreases ns@.len() - i,
    {
        let e = lower_expr(&ns[i]);
        let ghost before = out@;
        out.push(e);
        proof {
            let t = ns@.take(i as int + 1);
            assert(t.drop_last() =~= ns@.take(i as int));
            assert(t.last() == ns@[i as int]);
            assert(out@.drop_last() =~= before);
        }
        i += 1;
    }
    assert(ns@.take(ns@.len() as int) =~= ns@);
    out
}

/// Lowers one expression (see `lowered`).
#[verifier::rlimit(60)]
fn lower_expr(n: &ASTNode) -> (r: Expr)
    ensures
        lowered(*n, r),
    decreases n, 1int,
{
    match n {
        ASTNode::Identifier(s) => Expr::Ident(s.clone()),
        ASTNode::IdentifierSpanned { name, .. } => Expr::Ident(name.clone()),
        ASTNode::NumberLiteral(t) => Expr::Lit(Lit::Number(t.clone())),
        ASTNode::StringLiteral(t) => Expr::Lit(Lit::String(t.clone())),
        ASTNode::BooleanLiteral(b) => Expr::Lit(Lit::Bool(*b)),
        ASTNode::UnaryExpr { op, expr } => {
            let o = match op {
                TokenKind::Minus => UnOp::Neg,
                _ => UnOp::Not,
            };
            Expr::Unary { op: o, expr: Box::new(lower_expr(&**expr)) }
        },
        ASTNode::BinaryExpr { op, left, right } => {
            let l = lower_expr(&**left);
            let r = lower_expr(&**right);
            Expr::Binary { left: Box::new(l), op: binop_token(op), right: Box::new(r) }
        },
        ASTNode::Call { callee, args } => {
            let c = lower_expr(&**callee);
            Expr::Call { callee: Box::new(c), args: lower_list(args) }
        },
        ASTNode::Log(x) => {
            let a = lower_expr(&**x);
            let mut args: Vec<Expr> = Vec::new();
            args.push(a);
            Expr::Call { callee: Box::new(ident("log")), args }
        },
        ASTNode::QuantumOp { op, qubits } => {
            let args = lower_list(qubits);
            Expr::Call { callee: Box::new(ident(qop_name_str(op))), args }
        },
        ASTNode::HieroglyphicOp { symbol, args } => {
            let mut v: Vec<Expr> = Vec::new();
            v.push(Expr::Lit(Lit::String(symbol.clone())));
            let mut rest = lower_list(args);
            let ghost rv = rest@;
            v.append(&mut rest);
            assert(v@.subrange(1, v@.len() as int) =~= rv);
            Expr::Call { callee: Box::new(ident("__glyph")), args: v }
        },
        ASTNode::QuantumState { state, amplitude } => {
            let mut cs: Vec<char> = Vec::new();
            push_string_chars(&mut cs, state);
            match amplitude {
                Some(amp) => {
                    push_str_chars(&mut cs, " /* amplitude: ");
                    push_string_chars(&mut cs, amp);
                    push_str_chars(&mut cs, " */");
                },
                None => {},
            }
            text_lit(&cs)
        },
        ASTNode::Error(msg) => {
            let mut cs: Vec<char> = Vec::new();
            push_str_chars(&mut cs, "/* error: ");
            push_string_chars(&mut cs, msg);
            push_str_chars(&mut cs, " */");
            text_lit(&cs)
        },
        ASTNode::MethodCall { object, method, args, .. } => {
            let o = lower_expr(&**object);
            let callee = Expr::Member { object: Box::new(o), property: method.clone() };
            Expr::Call { callee: Box::new(callee), args: lower_list(args) }
        },
        ASTNode::FieldAccess { object, field } => {
            let o = lower_expr(&**object);
            Expr::Member { object: Box::new(o), property: field.clone() }
        },
        ASTNode::ArrayLiteral(es) => Expr::Array(lower_list(es)),
        ASTNode::QuantumBinaryExpr { op, left, right } => {
            let l = lower_expr(&**left);
            let r = lower_expr(&**right);
            let mut args: Vec<Expr> = Vec::new();
            args.push(l);
            args.push(r);
            Expr::Call { callee: Box::new(ident(quantum_callee_str(op))), args }
        },
        ASTNode::QuantumIndexAccess { array, index, is_quantum_index } => {
            let a = lower_expr(&**array);
            let i = lower_expr(&**index);
            let mut args: Vec<Expr> = Vec::new();
            args.push(a);
            args.push(i);
            let name = if *is_quantum_index { "__quantum_index" } else { "__index_access" };
            Expr::Call { callee: Box::new(ident(name)), args }
        },
        ASTNode::Assignment { .. } | ASTNode::Block(_) | ASTNode::If { .. } | ASTNode::While { .. } | ASTNode::For {
            ..
        } | ASTNode::Function { .. } | ASTNode::VariableDecl { .. } | ASTNode::Return(_) | ASTNode::Program(_)
        | ASTNode::MatchExpr { .. } | ASTNode::StructDecl { .. } | ASTNode::EnumDecl { .. } | ASTNode::ImplBlock {
            ..
        } => Expr::Object(Vec::new()),
        _ => {
            let mut cs: Vec<char> = Vec::new();
            push_str_chars(&mut cs, "/* Quantum AST node not yet implemented in lowering */");
            text_lit(&cs)
        },
    }
}

/// Lowers an expression of the syntax tree (see `lowered`); every expression has a
/// lowering.
pub fn lower_expr_ast(n: &ASTNode) -> (r: Result<Expr, String>)
    ensures
        r matches Ok(e) && lowered(*n, e),
{
    Ok(lower_expr(n))
}

/// An empty object as a statement.
fn empty_stmt() -> (r: Stmt)
    ensures
        r matches Stmt::Expr(x) && is_empty_object(x),
{
    Stmt::Expr(Expr::Object(Vec::new()))
}

/// A call of the named function as a statement.
fn call_stmt(name: &str, args: Vec<Expr>) -> (r: Stmt)
    ensures
        r matches Stmt::Expr(Expr::Call { callee, args: a }) && is_ident(*callee, name@) && a@ == args@,
{
    Stmt::Expr(Expr::Call { callee: Box::new(ident(name)), args })
}

/// A string literal of a string's text.
fn str_lit(s: &String) -> (r: Expr)
    ensures
        is_text_lit(r, s@),
{
    Expr::Lit(Lit::String(s.clone()))
}

/// Lowers a `for` loop's initializer (see `lowered_init`).
fn lower_init(n: &ASTNode) -> (r: Stmt)
    ensures
        lowered_init(*n, r),
{
    match n {
        ASTNode::VariableDecl { name, value, .. } => Stmt::Let { name: name.clone(), value: Some(lower_expr(&**value)) },
        ASTNode::QuantumVariableDecl { name, binding_type, value, .. } => {
            let kind = match binding_type {
                QuantumBindingType::Classical => "Quantum:Classical",
                QuantumBindingType::Superposition => "Quantum:Superposition",
                QuantumBindingType::Tensor => "Quantum:Tensor",
                QuantumBindingType::Approximation => "Quantum:Approximation",
            };
            let mut cs: Vec<char> = Vec::new();
            push_string_chars(&mut cs, name);
            push_str_chars(&mut cs, " /* ");
            push_str_chars(&mut cs, kind);
            push_str_chars(&mut cs, " */");
            Stmt::Let { name: string_from_chars(cs.as_slice()), value: Some(lower_expr(&**value)) }
        },
        ASTNode::Assignment { name, value, .. } => Stmt::Assign {
            target: Expr::Ident(name.clone()),
            value: lower_expr(&**value),
        },
        ASTNode::Return(e) => Stmt::Return(Some(lower_expr(&**e))),
        _ => Stmt::Expr(lower_expr(n)),
    }
}

/// The condition a `match` arm tests (see `arm_cond`).
fn lower_arm_cond(value: &ASTNode, arm: &MatchArm) -> (r: Expr)
    ensures
        arm_cond(*value, *arm, r),
{
    let pat = match &arm.pattern {
        ASTNode::Identifier(_) => Expr::Lit(Lit::Bool(true)),
        ASTNode::IdentifierSpanned { .. } => Expr::Lit(Lit::Bool(true)),
        _ => {
            let l = lower_expr(value);
            let r = lower_expr(&arm.pattern);
            Expr::Binary { left: Box::new(l), op: BinOp::Eq, right: Box::new(r) }
        },
    };
    match &arm.guard {
        Some(g) => {
            let r = lower_expr(g);
            Expr::Binary { left: Box::new(pat), op: BinOp::And, right: Box::new(r) }
        },
        None => pat,
    }
}

/// Lowers statements in order.
fn lower_stmts(ns: &Vec<ASTNode>) -> (r: Vec<Stmt>)
    requires
        forall|i: int| 0 <= i < ns@.len() ==> stmt_lowerable(#[trigger] ns@[i]),
    ensures
        lowered_stmts(ns@, r@),
    decreases ns, 0int,
{
    let mut out: Vec<Stmt> = Vec::new();
    let mut i: usize = 0;
    proof {
        assert(ns@.take(0) =~= Seq::<ASTNode>::empty());
    }
    while i < ns.len()
        invariant
            i <= ns@.len(),
            forall|j: int| 0 <= j < ns@.len() ==> stmt_lowerable(#[trigger] ns@[j]),
            lowered_stmts(ns@.take(i as int), out@),
        decreases ns@.len() - i,
    {
        let st = lower_stmt(&ns[i]);
        let ghost before = out@;
        out.push(st);
        proof {
            let t = ns@.take(i as int + 1);
            assert(t.drop_last() =~= ns@.take(i as int));
            assert(t.last() == ns@[i as int]);
            assert(out@.drop_last() =~= before);
        }
        i += 1;
    }
    assert(ns@.take(ns@.len() as int) =~= ns@);
    out
}

/// Lowers a branch to a block (see `lowered_block`).
fn lower_block(n: &ASTNode) -> (r: Block)
    requires
        block_lowerable(*n),
    ensures
        lowered_block(*n, r),
    decreases n, 2int,
{
    match n {
        ASTNode::Block(items) => Block { stmts: lower_stmts(items) },
        _ => {
            let st = lower_stmt(n);
            let mut v: Vec<Stmt> = Vec::new();
            v.push(st);
            Block { stmts: v }
        },
    }
}

/// Lowers the arms of a `match` to a chain of `if`s (see `match_chain`).
fn lower_match(value: &ASTNode, arms: &Vec<MatchArm>) -> (r: Stmt)
    requires
        forall|i: int| 0 <= i < arms@.len() ==> block_lowerable(#[trigger] arms@[i].body),
    ensures
        match_chain(*value, arms@, r),
    decreases arms, 0int,
{
    let mut result = empty_stmt();
    let mut i: usize = arms.len();
    proof {
        assert(arms@.subrange(arms@.len() as int, arms@.len() as int) =~= Seq::<MatchArm>::empty());
    }
    while i > 0
        invariant
            i <= arms@.len(),
            forall|j: int| 0 <= j < arms@.len() ==> block_lowerable(#[trigger] arms@[j].body),
            match_chain(*value, arms@.subrange(i as int, arms@.len() as int), result),
        decreases i,
    {
        i -= 1;
        let cond = lower_arm_cond(value, &arms[i]);
        let then_block = lower_block(&arms[i].body);
        let ghost prev = result;
        let mut inner: Vec<Stmt> = Vec::new();
        inner.push(result);
        result = Stmt::If { cond, then_block, else_block: Some(Block { stmts: inner }) };
        proof {
            let sub = arms@.subrange(i as int, arms@.len() as int);
            assert(sub[0] == arms@[i as int]);
            assert(sub.subrange(1, sub.len() as int) =~= arms@.subrange(i as int + 1, arms@.len() as int));
        }
    }
    assert(arms@.subrange(0, arms@.len() as int) =~= arms@);
    result
}

/// Lowers a statement (see `lowered_stmt`).
#[verifier::rlimit(100)]
#[verifier::spinoff_prover]
fn lower_stmt(n: &ASTNode) -> (r: Stmt)
    requires
        stmt_lowerable(*n),
    ensures
        lowered_stmt(*n, r),
    decreases n, 1int,
{
    match n {
        ASTNode::Block(items) => {
            if items.len() == 0 {
                empty_stmt()
            } else if items.len() == 1 {
                lower_stmt(&items[0])
            } else {
                Stmt::Block(lower_stmts(items))
            }
        },
        ASTNode::Return(e) => Stmt::Return(Some(lower_expr(&**e))),
        ASTNode::Assignment { name, value, .. } => Stmt::Assign {
            target: Expr::Ident(name.clone()),
            value: lower_expr(&**value),
        },
        ASTNode::Log(_) | ASTNode::Call { .. } | ASTNode::BinaryExpr { .. } | ASTNode::UnaryExpr { .. }
        | ASTNode::Identifier(_) | ASTNode::NumberLiteral(_) | ASTNode::StringLiteral(_) | ASTNode::BooleanLiteral(_)
        | ASTNode::QuantumOp { .. } | ASTNode::HieroglyphicOp { .. } | ASTNode::Error(_) | ASTNode::IdentifierSpanned {
            ..
        } | ASTNode::QuantumBinaryExpr { .. } | ASTNode::QuantumIndexAccess { .. } | ASTNode::MethodCall { .. }
        | ASTNode::FieldAccess { .. } | ASTNode::ArrayLiteral(_) => Stmt::Expr(lower_expr(n)),
        ASTNode::If { condition, then_branch, else_branch } => {
            let cond = lower_expr(&**condition);
            let then_block = lower_block(&**then_branch);
            let else_block = match else_branch {
                Some(b) => Some(lower_block(&**b)),
                None => None,
            };
            Stmt::If { cond, then_block, else_block }
        },
        ASTNode::While { condition, body } => {
            let cond = lower_expr(&**condition);
            Stmt::While { cond, body: lower_block(&**body) }
        },
        ASTNode::For { init, condition, increment, body } => {
            let i = match init {
                Some(x) => Some(Box::new(lower_init(&**x))),
                None => None,
            };
            let cond = match condition {
                Some(x) => Some(lower_expr(&**x)),
                None => None,
            };
            let step = match increment {
                Some(x) => Some(Box::new(lower_stmt(&**x))),
                None => None,
            };
            Stmt::For { init: i, cond, step, body: lower_block(&**body) }
        },
        ASTNode::VariableDecl { name, value, .. } => Stmt::Let { name: name.clone(), value: Some(lower_expr(&**value)) },
        ASTNode::QuantumVariableDecl { name, value, .. } => Stmt::Let {
            name: name.clone(),
            value: Some(lower_expr(&**value)),
        },
        ASTNode::QuantumFunction { func_type, name, .. } => {
            let kind = match func_type {
                QuantumFunctionType::Classical => "Classical",
                QuantumFunctionType::Quantum => "Quantum",
                QuantumFunctionType::AINeural => "AINeural",
            };
            let mut args: Vec<Expr> = Vec::new();
            args.push(str_lit(name));
            args.push(Expr::Lit(Lit::String(String::from_str(kind))));
            call_stmt("__quantum_function", args)
        },
        ASTNode::ProbabilityBranch { condition, then_branch, else_branch, .. } => {
            let cond = lower_expr(&**condition);
            let then_block = lower_block(&**then_branch);
            let else_block = match else_branch {
                Some(b) => Some(lower_block(&**b)),
                None => None,
            };
            Stmt::If { cond, then_block, else_block }
        },
        ASTNode::QuantumLoop { condition, body, decoherence_threshold } => {
            let c = lower_expr(&**condition);
            let cond = if decoherence_threshold.is_some() {
                let mut args: Vec<Expr> = Vec::new();
                args.push(c);
                Expr::Call { callee: Box::new(ident("__quantum_protect_loop")), args }
            } else {
                c
            };
            Stmt::While { cond, body: lower_block(&**body) }
        },
        ASTNode::SuperpositionSwitch { value, .. } => {
            let mut args: Vec<Expr> = Vec::new();
            args.push(lower_expr(&**value));
            call_stmt("__superposition_switch", args)
        },
        ASTNode::QuantumTryCatch { error_probability, .. } => {
            let p = match error_probability {
                Some(p) => Expr::Lit(Lit::Number(p.clone())),
                None => Expr::Lit(Lit::Number(String::from_str("0.1"))),
            };
            let mut args: Vec<Expr> = Vec::new();
            args.push(p);
            args.push(Expr::Lit(Lit::String(String::from_str("attempt_block"))));
            args.push(Expr::Lit(Lit::String(String::from_str("catch_block"))));
            call_stmt("__quantum_try_catch", args)
        },
        ASTNode::AILearningBlock { .. } => {
            let mut args: Vec<Expr> = Vec::new();
            args.push(Expr::Object(Vec::new()));
            call_stmt("__ai_learning_block", args)
        },
        ASTNode::TimeBlock { duration, .. } => {
            let d = match duration {
                Some(x) => lower_expr(&**x),
                None => Expr::Lit(Lit::String(String::from_str("auto"))),
            };
            let mut args: Vec<Expr> = Vec::new();
            args.push(d);
            call_stmt("__time_block", args)
        },
        ASTNode::StructDecl { name, .. } => {
            let mut cs: Vec<char> = Vec::new();
            push_str_chars(&mut cs, "__struct_");
            push_string_chars(&mut cs, name);
            Stmt::Let { name: string_from_chars(cs.as_slice()), value: Some(str_lit(name)) }
        },
        ASTNode::EnumDecl { name, .. } => {
            let mut cs: Vec<char> = Vec::new();
            push_str_chars(&mut cs, "__enum_");
            push_string_chars(&mut cs, name);
            Stmt::Let { name: string_from_chars(cs.as_slice()), value: Some(str_lit(name)) }
        },
        ASTNode::MatchExpr { value, arms, .. } => lower_match(&**value, arms),
        _ => empty_stmt(),
    }
}

/// Lowers a statement of the syntax tree (see `lowered_stmt`); every statement in
/// which no program node stands where a statement is lowered has a lowering.
pub fn lower_stmt_ast(n: &ASTNode) -> (r: Result<Stmt, String>)
    requires
        stmt_lowerable(*n),
    ensures
        r matches Ok(s) && lowered_stmt(*n, s),
{
    Ok(lower_stmt(n))
}

} // verus!
