//! The JavaScript text of syntax trees: what the JavaScript back end writes for
//! each statement and expression, and which runtime helpers the text then needs.

use vstd::prelude::*;
use crate::ast::{ASTNode, FunctionParam, MatchArm, QuantumBindingType, QuantumFunctionType, StructField, SuperpositionCase};
use crate::code_generator::{helper_for, helpers_text, is_quantum_builtin, is_glyph_name, op_text, HelperSet};
use crate::text::{decimal_text, number_text, repeat_text};
use crate::token::TokenKind;

verus! {

/// The deepest indentation the generator goes to; deeper blocks stay at it.
pub const INDENT_CAP: usize = 0x1000_0000;

/// The indentation inside a block opened at `ind`.
pub open spec fn next_indent(ind: nat) -> nat {
    if ind < INDENT_CAP {
        ind + 1
    } else {
        ind
    }
}

/// Two spaces per level.
pub open spec fn pad(ind: nat) -> Seq<char> {
    repeat_text("  "@, ind)
}

/// No helper needed.
pub open spec fn no_helpers() -> HelperSet {
    HelperSet { len: false, quantum_runtime: false, glyph_runtime: false }
}

/// The helpers after a call of the named function is written.
pub open spec fn add_name(h: HelperSet, name: Seq<char>) -> HelperSet {
    HelperSet {
        len: h.len || name == "len"@,
        quantum_runtime: h.quantum_runtime || (name != "len"@ && is_quantum_builtin(name)),
        glyph_runtime: h.glyph_runtime || (name != "len"@ && !is_quantum_builtin(name) && is_glyph_name(name)),
    }
}

/// A character of a string literal as JavaScript writes it between quotes.
pub open spec fn escape_char(c: char) -> Seq<char> {
    if c == '\\' {
        seq!['\\', '\\']
    } else if c == '"' {
        seq!['\\', '"']
    } else if c == '\n' {
        seq!['\\', 'n']
    } else if c == '\r' {
        seq!['\\', 'r']
    } else {
        seq![c]
    }
}

/// A string literal's text with backslashes, quotes, line feeds and carriage
/// returns escaped.
pub open spec fn escape_text(s: Seq<char>) -> Seq<char>
    decreases s.len(),
{
    if s.len() == 0 {
        Seq::empty()
    } else {
        escape_text(s.drop_last()) + escape_char(s.last())
    }
}

/// Texts joined with a separator.
pub open spec fn join(ts: Seq<Seq<char>>, sep: Seq<char>) -> Seq<char>
    decreases ts.len(),
{
    if ts.len() == 0 {
        Seq::empty()
    } else if ts.len() == 1 {
        ts[0]
    } else {
        join(ts.drop_last(), sep) + sep + ts.last()
    }
}

/// The parameter names, separated by `, `.
pub open spec fn param_list(ps: Seq<FunctionParam>) -> Seq<char> {
    join(ps.map_values(|p: FunctionParam| p.name@), ", "@)
}

/// The function a quantum operation calls.
pub open spec fn qop_name(op: TokenKind) -> Seq<char> {
    match op {
        TokenKind::Superpose => "superpose"@,
        TokenKind::Entangle => "entangle"@,
        TokenKind::Measure => "measure"@,
        TokenKind::Dod => "dod"@,
        _ => "qop"@,
    }
}

/// The runtime function a quantum binary operator calls.
pub open spec fn quantum_fn_name(op: TokenKind) -> Seq<char> {
    match op {
        TokenKind::QuantumXor => "quantumXor"@,
        TokenKind::QuantumTensor => "quantumTensor"@,
        TokenKind::SuperpositionState => "quantumSuperposition"@,
        TokenKind::Entangle => "quantumEntangle"@,
        _ => "quantumOp"@,
    }
}

/// The comment after a quantum variable declaration.
pub open spec fn binding_comment(b: QuantumBindingType) -> Seq<char> {
    match b {
        QuantumBindingType::Classical => "// Classical quantum variable"@,
        QuantumBindingType::Superposition => "// Superposition quantum variable"@,
        QuantumBindingType::Tensor => "// Tensor product quantum variable"@,
        QuantumBindingType::Approximation => "// Quantum approximation variable"@,
    }
}

/// The comment that marks a function's kind.
pub open spec fn function_marker(f: QuantumFunctionType) -> Seq<char> {
    match f {
        QuantumFunctionType::Quantum => "// ⊙ Quantum Function"@,
        QuantumFunctionType::Classical => "// ◯ Classical Function"@,
        QuantumFunctionType::AINeural => "// 🧠 AI Neural Function"@,
    }
}

/// An optional text after a prefix, or a default.
pub open spec fn comment_or(o: Option<String>, prefix: Seq<char>, default: Seq<char>) -> Seq<char> {
    match o {
        Some(t) => prefix + t@,
        None => default,
    }
}

/// The constructor a struct declaration becomes: its fields as parameters, each
/// stored on `this`.
pub open spec fn struct_text(name: Seq<char>, fs: Seq<StructField>) -> Seq<char> {
    let names = fs.map_values(|f: StructField| f.name@);
    let assigns = names.map_values(|n: Seq<char>| "this."@ + n + " = "@ + n + ";"@);
    "function "@ + name + "("@ + join(names, ", "@) + ") { "@ + join(assigns, " "@) + " }\n"@
}

/// The object an enum declaration becomes: each variant numbered from zero.
pub open spec fn enum_text(name: Seq<char>, vs: Seq<String>) -> Seq<char> {
    let fields = Seq::new(vs.len(), |i: int| vs[i]@ + ": "@ + decimal_text(i as nat));
    "const "@ + name + " = { "@ + join(fields, ", "@) + " };\n"@
}

/// The comment lines of a superposition switch's cases.
pub open spec fn case_lines(cs: Seq<SuperpositionCase>) -> Seq<char> {
    join(
        cs.map_values(|c: SuperpositionCase| "// Superposition case: "@ + c.pattern@ + " -> quantum state handling"@),
        "\n"@,
    )
}

/// The text ends with a line feed.
pub open spec fn ends_nl(s: Seq<char>) -> bool {
    s.len() > 0 && s.last() == '\n'
}

/// The text with a line feed added unless it ends with one.
pub open spec fn with_nl(s: Seq<char>) -> Seq<char> {
    if ends_nl(s) {
        s
    } else {
        s + "\n"@
    }
}

/// The prelude of the helpers a program needs, ending with a line feed, or nothing.
pub open spec fn prelude_text(h: HelperSet) -> Seq<char> {
    if h.len || h.quantum_runtime || h.glyph_runtime {
        with_nl(helpers_text(h))
    } else {
        Seq::empty()
    }
}

/// What an expression is written as at indentation `ind`, and the helpers needed
/// once it is written (starting from `h`).
pub open spec fn js_expr(n: ASTNode, ind: nat, h: HelperSet) -> (Seq<char>, HelperSet)
    decreases n, 1int,
{
    match n {
        ASTNode::Identifier(s) => (s@, h),
        ASTNode::IdentifierSpanned { name, .. } => (name@, h),
        ASTNode::NumberLiteral(t) => (number_text(t@), h),
        ASTNode::StringLiteral(s) => ("\""@ + escape_text(s@) + "\""@, h),
        ASTNode::BooleanLiteral(b) => (if b { "true"@ } else { "false"@ }, h),
        ASTNode::BinaryExpr { op, left, right } => {
            let (l, h1) = js_expr(*left, ind, h);
            let (r, h2) = js_expr(*right, ind, h1);
            ("("@ + l + " "@ + op_text(op) + " "@ + r + ")"@, h2)
        },
        ASTNode::UnaryExpr { op, expr } => {
            let (e, h1) = js_expr(*expr, ind, h);
            (op_text(op) + e, h1)
        },
        ASTNode::Call { callee, args } => {
            let (c, h1) = match *callee {
                ASTNode::Identifier(name) => match helper_for(name@) {
                    Some(t) => (t, add_name(h, name@)),
                    None => (name@, add_name(h, name@)),
                },
                ASTNode::IdentifierSpanned { name, .. } => match helper_for(name@) {
                    Some(t) => (t, add_name(h, name@)),
                    None => (name@, add_name(h, name@)),
                },
                _ => js_expr(*callee, ind, h),
            };
            let (a, h2) = js_exprs(args@, ind, h1);
            (c + "("@ + a + ")"@, h2)
        },
        ASTNode::Assignment { name, value, .. } => {
            let (v, h1) = js_expr(*value, ind, h);
            (name@ + " = "@ + v, h1)
        },
        ASTNode::QuantumOp { op, qubits } => {
            let (a, h1) = js_exprs(qubits@, ind, h);
            (qop_name(op) + "("@ + a + ")"@, h1)
        },
        ASTNode::HieroglyphicOp { symbol, args } => {
            let (a, h1) = js_exprs(args@, ind, h);
            ("__glyph('"@ + symbol@ + "', "@ + a + ")"@, h1)
        },
        ASTNode::QuantumState { state, amplitude } => (
            match amplitude {
                Some(a) => "\""@ + state@ + "\" /* amplitude: "@ + a@ + " */"@,
                None => "\""@ + state@ + "\""@,
            },
            h,
        ),
        ASTNode::QuantumBinaryExpr { op, left, right } => {
            let (l, h1) = js_expr(*left, ind, h);
            let (r, h2) = js_expr(*right, ind, h1);
            ("__quantum."@ + quantum_fn_name(op) + "("@ + l + ", "@ + r + ")"@, h2)
        },
        ASTNode::QuantumIndexAccess { array, index, is_quantum_index } => {
            let (a, h1) = js_expr(*array, ind, h);
            let (i, h2) = js_expr(*index, ind, h1);
            (if is_quantum_index {
                "__quantum.quantumIndex("@ + a + ", "@ + i + ")"@
            } else {
                a + "["@ + i + "]"@
            }, h2)
        },
        ASTNode::MethodCall { object, method, args, .. } => {
            let (o, h1) = js_expr(*object, ind, h);
            let (a, h2) = js_exprs(args@, ind, h1);
            (o + "."@ + method@ + "("@ + a + ")"@, h2)
        },
        ASTNode::FieldAccess { object, field } => {
            let (o, h1) = js_expr(*object, ind, h);
            (o + "."@ + field@, h1)
        },
        ASTNode::ArrayLiteral(es) => {
            let (a, h1) = js_exprs(es@, ind, h);
            ("["@ + a + "]"@, h1)
        },
        ASTNode::If { condition, then_branch, else_branch } => {
            let (c, h1) = js_expr(*condition, ind, h);
            let (t, h2) = js_returnable(*then_branch, ind, h1);
            let (e, h3) = match else_branch {
                Some(b) => {
                    let (x, hx) = js_returnable(*b, ind, h2);
                    (" else {\n"@ + x + "}"@, hx)
                },
                None => (Seq::empty(), h2),
            };
            ("((() => { if ("@ + c + ") {\n"@ + t + "}"@ + e + " return undefined; })())"@, h3)
        },
        _ => ("undefined"@, h),
    }
}

/// Expressions written one after another, separated by `, `.
pub open spec fn js_exprs(ns: Seq<ASTNode>, ind: nat, h: HelperSet) -> (Seq<char>, HelperSet)
    decreases ns, 0int,
{
    if ns.len() == 0 {
        (Seq::empty(), h)
    } else if ns.len() == 1 {
        js_expr(ns[0], ind, h)
    } else {
        let (a, h1) = js_exprs(ns.drop_last(), ind, h);
        let (b, h2) = js_expr(ns.last(), ind, h1);
        (a + ", "@ + b, h2)
    }
}

/// A branch of an `if` used as an expression: its statements but the last, then a
/// `return` of the last (or of the branch itself when it is no block or is empty).
pub open spec fn js_returnable(n: ASTNode, ind: nat, h: HelperSet) -> (Seq<char>, HelperSet)
    decreases n, 2int,
{
    match n {
        ASTNode::Block(stmts) => if stmts@.len() > 0 {
            let (a, h1) = js_stmts(stmts@.drop_last(), ind, h);
            let (b, h2) = js_expr(stmts@.last(), ind, h1);
            (a + "return ("@ + b + ");\n"@, h2)
        } else {
            let (b, h1) = js_expr(n, ind, h);
            ("return ("@ + b + ");\n"@, h1)
        },
        _ => {
            let (b, h1) = js_expr(n, ind, h);
            ("return ("@ + b + ");\n"@, h1)
        },
    }
}

/// Statements written one after another.
pub open spec fn js_stmts(ns: Seq<ASTNode>, ind: nat, h: HelperSet) -> (Seq<char>, HelperSet)
    decreases ns, 0int,
{
    if ns.len() == 0 {
        (Seq::empty(), h)
    } else {
        let (a, h1) = js_stmts(ns.drop_last(), ind, h);
        let (b, h2) = js_stmt(ns.last(), ind, h1);
        (a + b, h2)
    }
}

/// The statements of a program, each ending with a line feed (one is added when a
/// statement's text does not end with one).
pub open spec fn js_program_body(ns: Seq<ASTNode>, ind: nat, h: HelperSet) -> (Seq<char>, HelperSet)
    decreases ns, 0int,
{
    if ns.len() == 0 {
        (Seq::empty(), h)
    } else {
        let (a, h1) = js_program_body(ns.drop_last(), ind, h);
        let (b, h2) = js_stmt(ns.last(), ind, h1);
        (with_nl(a + b), h2)
    }
}

/// The opening of a block and its statements, each on its own line, indented to
/// `ind` (a line feed is added when a statement's text does not end with one).
pub open spec fn js_block_lines(ns: Seq<ASTNode>, ind: nat, h: HelperSet) -> (Seq<char>, HelperSet)
    decreases ns, 0int,
{
    if ns.len() == 0 {
        ("{\n"@, h)
    } else {
        let (a, h1) = js_block_lines(ns.drop_last(), ind, h);
        let (b, h2) = js_stmt(ns.last(), ind, h1);
        (with_nl(a + pad(ind) + b), h2)
    }
}

/// A block of statements opened at indentation `ind`.
pub open spec fn js_block(ns: Seq<ASTNode>, ind: nat, h: HelperSet) -> (Seq<char>, HelperSet)
    decreases ns, 1int,
{
    let (a, h1) = js_block_lines(ns, next_indent(ind), h);
    (a + "}\n"@, h1)
}

/// The methods of an `impl` block as functions named after the type and method.
pub open spec fn js_impl_methods(target: Seq<char>, ms: Seq<ASTNode>, ind: nat, h: HelperSet) -> (Seq<char>, HelperSet)
    decreases ms, 0int,
{
    if ms.len() == 0 {
        (Seq::empty(), h)
    } else {
        let (a, h1) = js_impl_methods(target, ms.drop_last(), ind, h);
        match ms.last() {
            ASTNode::Function { name, params, body, .. } => {
                let (b, h2) = js_stmts(body@, ind, h1);
                (a + "function "@ + target + "_"@ + name@ + "("@ + param_list(params@) + ") {\n"@ + b + "}\n"@, h2)
            },
            _ => (a, h1),
        }
    }
}

/// The arms of a `match` as a chain of `if` / `else if`: a name pattern matches
/// anything, any other pattern is compared with the matched value, a guard is
/// added to the condition, and the arm's body follows.
pub open spec fn js_arms(arms: Seq<MatchArm>, ind: nat, h: HelperSet) -> (Seq<char>, HelperSet)
    decreases arms, 0int,
{
    if arms.len() == 0 {
        (Seq::empty(), h)
    } else {
        let (a, h1) = js_arms(arms.drop_last(), ind, h);
        let arm = arms.last();
        let (p, h2) = if arm.pattern is Identifier || arm.pattern is IdentifierSpanned {
            ("true"@, h1)
        } else {
            let (e, hx) = js_expr(arm.pattern, ind, h1);
            ("(__match_val === "@ + e + ")"@, hx)
        };
        let (c, h3) = match arm.guard {
            Some(g) => {
                let (x, hx) = js_expr(g, ind, h2);
                ("("@ + p + " && "@ + x + ")"@, hx)
            },
            None => (p, h2),
        };
        let (b, h4) = js_wrap(arm.body, ind, h3);
        (a + (if arms.len() == 1 { "if ("@ } else { "else if ("@ }) + c + ") "@ + b + "\n"@, h4)
    }
}

/// A statement as the body of `if`, `while` or `for`: a block without its final
/// line feed, or the statement in braces on its own indented line.
pub open spec fn js_wrap(n: ASTNode, ind: nat, h: HelperSet) -> (Seq<char>, HelperSet)
    decreases n, 4int,
{
    match n {
        ASTNode::Block(_) => {
            let (b, h1) = js_stmt(n, ind, h);
            (if ends_nl(b) { b.drop_last() } else { b }, h1)
        },
        _ => {
            let (b, h1) = js_stmt(n, next_indent(ind), h);
            ("{\n"@ + pad(next_indent(ind)) + b + "}"@, h1)
        },
    }
}

/// What a statement is written as at indentation `ind`, and the helpers needed once
/// it is written (starting from `h`). A program is written with the prelude of the
/// helpers its statements need, and leaves the helpers as they were.
pub open spec fn js_stmt(n: ASTNode, ind: nat, h: HelperSet) -> (Seq<char>, HelperSet)
    decreases n, 3int,
{
    match n {
        ASTNode::Program(items) => {
            let (body, hb) = js_program_body(items@, ind, no_helpers());
            (prelude_text(hb) + body, h)
        },
        ASTNode::Block(items) => js_block(items@, ind, h),
        ASTNode::VariableDecl { name, value, .. } => {
            let (v, h1) = js_expr(*value, ind, h);
            ("let "@ + name@ + " = "@ + v + ";\n"@, h1)
        },
        ASTNode::Function { name, params, body, .. } => {
            let (b, h1) = js_block(body@, ind, h);
            ("function "@ + name@ + "("@ + param_list(params@) + ") "@ + b, h1)
        },
        ASTNode::Return(e) => {
            let (v, h1) = js_expr(*e, ind, h);
            ("return "@ + v + ";\n"@, h1)
        },
        ASTNode::Log(e) => {
            let (v, h1) = js_expr(*e, ind, h);
            ("console.log("@ + v + ");\n"@, h1)
        },
        ASTNode::Assignment { name, value, .. } => {
            let (v, h1) = js_expr(*value, ind, h);
            (name@ + " = "@ + v + ";\n"@, h1)
        },
        ASTNode::Call { .. } => {
            let (v, h1) = js_expr(n, ind, h);
            (v + ";\n"@, h1)
        },
        ASTNode::If { condition, then_branch, else_branch } => {
            let (c, h1) = js_expr(*condition, ind, h);
            let (t, h2) = js_wrap(*then_branch, ind, h1);
            let (e, h3) = match else_branch {
                Some(b) => {
                    let (x, hx) = js_wrap(*b, ind, h2);
                    (" else "@ + x, hx)
                },
                None => (Seq::empty(), h2),
            };
            ("if ("@ + c + ") "@ + t + e + "\n"@, h3)
        },
        ASTNode::While { condition, body } => {
            let (c, h1) = js_expr(*condition, ind, h);
            let (b, h2) = js_wrap(*body, ind, h1);
            ("while ("@ + c + ") "@ + b + "\n"@, h2)
        },
        ASTNode::For { init, condition, increment, body } => {
            let (i, h1) = match init {
                Some(x) => {
                    let (t, hx) = js_stmt(*x, ind, h);
                    (crate::code_generator::strip_trailing_text(t), hx)
                },
                None => (Seq::empty(), h),
            };
            let (c, h2) = match condition {
                Some(x) => js_expr(*x, ind, h1),
                None => (Seq::empty(), h1),
            };
            let (s, h3) = match increment {
                Some(x) => {
                    let (t, hx) = js_stmt(*x, ind, h2);
                    (crate::code_generator::strip_trailing_text(t), hx)
                },
                None => (Seq::empty(), h2),
            };
            let (b, h4) = js_wrap(*body, ind, h3);
            ("for ("@ + i + "; "@ + c + "; "@ + s + ") "@ + b + "\n"@, h4)
        },
        ASTNode::ForIn { binding, iterable, body } => {
            let (it, h1) = js_expr(*iterable, ind, h);
            let (b, h2) = js_wrap(*body, ind, h1);
            ("for (const "@ + binding.name@ + " of "@ + it + ") "@ + b + "\n"@, h2)
        },
        ASTNode::BinaryExpr { .. } | ASTNode::UnaryExpr { .. } | ASTNode::Identifier(_) | ASTNode::IdentifierSpanned {
            ..
        } | ASTNode::NumberLiteral(_) | ASTNode::StringLiteral(_) | ASTNode::BooleanLiteral(_) => {
            let (v, h1) = js_expr(n, ind, h);
            (v + ";\n"@, h1)
        },
        _ => js_stmt_more(n, ind, h),
    }
}

/// What `js_stmt` gives for quantum, declaration and expression statements; other
/// nodes give nothing.
pub open spec fn js_stmt_more(n: ASTNode, ind: nat, h: HelperSet) -> (Seq<char>, HelperSet)
    decreases n, 2int,
{
    match n {
        ASTNode::QuantumOp { op, qubits } => {
            let (a, h1) = js_exprs(qubits@, ind, HelperSet { quantum_runtime: true, ..h });
            (qop_name(op) + "("@ + a + ");\n"@, h1)
        },
        ASTNode::QuantumVariableDecl { name, binding_type, value, .. } => {
            let (v, h1) = js_expr(*value, ind, h);
            ("let "@ + name@ + " = "@ + v + "; "@ + binding_comment(binding_type) + "\n"@, h1)
        },
        ASTNode::HieroglyphicOp { symbol, args } => {
            let (a, h1) = js_exprs(args@, ind, h);
            ("__glyph('"@ + symbol@ + "', "@ + a + ");\n"@, h1)
        },
        ASTNode::Error(msg) => ("/* ERROR NODE: "@ + msg@ + " */\n"@, h),
        ASTNode::QuantumBinaryExpr { op, left, right } => {
            let (l, h1) = js_expr(*left, ind, h);
            let (r, h2) = js_expr(*right, ind, h1);
            ("__quantum."@ + quantum_fn_name(op) + "("@ + l + ", "@ + r + ");\n"@, h2)
        },
        ASTNode::QuantumIndexAccess { array, index, is_quantum_index } => {
            let (a, h1) = js_expr(*array, ind, h);
            let (i, h2) = js_expr(*index, ind, h1);
            (if is_quantum_index {
                "__quantum.quantumIndex("@ + a + ", "@ + i + ")\n"@
            } else {
                a + "["@ + i + "]\n"@
            }, h2)
        },
        ASTNode::QuantumFunction { func_type, name, params, body, .. } => {
            let (b, h1) = js_stmts(body@, ind, h);
            (
                "function "@ + name@ + "("@ + param_list(params@) + ") { "@ + function_marker(func_type) + "\n"@ + b
                    + "}\n"@,
                h1,
            )
        },
        ASTNode::ProbabilityBranch { condition, probability, then_branch, else_branch } => {
            let (c, h1) = js_expr(*condition, ind, h);
            let (t, h2) = js_stmt(*then_branch, ind, h1);
            let pc = comment_or(probability, "// Probability: "@, "// Quantum probability"@);
            match else_branch {
                Some(e) => {
                    let (x, h3) = js_stmt(*e, ind, h2);
                    (
                        "if (__quantum.evaluate("@ + c + ")) { "@ + pc + "\n"@ + t + "\n} else { "@ + pc + "\n"@ + x
                            + "\n}\n"@,
                        h3,
                    )
                },
                None => ("if (__quantum.evaluate("@ + c + ")) { "@ + pc + "\n"@ + t + "\n}\n"@, h2),
            }
        },
        ASTNode::QuantumLoop { condition, body, decoherence_threshold } => {
            let (c, h1) = js_expr(*condition, ind, h);
            let (b, h2) = js_stmt(*body, ind, h1);
            let dc = comment_or(
                decoherence_threshold,
                "// Decoherence threshold: "@,
                "// Quantum loop with decoherence protection"@,
            );
            ("while (__quantum.evaluateLoop("@ + c + ")) { "@ + dc + "\n"@ + b + "\n}\n"@, h2)
        },
        ASTNode::SuperpositionSwitch { value, cases } => {
            let (v, h1) = js_expr(*value, ind, h);
            ("__quantum.superpositionSwitch("@ + v + ") {\n"@ + case_lines(cases@) + "\n}\n"@, h1)
        },
        ASTNode::QuantumTryCatch { attempt_body, error_probability, catch_body, .. } => {
            let (a, h1) = js_stmts(attempt_body@, ind, h);
            let pc = comment_or(error_probability, "// Error probability: "@, "// Quantum error correction"@);
            let (c, h2) = match catch_body {
                Some(cs) => js_stmts(cs@, ind, h1),
                None => ("// Default quantum error handling\n"@, h1),
            };
            ("try { "@ + pc + "\n"@ + a + "\n} catch (quantum_error) { "@ + pc + "\n"@ + c + "\n}\n"@, h2)
        },
        ASTNode::AILearningBlock { data_binding, model_binding, body } => {
            let (b, h1) = js_stmts(body@, ind, h);
            let dc = comment_or(data_binding, "// Data binding: "@, "// No data binding specified"@);
            let mc = comment_or(model_binding, "// Model binding: "@, "// No model binding specified"@);
            ("// AI Learning Block\n"@ + dc + "\n"@ + mc + "\n__quantum.aiLearningBlock(() => {\n"@ + b + "\n});\n"@, h1)
        },
        ASTNode::TimeBlock { duration, body } => {
            let (d, h1) = match duration {
                Some(x) => js_expr(*x, ind, h),
                None => ("auto"@, h),
            };
            let (b, h2) = js_stmts(body@, ind, h1);
            ("__time.block("@ + d + ") { "@ + b + "\n}\n"@, h2)
        },
        ASTNode::StructDecl { name, fields, .. } => (struct_text(name@, fields@), h),
        ASTNode::EnumDecl { name, variants, .. } => (enum_text(name@, variants@), h),
        ASTNode::ImplBlock { type_ident, methods, .. } => js_impl_methods(type_ident@, methods@, ind, h),
        ASTNode::MatchExpr { value, arms, .. } => {
            let (v, h1) = js_expr(*value, ind, h);
            let (a, h2) = js_arms(arms@, ind, h1);
            ("let __match_val = "@ + v + ";\n"@ + a, h2)
        },
        ASTNode::MethodCall { object, method, args, .. } => {
            let (o, h1) = js_expr(*object, ind, h);
            let (a, h2) = js_exprs(args@, ind, h1);
            (o + "."@ + method@ + "("@ + a + ");\n"@, h2)
        },
        ASTNode::FieldAccess { object, field } => {
            let (o, h1) = js_expr(*object, ind, h);
            (o + "."@ + field@ + ";\n"@, h1)
        },
        ASTNode::ArrayLiteral(es) => {
            let (a, h1) = js_exprs(es@, ind, h);
            ("["@ + a + "];\n"@, h1)
        },
        _ => (Seq::empty(), h),
    }
}

/// The condition a `match` pattern tests: a name matches anything, any other
/// pattern is compared with the matched value.
pub open spec fn pattern_text(p: ASTNode, ind: nat, h: HelperSet) -> (Seq<char>, HelperSet) {
    if p is Identifier || p is IdentifierSpanned {
        ("true"@, h)
    } else {
        let (e, hx) = js_expr(p, ind, h);
        ("(__match_val === "@ + e + ")"@, hx)
    }
}

/// One arm of a `match` (as `js_arms` writes it): `if (` for the first, `else if (`
/// for the others, the condition with the guard's, and the arm's body.
pub open spec fn arm_text(arm: MatchArm, first: bool, ind: nat, h: HelperSet) -> (Seq<char>, HelperSet) {
    let (p, h2) = pattern_text(arm.pattern, ind, h);
    let (c, h3) = match arm.guard {
        Some(g) => {
            let (x, hx) = js_expr(g, ind, h2);
            ("("@ + p + " && "@ + x + ")"@, hx)
        },
        None => (p, h2),
    };
    let (b, h4) = js_wrap(arm.body, ind, h3);
    ((if first { "if ("@ } else { "else if ("@ }) + c + ") "@ + b + "\n"@, h4)
}

/// A program is written the same whatever was generated before it, and leaves the
/// recorded helpers as they were: generating it again gives the same text.
pub proof fn lemma_program_independent(prog: ASTNode, ind: nat, h1: HelperSet, h2: HelperSet)
    requires
        prog is Program,
    ensures
        js_stmt(prog, ind, h1).0 == js_stmt(prog, ind, h2).0,
        js_stmt(prog, ind, h1).1 == h1,
{
}

} // verus!
