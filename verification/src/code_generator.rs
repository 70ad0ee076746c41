//! The JavaScript back end's runtime helpers, operators and layout.

use vstd::prelude::*;
use crate::ast::{ASTNode, FunctionParam, MatchArm, QuantumBindingType, QuantumFunctionType, StructField, SuperpositionCase};
use crate::js_text::{
    add_name, arm_text, js_stmt_more, pattern_text, binding_comment, case_lines, comment_or, ends_nl, enum_text, escape_char, escape_text, function_marker,
    join, js_arms, js_block, js_block_lines, js_expr, js_exprs, js_impl_methods, js_program_body,
    js_returnable, js_stmt, js_stmts, js_wrap, next_indent, no_helpers, pad, param_list, prelude_text, qop_name,
    quantum_fn_name, struct_text, with_nl, INDENT_CAP,
};
use crate::text::{chars_of, push_decimal, push_number, push_str_chars, push_string_chars, repeat_str, repeat_text, string_from_chars};
use crate::token::TokenKind;

verus! {

/// The language code is generated in.
#[derive(Debug, PartialEq, Eq, Structural, Clone, Copy)]
pub enum Backend {
    Js,
    Ai,
}

/// Which runtime helpers the generated program needs; the helpers come in the
/// order `len`, quantum runtime, glyph runtime.
#[derive(Debug, PartialEq, Eq, Structural, Clone, Copy)]
pub struct HelperSet {
    pub len: bool,
    pub quantum_runtime: bool,
    pub glyph_runtime: bool,
}

/// Generates code from syntax trees.
pub struct CodeGenerator {
    indent: usize,
    backend: Backend,
    helpers: HelperSet,
}

/// Lines joined into one text.
pub open spec fn concat_lines(ls: Seq<Seq<char>>) -> Seq<char>
    decreases ls.len(),
{
    if ls.len() == 0 {
        Seq::empty()
    } else {
        concat_lines(ls.drop_last()) + ls[ls.len() - 1]
    }
}

/// Appends lines in order.
fn push_lines(out: &mut Vec<char>, lines: &[&str])
    ensures
        final(out)@ == old(out)@ + concat_lines(lines@.map_values(|l: &str| l@)),
{
    let ghost ls = lines@.map_values(|l: &str| l@);
    let mut i: usize = 0;
    while i < lines.len()
        invariant
            i <= lines@.len(),
            ls == lines@.map_values(|l: &str| l@),
            out@ == old(out)@ + concat_lines(ls.take(i as int)),
        decreases lines@.len() - i,
    {
        proof {
            assert(ls.take(i as int + 1).drop_last() =~= ls.take(i as int));
        }
        push_str_chars(out, lines[i]);
        i += 1;
        assert(out@ =~= old(out)@ + concat_lines(ls.take(i as int)));
    }
    assert(ls.take(lines@.len() as int) =~= ls);
}

/// The source of the `len` helper.
pub open spec fn len_helper_text() -> Seq<char> {
    concat_lines(seq![
        "const __aeonmi_len = (value) => {\n"@,
        "    if (typeof value === \"string\") { return value.length; }\n"@,
        "    if (Array.isArray(value)) { return value.length; }\n"@,
        "    if (value && typeof value === \"object\") { return Object.keys(value).length; }\n"@,
        "    if (value === null || value === undefined) { return 0; }\n"@,
        "    throw new Error(\"len: unsupported type\");\n"@,
        "};\n"@,
    ])
}

/// The source of the quantum runtime.
pub open spec fn quantum_runtime_text() -> Seq<char> {
    concat_lines(seq![
        "// Aeonmi Quantum Runtime\n"@,
        "const H = 'H';\n"@,
        "const X = 'X';\n"@,
        "const Y = 'Y';\n"@,
        "const Z = 'Z';\n"@,
        "const CNOT = 'CNOT';\n"@,
        "const HADAMARD = 'H';\n"@,
        "const NOT = 'X';\n"@,
        "const __quantum_state = {};\n"@,
        "function superpose(q) {\n"@,
        "  __quantum_state[q] = { state: [Math.SQRT1_2, Math.SQRT1_2], superposed: true };\n"@,
        "  return __quantum_state[q];\n"@,
        "}\n"@,
        "function measure(q) {\n"@,
        "  const s = __quantum_state[q];\n"@,
        "  if (!s) return 0;\n"@,
        "  const r = Math.random() < (s.state[0] ** 2) ? 0 : 1;\n"@,
        "  __quantum_state[q] = { state: r === 0 ? [1,0] : [0,1], superposed: false };\n"@,
        "  return r;\n"@,
        "}\n"@,
        "function entangle(q1, q2) {\n"@,
        "  __quantum_state[q2] = __quantum_state[q1] || { state: [Math.SQRT1_2, Math.SQRT1_2], superposed: true };\n"@,
        "  return [__quantum_state[q1], __quantum_state[q2]];\n"@,
        "}\n"@,
        "function apply_gate(q, gate) {\n"@,
        "  if (!__quantum_state[q]) __quantum_state[q] = { state: [1, 0], superposed: false };\n"@,
        "  const s = __quantum_state[q];\n"@,
        "  if (gate === 'H') { s.state = [Math.SQRT1_2 * (s.state[0] + s.state[1]), Math.SQRT1_2 * (s.state[0] - s.state[1])]; s.superposed = true; }\n"@,
        "  else if (gate === 'X') { s.state = [s.state[1], s.state[0]]; }\n"@,
        "  else if (gate === 'Y') { s.state = [-s.state[1], s.state[0]]; }\n"@,
        "  else if (gate === 'Z') { s.state = [s.state[0], -s.state[1]]; }\n"@,
        "  else if (gate === 'CNOT') { /* CNOT needs 2 qubits — no-op in single-qubit apply_gate */ }\n"@,
        "  return s;\n"@,
        "}\n"@,
        "function dod(q) { return measure(q); }\n"@,
    ])
}

/// The source of the glyph runtime.
pub open spec fn glyph_runtime_text() -> Seq<char> {
    concat_lines(seq![
        "// Aeonmi Glyph Runtime\n"@,
        "function __glyph(symbol, ...args) {\n"@,
        "  console.log('[GLYPH] ' + symbol + ' invoked with: ' + JSON.stringify(args));\n"@,
        "  return { symbol, args, quantum: true };\n"@,
        "}\n"@,
    ])
}

/// The prelude of the helpers a program needs, in their order, separated by an
/// empty line.
pub open spec fn helpers_text(h: HelperSet) -> Seq<char> {
    let a: Seq<char> = if h.len { len_helper_text() } else { Seq::empty() };
    let b: Seq<char> = if h.quantum_runtime {
        (if h.len { "\n"@ } else { Seq::empty() }) + quantum_runtime_text()
    } else {
        Seq::empty()
    };
    let c: Seq<char> = if h.glyph_runtime {
        (if h.len || h.quantum_runtime { "\n"@ } else { Seq::empty() }) + glyph_runtime_text()
    } else {
        Seq::empty()
    };
    a + b + c
}

/// The JavaScript spelling of an operator; other tokens give `/*op*/`.
pub open spec fn op_text(op: TokenKind) -> Seq<char> {
    match op {
        TokenKind::Plus => "+"@,
        TokenKind::Minus => "-"@,
        TokenKind::Star => "*"@,
        TokenKind::Slash => "/"@,
        TokenKind::Percent => "%"@,
        TokenKind::Equals => "="@,
        TokenKind::DoubleEquals => "=="@,
        TokenKind::NotEquals => "!="@,
        TokenKind::LessThan => "<"@,
        TokenKind::LessEqual => "<="@,
        TokenKind::GreaterThan => ">"@,
        TokenKind::GreaterEqual => ">="@,
        TokenKind::AndAnd => "&&"@,
        TokenKind::OrOr => "||"@,
        TokenKind::Bang => "!"@,
        _ => "/*op*/"@,
    }
}

/// Names of the quantum built-ins, kept as they are and served by the quantum runtime.
pub open spec fn is_quantum_builtin(name: Seq<char>) -> bool {
    name == "superpose"@ || name == "measure"@ || name == "entangle"@ || name == "dod"@ || name == "apply_gate"@
}

/// A name with a character beyond U+07FF (a hieroglyph, say) goes to the glyph runtime.
pub open spec fn is_glyph_name(name: Seq<char>) -> bool {
    exists|i: int| 0 <= i < name.len() && (name[i] as u32) > 0x7FF
}

/// What a called name becomes in JavaScript, and the helper it needs.
pub open spec fn helper_for(name: Seq<char>) -> Option<Seq<char>> {
    if name == "len"@ {
        Some("__aeonmi_len"@)
    } else if is_quantum_builtin(name) {
        Some(name)
    } else if is_glyph_name(name) {
        Some("__glyph.bind(null, '"@ + name + "')"@)
    } else {
        None
    }
}

/// A text without one final line feed, then without one final semicolon.
pub open spec fn strip_trailing_text(s: Seq<char>) -> Seq<char> {
    let a = if s.len() > 0 && s.last() == '\n' { s.drop_last() } else { s };
    if a.len() > 0 && a.last() == ';' { a.drop_last() } else { a }
}

impl Default for CodeGenerator {
    fn default() -> (r: CodeGenerator)
        ensures
            r.indent() == 0,
            r.backend() == Backend::Js,
            r.helpers() == (HelperSet { len: false, quantum_runtime: false, glyph_runtime: false }),
    {
        CodeGenerator::new()
    }
}

fn str_same(a: &str, b: &str) -> (r: bool)
    ensures
        r == (a@ == b@),
{
    let n = a.unicode_len();
    if n != b.unicode_len() {
        return false;
    }
    let mut i: usize = 0;
    while i < n
        invariant
            n == a@.len(),
            n == b@.len(),
            i <= n,
            forall|j: int| 0 <= j < i ==> a@[j] == b@[j],
        decreases n - i,
    {
        if a.get_char(i) != b.get_char(i) {
            return false;
        }
        i += 1;
    }
    assert(a@ =~= b@);
    true
}

impl CodeGenerator {
    /// A generator for JavaScript, at indentation 0, needing no helper.
    pub fn new() -> (r: CodeGenerator)
        ensures
            r.indent() == 0,
            r.backend() == Backend::Js,
            r.helpers() == (HelperSet { len: false, quantum_runtime: false, glyph_runtime: false }),
    {
        CodeGenerator { indent: 0, backend: Backend::Js, helpers: HelperSet { len: false, quantum_runtime: false, glyph_runtime: false } }
    }

    /// A generator for the canonical `.ai` form.
    pub fn new_ai() -> (r: CodeGenerator)
        ensures
            r.indent() == 0,
            r.backend() == Backend::Ai,
            r.helpers() == (HelperSet { len: false, quantum_runtime: false, glyph_runtime: false }),
    {
        CodeGenerator { indent: 0, backend: Backend::Ai, helpers: HelperSet { len: false, quantum_runtime: false, glyph_runtime: false } }
    }

    pub closed spec fn indent(&self) -> usize {
        self.indent
    }

    pub closed spec fn backend(&self) -> Backend {
        self.backend
    }

    pub closed spec fn helpers(&self) -> HelperSet {
        self.helpers
    }

    /// What a called name becomes: `len` becomes `__aeonmi_len` and needs the `len`
    /// helper; a quantum built-in keeps its name and needs the quantum runtime; a
    /// name with a character beyond U+07FF is bound through the glyph runtime; any
    /// other name is left alone (`None`).
    pub fn map_helper(&mut self, name: &str) -> (r: Option<String>)
        ensures
            r matches Some(t) ==> helper_for(name@) == Some(t@),
            r is None ==> helper_for(name@) is None,
            final(self).indent() == old(self).indent(),
            final(self).backend() == old(self).backend(),
            final(self).helpers() == (HelperSet {
                len: old(self).helpers().len || name@ == "len"@,
                quantum_runtime: old(self).helpers().quantum_runtime || (name@ != "len"@ && is_quantum_builtin(name@)),
                glyph_runtime: old(self).helpers().glyph_runtime || (name@ != "len"@ && !is_quantum_builtin(name@)
                    && is_glyph_name(name@)),
            }),
    {
        proof {
            reveal_strlit("len");
            reveal_strlit("superpose");
            reveal_strlit("measure");
            reveal_strlit("entangle");
            reveal_strlit("dod");
            reveal_strlit("apply_gate");
        }
        if str_same(name, "len") {
            self.helpers.len = true;
            return Some(String::from_str("__aeonmi_len"));
        }
        if str_same(name, "superpose") || str_same(name, "measure") || str_same(name, "entangle")
            || str_same(name, "dod") || str_same(name, "apply_gate") {
            self.helpers.quantum_runtime = true;
            return Some(String::from_str(name));
        }
        let cs = chars_of(name);
        let mut i: usize = 0;
        let mut glyph = false;
        while i < cs.len() && !glyph
            invariant
                cs@ == name@,
                i <= cs@.len(),
                glyph ==> i < cs@.len() && (cs@[i as int] as u32) > 0x7FF,
                !glyph ==> forall|j: int| 0 <= j < i ==> (cs@[j] as u32) <= 0x7FF,
            decreases cs@.len() - i + (if glyph { 0int } else { 1int }),
        {
            if (cs[i] as u32) > 0x7FF {
                glyph = true;
            } else {
                i += 1;
            }
        }
        if glyph {
            self.helpers.glyph_runtime = true;
            let mut s = String::from_str("__glyph.bind(null, '");
            s.append(name);
            s.append("')");
            Some(s)
        } else {
            None
        }
    }

    /// The prelude of the given helpers.
    pub fn render_helpers(helpers: HelperSet) -> (r: String)
        ensures
            r@ == helpers_text(helpers),
    {
        let mut out: Vec<char> = Vec::new();
        if helpers.len {
            let len_lines = [
                "const __aeonmi_len = (value) => {\n",
                "    if (typeof value === \"string\") { return value.length; }\n",
                "    if (Array.isArray(value)) { return value.length; }\n",
                "    if (value && typeof value === \"object\") { return Object.keys(value).length; }\n",
                "    if (value === null || value === undefined) { return 0; }\n",
                "    throw new Error(\"len: unsupported type\");\n",
                "};\n",
            ];
            push_lines(&mut out, &len_lines);
            assert(len_lines@.map_values(|l: &str| l@) =~= seq![
                "const __aeonmi_len = (value) => {\n"@,
                "    if (typeof value === \"string\") { return value.length; }\n"@,
                "    if (Array.isArray(value)) { return value.length; }\n"@,
                "    if (value && typeof value === \"object\") { return Object.keys(value).length; }\n"@,
                "    if (value === null || value === undefined) { return 0; }\n"@,
                "    throw new Error(\"len: unsupported type\");\n"@,
                "};\n"@,
            ]);
        }
        let ghost a = out@;
        if helpers.quantum_runtime {
            if helpers.len {
                push_str_chars(&mut out, "\n");
            }
            let quantum_lines = [
                "// Aeonmi Quantum Runtime\n",
                "const H = 'H';\n",
                "const X = 'X';\n",
                "const Y = 'Y';\n",
                "const Z = 'Z';\n",
                "const CNOT = 'CNOT';\n",
                "const HADAMARD = 'H';\n",
                "const NOT = 'X';\n",
                "const __quantum_state = {};\n",
                "function superpose(q) {\n",
                "  __quantum_state[q] = { state: [Math.SQRT1_2, Math.SQRT1_2], superposed: true };\n",
                "  return __quantum_state[q];\n",
                "}\n",
                "function measure(q) {\n",
                "  const s = __quantum_state[q];\n",
                "  if (!s) return 0;\n",
                "  const r = Math.random() < (s.state[0] ** 2) ? 0 : 1;\n",
                "  __quantum_state[q] = { state: r === 0 ? [1,0] : [0,1], superposed: false };\n",
                "  return r;\n",
                "}\n",
                "function entangle(q1, q2) {\n",
                "  __quantum_state[q2] = __quantum_state[q1] || { state: [Math.SQRT1_2, Math.SQRT1_2], superposed: true };\n",
                "  return [__quantum_state[q1], __quantum_state[q2]];\n",
                "}\n",
                "function apply_gate(q, gate) {\n",
                "  if (!__quantum_state[q]) __quantum_state[q] = { state: [1, 0], superposed: false };\n",
                "  const s = __quantum_state[q];\n",
                "  if (gate === 'H') { s.state = [Math.SQRT1_2 * (s.state[0] + s.state[1]), Math.SQRT1_2 * (s.state[0] - s.state[1])]; s.superposed = true; }\n",
                "  else if (gate === 'X') { s.state = [s.state[1], s.state[0]]; }\n",
                "  else if (gate === 'Y') { s.state = [-s.state[1], s.state[0]]; }\n",
                "  else if (gate === 'Z') { s.state = [s.state[0], -s.state[1]]; }\n",
                "  else if (gate === 'CNOT') { /* CNOT needs 2 qubits — no-op in single-qubit apply_gate */ }\n",
                "  return s;\n",
                "}\n",
                "function dod(q) { return measure(q); }\n",
            ];
            push_lines(&mut out, &quantum_lines);
            assert(quantum_lines@.map_values(|l: &str| l@) =~= seq![
                "// Aeonmi Quantum Runtime\n"@,
                "const H = 'H';\n"@,
                "const X = 'X';\n"@,
                "const Y = 'Y';\n"@,
                "const Z = 'Z';\n"@,
                "const CNOT = 'CNOT';\n"@,
                "const HADAMARD = 'H';\n"@,
                "const NOT = 'X';\n"@,
                "const __quantum_state = {};\n"@,
                "function superpose(q) {\n"@,
                "  __quantum_state[q] = { state: [Math.SQRT1_2, Math.SQRT1_2], superposed: true };\n"@,
                "  return __quantum_state[q];\n"@,
                "}\n"@,
                "function measure(q) {\n"@,
                "  const s = __quantum_state[q];\n"@,
                "  if (!s) return 0;\n"@,
                "  const r = Math.random() < (s.state[0] ** 2) ? 0 : 1;\n"@,
                "  __quantum_state[q] = { state: r === 0 ? [1,0] : [0,1], superposed: false };\n"@,
                "  return r;\n"@,
                "}\n"@,
                "function entangle(q1, q2) {\n"@,
                "  __quantum_state[q2] = __quantum_state[q1] || { state: [Math.SQRT1_2, Math.SQRT1_2], superposed: true };\n"@,
                "  return [__quantum_state[q1], __quantum_state[q2]];\n"@,
                "}\n"@,
                "function apply_gate(q, gate) {\n"@,
                "  if (!__quantum_state[q]) __quantum_state[q] = { state: [1, 0], superposed: false };\n"@,
                "  const s = __quantum_state[q];\n"@,
                "  if (gate === 'H') { s.state = [Math.SQRT1_2 * (s.state[0] + s.state[1]), Math.SQRT1_2 * (s.state[0] - s.state[1])]; s.superposed = true; }\n"@,
                "  else if (gate === 'X') { s.state = [s.state[1], s.state[0]]; }\n"@,
                "  else if (gate === 'Y') { s.state = [-s.state[1], s.state[0]]; }\n"@,
                "  else if (gate === 'Z') { s.state = [s.state[0], -s.state[1]]; }\n"@,
                "  else if (gate === 'CNOT') { /* CNOT needs 2 qubits — no-op in single-qubit apply_gate */ }\n"@,
                "  return s;\n"@,
                "}\n"@,
                "function dod(q) { return measure(q); }\n"@,
            ]);
        }
        let ghost b = out@;
        if helpers.glyph_runtime {
            if helpers.len || helpers.quantum_runtime {
                push_str_chars(&mut out, "\n");
            }
            let glyph_lines = [
                "// Aeonmi Glyph Runtime\n",
                "function __glyph(symbol, ...args) {\n",
                "  console.log('[GLYPH] ' + symbol + ' invoked with: ' + JSON.stringify(args));\n",
                "  return { symbol, args, quantum: true };\n",
                "}\n",
            ];
            push_lines(&mut out, &glyph_lines);
            assert(glyph_lines@.map_values(|l: &str| l@) =~= seq![
                "// Aeonmi Glyph Runtime\n"@,
                "function __glyph(symbol, ...args) {\n"@,
                "  console.log('[GLYPH] ' + symbol + ' invoked with: ' + JSON.stringify(args));\n"@,
                "  return { symbol, args, quantum: true };\n"@,
                "}\n"@,
            ]);
        }
        assert(out@ =~= helpers_text(helpers));
        string_from_chars(out.as_slice())
    }

    /// The JavaScript spelling of an operator.
    pub fn op_str(&self, op: &TokenKind) -> (r: &'static str)
        ensures
            r@ == op_text(*op),
    {
        match op {
            TokenKind::Plus => "+",
            TokenKind::Minus => "-",
            TokenKind::Star => "*",
            TokenKind::Slash => "/",
            TokenKind::Percent => "%",
            TokenKind::Equals => "=",
            TokenKind::DoubleEquals => "==",
            TokenKind::NotEquals => "!=",
            TokenKind::LessThan => "<",
            TokenKind::LessEqual => "<=",
            TokenKind::GreaterThan => ">",
            TokenKind::GreaterEqual => ">=",
            TokenKind::AndAnd => "&&",
            TokenKind::OrOr => "||",
            TokenKind::Bang => "!",
            _ => "/*op*/",
        }
    }

    /// Two spaces per level of indentation.
    pub fn indent_str(&self) -> (r: String)
        requires
            2 * self.indent() < usize::MAX,
        ensures
            r@ == repeat_text("  "@, self.indent() as nat),
    {
        proof {
            reveal_strlit("  ");
        }
        repeat_str("  ", self.indent)
    }

    /// The text without one final line feed, then without one final semicolon.
    pub fn strip_trailing(s: String) -> (r: String)
        ensures
            r@ == strip_trailing_text(s@),
    {
        let mut cs = chars_of(s.as_str());
        if cs.len() > 0 && cs[cs.len() - 1] == '\n' {
            cs.pop();
        }
        if cs.len() > 0 && cs[cs.len() - 1] == ';' {
            cs.pop();
        }
        string_from_chars(cs.as_slice())
    }
}


/// Appends a string literal's text with its special characters escaped.
fn push_escaped(out: &mut Vec<char>, s: &String)
    ensures
        final(out)@ == old(out)@ + escape_text(s@),
{
    let cs = chars_of(s.as_str());
    let mut i: usize = 0;
    while i < cs.len()
        invariant
            i <= cs@.len(),
            cs@ == s@,
            out@ == old(out)@ + escape_text(cs@.take(i as int)),
        decreases cs@.len() - i,
    {
        proof {
            assert(cs@.take(i as int + 1).drop_last() =~= cs@.take(i as int));
        }
        let c = cs[i];
        if c == '\\' {
            out.push('\\');
            out.push('\\');
        } else if c == '"' {
            out.push('\\');
            out.push('"');
        } else if c == '\n' {
            out.push('\\');
            out.push('n');
        } else if c == '\r' {
            out.push('\\');
            out.push('r');
        } else {
            out.push(c);
        }
        i += 1;
        assert(out@ =~= old(out)@ + escape_text(cs@.take(i as int)));
    }
    assert(cs@.take(cs@.len() as int) =~= cs@);
}

/// Appends the text without one final line feed, then without one final semicolon.
fn push_stripped(out: &mut Vec<char>, t: Vec<char>)
    ensures
        final(out)@ == old(out)@ + strip_trailing_text(t@),
{
    let mut t = t;
    if t.len() > 0 && t[t.len() - 1] == '\n' {
        t.pop();
    }
    if t.len() > 0 && t[t.len() - 1] == ';' {
        t.pop();
    }
    out.append(&mut t);
}

/// The function a quantum operation calls.
fn qop_str(op: &TokenKind) -> (r: &'static str)
    ensures
        r@ == qop_name(*op),
{
    match op {
        TokenKind::Superpose => "superpose",
        TokenKind::Entangle => "entangle",
        TokenKind::Measure => "measure",
        TokenKind::Dod => "dod",
        _ => "qop",
    }
}

/// The runtime function a quantum binary operator calls.
fn quantum_fn_str(op: &TokenKind) -> (r: &'static str)
    ensures
        r@ == quantum_fn_name(*op),
{
    match op {
        TokenKind::QuantumXor => "quantumXor",
        TokenKind::QuantumTensor => "quantumTensor",
        TokenKind::SuperpositionState => "quantumSuperposition",
        TokenKind::Entangle => "quantumEntangle",
        _ => "quantumOp",
    }
}

/// The comment after a quantum variable declaration.
fn binding_comment_str(b: QuantumBindingType) -> (r: &'static str)
    ensures
        r@ == binding_comment(b),
{
    match b {
        QuantumBindingType::Classical => "// Classical quantum variable",
        QuantumBindingType::Superposition => "// Superposition quantum variable",
        QuantumBindingType::Tensor => "// Tensor product quantum variable",
        QuantumBindingType::Approximation => "// Quantum approximation variable",
    }
}

/// The comment that marks a function's kind.
fn function_marker_str(f: QuantumFunctionType) -> (r: &'static str)
    ensures
        r@ == function_marker(f),
{
    match f {
        QuantumFunctionType::Quantum => "// ⊙ Quantum Function",
        QuantumFunctionType::Classical => "// ◯ Classical Function",
        QuantumFunctionType::AINeural => "// 🧠 AI Neural Function",
    }
}

/// Appends an optional text after a prefix, or a default.
fn push_comment_or(out: &mut Vec<char>, o: &Option<String>, prefix: &str, default: &str)
    ensures
        final(out)@ == old(out)@ + comment_or(*o, prefix@, default@),
{
    match o {
        Some(t) => {
            push_str_chars(out, prefix);
            push_string_chars(out, t);
        },
        None => push_str_chars(out, default),
    }
}

/// Appends the parameter names separated by `, `.
fn push_params(out: &mut Vec<char>, ps: &Vec<FunctionParam>)
    ensures
        final(out)@ == old(out)@ + param_list(ps@),
{
    let ghost names = ps@.map_values(|p: FunctionParam| p.name@);
    let mut i: usize = 0;
    while i < ps.len()
        invariant
            i <= ps@.len(),
            names == ps@.map_values(|p: FunctionParam| p.name@),
            out@ == old(out)@ + join(names.take(i as int), ", "@),
        decreases ps@.len() - i,
    {
        proof {
            assert(names.take(i as int + 1).drop_last() =~= names.take(i as int));
        }
        if i > 0 {
            push_str_chars(out, ", ");
        }
        push_string_chars(out, &ps[i].name);
        i += 1;
        proof {
            let t = names.take(i as int);
            assert(t.last() == ps@[i - 1].name@);
            if i == 1 {
                assert(t[0] == ps@[0].name@);
            }
        }
        assert(out@ =~= old(out)@ + join(names.take(i as int), ", "@));
    }
    assert(names.take(ps@.len() as int) =~= names);
}


/// Appends the constructor a struct declaration becomes.
fn push_struct(out: &mut Vec<char>, name: &String, fs: &Vec<StructField>)
    ensures
        final(out)@ == old(out)@ + struct_text(name@, fs@),
{
    let ghost names = fs@.map_values(|f: StructField| f.name@);
    let ghost assigns = names.map_values(|n: Seq<char>| "this."@ + n + " = "@ + n + ";"@);
    push_str_chars(out, "function ");
    push_string_chars(out, name);
    push_str_chars(out, "(");
    let ghost o1 = out@;
    let mut i: usize = 0;
    while i < fs.len()
        invariant
            i <= fs@.len(),
            names == fs@.map_values(|f: StructField| f.name@),
            out@ == o1 + join(names.take(i as int), ", "@),
        decreases fs@.len() - i,
    {
        proof {
            assert(names.take(i as int + 1).drop_last() =~= names.take(i as int));
        }
        if i > 0 {
            push_str_chars(out, ", ");
        }
        push_string_chars(out, &fs[i].name);
        i += 1;
        proof {
            let t = names.take(i as int);
            assert(t.last() == fs@[i - 1].name@);
            if i == 1 {
                assert(t[0] == fs@[0].name@);
            }
        }
        assert(out@ =~= o1 + join(names.take(i as int), ", "@));
    }
    assert(names.take(fs@.len() as int) =~= names);
    push_str_chars(out, ") { ");
    let ghost o2 = out@;
    let mut j: usize = 0;
    while j < fs.len()
        invariant
            j <= fs@.len(),
            names == fs@.map_values(|f: StructField| f.name@),
            assigns == names.map_values(|n: Seq<char>| "this."@ + n + " = "@ + n + ";"@),
            out@ == o2 + join(assigns.take(j as int), " "@),
        decreases fs@.len() - j,
    {
        proof {
            assert(assigns.take(j as int + 1).drop_last() =~= assigns.take(j as int));
        }
        if j > 0 {
            push_str_chars(out, " ");
        }
        push_str_chars(out, "this.");
        push_string_chars(out, &fs[j].name);
        push_str_chars(out, " = ");
        push_string_chars(out, &fs[j].name);
        push_str_chars(out, ";");
        j += 1;
        proof {
            let t = assigns.take(j as int);
            assert(t.last() == assigns[j - 1]);
            if j == 1 {
                assert(t[0] == assigns[0]);
            }
        }
        assert(out@ =~= o2 + join(assigns.take(j as int), " "@));
    }
    assert(assigns.take(fs@.len() as int) =~= assigns);
    push_str_chars(out, " }\n");
    assert(out@ =~= old(out)@ + struct_text(name@, fs@));
}

/// Appends the object an enum declaration becomes.
fn push_enum(out: &mut Vec<char>, name: &String, vs: &Vec<String>)
    ensures
        final(out)@ == old(out)@ + enum_text(name@, vs@),
{
    let ghost fields = Seq::new(vs@.len(), |k: int| vs@[k]@ + ": "@ + crate::text::decimal_text(k as nat));
    push_str_chars(out, "const ");
    push_string_chars(out, name);
    push_str_chars(out, " = { ");
    let ghost o1 = out@;
    let mut i: usize = 0;
    while i < vs.len()
        invariant
            i <= vs@.len(),
            fields == Seq::new(vs@.len(), |k: int| vs@[k]@ + ": "@ + crate::text::decimal_text(k as nat)),
            out@ == o1 + join(fields.take(i as int), ", "@),
        decreases vs@.len() - i,
    {
        proof {
            assert(fields.take(i as int + 1).drop_last() =~= fields.take(i as int));
        }
        if i > 0 {
            push_str_chars(out, ", ");
        }
        push_string_chars(out, &vs[i]);
        push_str_chars(out, ": ");
        push_decimal(i as u64, out);
        i += 1;
        proof {
            let t = fields.take(i as int);
            assert(t.last() == fields[i - 1]);
            if i == 1 {
                assert(t[0] == fields[0]);
            }
        }
        assert(out@ =~= o1 + join(fields.take(i as int), ", "@));
    }
    assert(fields.take(vs@.len() as int) =~= fields);
    push_str_chars(out, " };\n");
    assert(out@ =~= old(out)@ + enum_text(name@, vs@));
}

/// Appends the comment lines of a superposition switch's cases.
fn push_case_lines(out: &mut Vec<char>, cs: &Vec<SuperpositionCase>)
    ensures
        final(out)@ == old(out)@ + case_lines(cs@),
{
    let ghost lines = cs@.map_values(
        |c: SuperpositionCase| "// Superposition case: "@ + c.pattern@ + " -> quantum state handling"@,
    );
    let mut i: usize = 0;
    while i < cs.len()
        invariant
            i <= cs@.len(),
            lines == cs@.map_values(
                |c: SuperpositionCase| "// Superposition case: "@ + c.pattern@ + " -> quantum state handling"@,
            ),
            out@ == old(out)@ + join(lines.take(i as int), "\n"@),
        decreases cs@.len() - i,
    {
        proof {
            assert(lines.take(i as int + 1).drop_last() =~= lines.take(i as int));
        }
        if i > 0 {
            push_str_chars(out, "\n");
        }
        push_str_chars(out, "// Superposition case: ");
        push_string_chars(out, &cs[i].pattern);
        push_str_chars(out, " -> quantum state handling");
        i += 1;
        proof {
            let t = lines.take(i as int);
            assert(t.last() == lines[i - 1]);
            if i == 1 {
                assert(t[0] == lines[0]);
            }
        }
        assert(out@ =~= old(out)@ + join(lines.take(i as int), "\n"@));
    }
    assert(lines.take(cs@.len() as int) =~= lines);
}


impl CodeGenerator {
    /// Writes an expression (see `js_expr`) after what `out` holds.
    #[verifier::rlimit(80)]
    #[verifier::spinoff_prover]
    fn write_expr(&mut self, n: &ASTNode, out: &mut Vec<char>)
        requires
            old(self).indent() <= INDENT_CAP,
        ensures
            final(out)@ == old(out)@ + js_expr(*n, old(self).indent() as nat, old(self).helpers()).0,
            final(self).helpers() == js_expr(*n, old(self).indent() as nat, old(self).helpers()).1,
            final(self).indent() == old(self).indent(),
            final(self).backend() == old(self).backend(),
        decreases n, 1int,
    {
        let ghost o0 = out@;
        let ghost h0 = self.helpers;
        let ghost ind = self.indent as nat;
        match n {
            ASTNode::Identifier(t) => push_string_chars(out, t),
            ASTNode::IdentifierSpanned { name, .. } => push_string_chars(out, name),
            ASTNode::NumberLiteral(t) => {
                push_number(out, t);
            },
            ASTNode::StringLiteral(t) => {
                push_str_chars(out, "\"");
                push_escaped(out, t);
                push_str_chars(out, "\"");
            },
            ASTNode::BooleanLiteral(b) => {
                if *b {
                    push_str_chars(out, "true");
                } else {
                    push_str_chars(out, "false");
                }
            },
            ASTNode::BinaryExpr { op, left, right } => {
                push_str_chars(out, "(");
                self.write_expr(&**left, out);
                push_str_chars(out, " ");
                push_str_chars(out, self.op_str(op));
                push_str_chars(out, " ");
                self.write_expr(&**right, out);
                push_str_chars(out, ")");
            },
            ASTNode::UnaryExpr { op, expr } => {
                push_str_chars(out, self.op_str(op));
                self.write_expr(&**expr, out);
            },
            ASTNode::Call { callee, args } => {
                match &**callee {
                    ASTNode::Identifier(name) => match self.map_helper(name.as_str()) {
                        Some(t) => push_string_chars(out, &t),
                        None => push_string_chars(out, name),
                    },
                    ASTNode::IdentifierSpanned { name, .. } => match self.map_helper(name.as_str()) {
                        Some(t) => push_string_chars(out, &t),
                        None => push_string_chars(out, name),
                    },
                    _ => self.write_expr(&**callee, out),
                }
                push_str_chars(out, "(");
                self.write_exprs(args, out);
                push_str_chars(out, ")");
            },
            ASTNode::Assignment { name, value, .. } => {
                push_string_chars(out, name);
                push_str_chars(out, " = ");
                self.write_expr(&**value, out);
            },
            ASTNode::QuantumOp { op, qubits } => {
                push_str_chars(out, qop_str(op));
                push_str_chars(out, "(");
                self.write_exprs(qubits, out);
                push_str_chars(out, ")");
            },
            ASTNode::HieroglyphicOp { symbol, args } => {
                push_str_chars(out, "__glyph('");
                push_string_chars(out, symbol);
                push_str_chars(out, "', ");
                self.write_exprs(args, out);
                push_str_chars(out, ")");
            },
            ASTNode::QuantumState { state, amplitude } => {
                push_str_chars(out, "\"");
                push_string_chars(out, state);
                match amplitude {
                    Some(a) => {
                        push_str_chars(out, "\" /* amplitude: ");
                        push_string_chars(out, a);
                        push_str_chars(out, " */");
                    },
                    None => push_str_chars(out, "\""),
                }
            },
            ASTNode::QuantumBinaryExpr { op, left, right } => {
                push_str_chars(out, "__quantum.");
                push_str_chars(out, quantum_fn_str(op));
                push_str_chars(out, "(");
                self.write_expr(&**left, out);
                push_str_chars(out, ", ");
                self.write_expr(&**right, out);
                push_str_chars(out, ")");
            },
            ASTNode::QuantumIndexAccess { array, index, is_quantum_index } => {
                if *is_quantum_index {
                    push_str_chars(out, "__quantum.quantumIndex(");
                    self.write_expr(&**array, out);
                    push_str_chars(out, ", ");
                    self.write_expr(&**index, out);
                    push_str_chars(out, ")");
                } else {
                    self.write_expr(&**array, out);
                    push_str_chars(out, "[");
                    self.write_expr(&**index, out);
                    push_str_chars(out, "]");
                }
            },
            ASTNode::MethodCall { object, method, args, .. } => {
                self.write_expr(&**object, out);
                push_str_chars(out, ".");
                push_string_chars(out, method);
                push_str_chars(out, "(");
                self.write_exprs(args, out);
                push_str_chars(out, ")");
            },
            ASTNode::FieldAccess { object, field } => {
                self.write_expr(&**object, out);
                push_str_chars(out, ".");
                push_string_chars(out, field);
            },
            ASTNode::ArrayLiteral(es) => {
                push_str_chars(out, "[");
                self.write_exprs(es, out);
                push_str_chars(out, "]");
            },
            ASTNode::If { condition, then_branch, else_branch } => {
                push_str_chars(out, "((() => { if (");
                self.write_expr(&**condition, out);
                push_str_chars(out, ") {\n");
                self.write_returnable(&**then_branch, out);
                push_str_chars(out, "}");
                match else_branch {
                    Some(b) => {
                        push_str_chars(out, " else {\n");
                        self.write_returnable(&**b, out);
                        push_str_chars(out, "}");
                    },
                    None => {},
                }
                push_str_chars(out, " return undefined; })())");
            },
            _ => push_str_chars(out, "undefined"),
        }
        proof {
            assert(out@ =~= o0 + js_expr(*n, ind, h0).0);
        }
    }

    /// Writes expressions separated by `, ` (see `js_exprs`).
    fn write_exprs(&mut self, ns: &Vec<ASTNode>, out: &mut Vec<char>)
        requires
            old(self).indent() <= INDENT_CAP,
        ensures
            final(out)@ == old(out)@ + js_exprs(ns@, old(self).indent() as nat, old(self).helpers()).0,
            final(self).helpers() == js_exprs(ns@, old(self).indent() as nat, old(self).helpers()).1,
            final(self).indent() == old(self).indent(),
            final(self).backend() == old(self).backend(),
        decreases ns, 0int,
    {
        let ghost o0 = out@;
        let ghost h0 = self.helpers;
        let ghost ind = self.indent as nat;
        let ghost b0 = self.backend;
        let mut i: usize = 0;
        while i < ns.len()
            invariant
                i <= ns@.len(),
                self.indent == ind,
                self.indent <= INDENT_CAP,
                self.backend == b0,
                out@ == o0 + js_exprs(ns@.take(i as int), ind, h0).0,
                self.helpers == js_exprs(ns@.take(i as int), ind, h0).1,
            decreases ns@.len() - i,
        {
            proof {
                assert(ns@.take(i as int + 1).drop_last() =~= ns@.take(i as int));
                assert(ns@.take(i as int + 1).last() == ns@[i as int]);
                assert(ns@.take(i as int + 1)[0] == ns@[0]);
            }
            if i > 0 {
                push_str_chars(out, ", ");
            }
            self.write_expr(&ns[i], out);
            i += 1;
            proof {
                assert(out@ =~= o0 + js_exprs(ns@.take(i as int), ind, h0).0);
            }
        }
        assert(ns@.take(ns@.len() as int) =~= ns@);
    }

    /// Writes statements one after another (see `js_stmts`), the first `count` of them.
    fn write_stmts_upto(&mut self, ns: &Vec<ASTNode>, count: usize, out: &mut Vec<char>)
        requires
            old(self).indent() <= INDENT_CAP,
            count <= ns@.len(),
        ensures
            final(out)@ == old(out)@ + js_stmts(ns@.take(count as int), old(self).indent() as nat, old(self).helpers()).0,
            final(self).helpers() == js_stmts(ns@.take(count as int), old(self).indent() as nat, old(self).helpers()).1,
            final(self).indent() == old(self).indent(),
            final(self).backend() == old(self).backend(),
        decreases ns, 0int,
    {
        let ghost o0 = out@;
        let ghost h0 = self.helpers;
        let ghost ind = self.indent as nat;
        let ghost b0 = self.backend;
        let mut i: usize = 0;
        while i < count
            invariant
                i <= count <= ns@.len(),
                self.indent == ind,
                self.indent <= INDENT_CAP,
                self.backend == b0,
                out@ == o0 + js_stmts(ns@.take(i as int), ind, h0).0,
                self.helpers == js_stmts(ns@.take(i as int), ind, h0).1,
            decreases count - i,
        {
            proof {
                assert(ns@.take(i as int + 1).drop_last() =~= ns@.take(i as int));
                assert(ns@.take(i as int + 1).last() == ns@[i as int]);
            }
            self.write_stmt(&ns[i], out);
            i += 1;
            proof {
                assert(out@ =~= o0 + js_stmts(ns@.take(i as int), ind, h0).0);
            }
        }
    }

    /// Writes all the statements one after another (see `js_stmts`).
    fn write_stmts(&mut self, ns: &Vec<ASTNode>, out: &mut Vec<char>)
        requires
            old(self).indent() <= INDENT_CAP,
        ensures
            final(out)@ == old(out)@ + js_stmts(ns@, old(self).indent() as nat, old(self).helpers()).0,
            final(self).helpers() == js_stmts(ns@, old(self).indent() as nat, old(self).helpers()).1,
            final(self).indent() == old(self).indent(),
            final(self).backend() == old(self).backend(),
        decreases ns, 1int,
    {
        self.write_stmts_upto(ns, ns.len(), out);
        assert(ns@.take(ns@.len() as int) =~= ns@);
    }

    /// Writes a branch of an `if` used as an expression (see `js_returnable`).
    fn write_returnable(&mut self, n: &ASTNode, out: &mut Vec<char>)
        requires
            old(self).indent() <= INDENT_CAP,
        ensures
            final(out)@ == old(out)@ + js_returnable(*n, old(self).indent() as nat, old(self).helpers()).0,
            final(self).helpers() == js_returnable(*n, old(self).indent() as nat, old(self).helpers()).1,
            final(self).indent() == old(self).indent(),
            final(self).backend() == old(self).backend(),
        decreases n, 2int,
    {
        let ghost o0 = out@;
        let ghost h0 = self.helpers;
        let ghost ind = self.indent as nat;
        match n {
            ASTNode::Block(stmts) => {
                if stmts.len() > 0 {
                    let last = stmts.len() - 1;
                    self.write_stmts_upto(stmts, last, out);
                    assert(stmts@.take(last as int) =~= stmts@.drop_last());
                    push_str_chars(out, "return (");
                    self.write_expr(&stmts[last], out);
                    push_str_chars(out, ");\n");
                } else {
                    push_str_chars(out, "return (");
                    self.write_expr(n, out);
                    push_str_chars(out, ");\n");
                }
            },
            _ => {
                push_str_chars(out, "return (");
                self.write_expr(n, out);
                push_str_chars(out, ");\n");
            },
        }
        proof {
            assert(out@ =~= o0 + js_returnable(*n, ind, h0).0);
        }
    }
}


impl CodeGenerator {
    /// Writes a block of statements opened at the current indentation (see `js_block`).
    fn write_block(&mut self, ns: &Vec<ASTNode>, out: &mut Vec<char>)
        requires
            old(self).indent() <= INDENT_CAP,
        ensures
            final(out)@ == old(out)@ + js_block(ns@, old(self).indent() as nat, old(self).helpers()).0,
            final(self).helpers() == js_block(ns@, old(self).indent() as nat, old(self).helpers()).1,
            final(self).indent() == old(self).indent(),
            final(self).backend() == old(self).backend(),
        decreases ns, 1int,
    {
        let ghost o0 = out@;
        let ghost h0 = self.helpers;
        let ghost b0 = self.backend;
        let saved = self.indent;
        self.indent = if saved < INDENT_CAP { saved + 1 } else { saved };
        let ghost ind2 = self.indent as nat;
        assert(ind2 == next_indent(saved as nat));
        let start = out.len();
        push_str_chars(out, "{\n");
        proof {
            reveal_strlit("{\n");
            assert(ns@.take(0) =~= Seq::<ASTNode>::empty());
        }
        let mut i: usize = 0;
        while i < ns.len()
            invariant
                i <= ns@.len(),
                self.indent == ind2,
                self.indent <= INDENT_CAP,
                self.backend == b0,
                start == o0.len(),
                out@ == o0 + js_block_lines(ns@.take(i as int), ind2, h0).0,
                self.helpers == js_block_lines(ns@.take(i as int), ind2, h0).1,
            decreases ns@.len() - i,
        {
            proof {
                assert(ns@.take(i as int + 1).drop_last() =~= ns@.take(i as int));
                assert(ns@.take(i as int + 1).last() == ns@[i as int]);
            }
            let ghost a = js_block_lines(ns@.take(i as int), ind2, h0).0;
            let p = self.indent_str();
            push_string_chars(out, &p);
            let ghost hb = self.helpers;
            self.write_stmt(&ns[i], out);
            let ghost x = a + pad(ind2) + js_stmt(ns@[i as int], ind2, hb).0;
            assert(out@ =~= o0 + x);
            proof {
                reveal_strlit("\n");
            }
            let ends = out.len() > start && out[out.len() - 1] == '\n';
            proof {
                if x.len() > 0 {
                    assert(out@[out@.len() - 1] == x[x.len() - 1]);
                }
                assert(ends == ends_nl(x));
            }
            if !ends {
                out.push('\n');
            }
            proof {
                assert(out@ =~= o0 + with_nl(x));
            }
            i += 1;
        }
        assert(ns@.take(ns@.len() as int) =~= ns@);
        self.indent = saved;
        push_str_chars(out, "}\n");
    }

    /// Writes a program: the prelude of the helpers its statements need, then the
    /// statements, each ending with a line feed; the helpers are left as they were.
    fn write_program(&mut self, items: &Vec<ASTNode>, out: &mut Vec<char>)
        requires
            old(self).indent() <= INDENT_CAP,
        ensures
            final(out)@ == old(out)@ + prelude_text(js_program_body(items@, old(self).indent() as nat, no_helpers()).1)
                + js_program_body(items@, old(self).indent() as nat, no_helpers()).0,
            final(self).helpers() == old(self).helpers(),
            final(self).indent() == old(self).indent(),
            final(self).backend() == old(self).backend(),
        decreases items, 1int,
    {
        let ghost ind = self.indent as nat;
        let ghost b0 = self.backend;
        let saved = self.helpers;
        self.helpers = HelperSet { len: false, quantum_runtime: false, glyph_runtime: false };
        let mut body: Vec<char> = Vec::new();
        let mut i: usize = 0;
        while i < items.len()
            invariant
                i <= items@.len(),
                self.indent == ind,
                self.indent <= INDENT_CAP,
                self.backend == b0,
                body@ == js_program_body(items@.take(i as int), ind, no_helpers()).0,
                self.helpers == js_program_body(items@.take(i as int), ind, no_helpers()).1,
            decreases items@.len() - i,
        {
            proof {
                assert(items@.take(i as int + 1).drop_last() =~= items@.take(i as int));
                assert(items@.take(i as int + 1).last() == items@[i as int]);
            }
            let ghost a = body@;
            let ghost hb = self.helpers;
            self.write_stmt(&items[i], &mut body);
            let ghost x = a + js_stmt(items@[i as int], ind, hb).0;
            assert(body@ =~= x);
            proof {
                reveal_strlit("\n");
            }
            if !(body.len() > 0 && body[body.len() - 1] == '\n') {
                body.push('\n');
            }
            assert(body@ =~= with_nl(x));
            i += 1;
            proof {
                assert(body@ =~= js_program_body(items@.take(i as int), ind, no_helpers()).0);
            }
        }
        assert(items@.take(items@.len() as int) =~= items@);
        let needed = self.helpers;
        let ghost o1 = out@;
        if needed.len || needed.quantum_runtime || needed.glyph_runtime {
            let r = Self::render_helpers(needed);
            let start = out.len();
            push_string_chars(out, &r);
            let ends = out.len() > start && out[out.len() - 1] == '\n';
            proof {
                reveal_strlit("\n");
                if r@.len() > 0 {
                    assert(out@[out@.len() - 1] == r@[r@.len() - 1]);
                }
                assert(ends == ends_nl(r@));
            }
            if !ends {
                out.push('\n');
            }
            proof {
                assert(out@ =~= o1 + with_nl(r@));
            }
        }
        assert(out@ =~= o1 + prelude_text(needed));
        out.append(&mut body);
        self.helpers = saved;
    }

    /// Writes a statement as the body of `if`, `while` or `for` (see `js_wrap`).
    fn write_wrap(&mut self, n: &ASTNode, out: &mut Vec<char>)
        requires
            old(self).indent() <= INDENT_CAP,
        ensures
            final(out)@ == old(out)@ + js_wrap(*n, old(self).indent() as nat, old(self).helpers()).0,
            final(self).helpers() == js_wrap(*n, old(self).indent() as nat, old(self).helpers()).1,
            final(self).indent() == old(self).indent(),
            final(self).backend() == old(self).backend(),
        decreases n, 6int,
    {
        let ghost o0 = out@;
        let ghost h0 = self.helpers;
        let ghost ind = self.indent as nat;
        match n {
            ASTNode::Block(_) => {
                let mut t: Vec<char> = Vec::new();
                self.write_stmt(n, &mut t);
                if t.len() > 0 && t[t.len() - 1] == '\n' {
                    t.pop();
                }
                out.append(&mut t);
            },
            _ => {
                let saved = self.indent;
                self.indent = if saved < INDENT_CAP { saved + 1 } else { saved };
                push_str_chars(out, "{\n");
                let p = self.indent_str();
                push_string_chars(out, &p);
                self.write_stmt(n, out);
                self.indent = saved;
                push_str_chars(out, "}");
            },
        }
        proof {
            assert(out@ =~= o0 + js_wrap(*n, ind, h0).0);
        }
    }

    /// Writes the condition a `match` pattern tests (see `pattern_text`).
    fn write_pattern(&mut self, p: &ASTNode, out: &mut Vec<char>)
        requires
            old(self).indent() <= INDENT_CAP,
        ensures
            final(out)@ == old(out)@ + pattern_text(*p, old(self).indent() as nat, old(self).helpers()).0,
            final(self).helpers() == pattern_text(*p, old(self).indent() as nat, old(self).helpers()).1,
            final(self).indent() == old(self).indent(),
            final(self).backend() == old(self).backend(),
        decreases p, 2int,
    {
        if is_name_node(p) {
            push_str_chars(out, "true");
        } else {
            let ghost o0 = out@;
            push_str_chars(out, "(__match_val === ");
            self.write_expr(p, out);
            push_str_chars(out, ")");
        }
    }

    /// Writes one arm of a `match` (see `arm_text`).
    fn write_arm(&mut self, arm: &MatchArm, first: bool, out: &mut Vec<char>)
        requires
            old(self).indent() <= INDENT_CAP,
        ensures
            final(out)@ == old(out)@ + arm_text(*arm, first, old(self).indent() as nat, old(self).helpers()).0,
            final(self).helpers() == arm_text(*arm, first, old(self).indent() as nat, old(self).helpers()).1,
            final(self).indent() == old(self).indent(),
            final(self).backend() == old(self).backend(),
        decreases arm, 0int,
    {
        let ghost o0 = out@;
        let ghost h0 = self.helpers;
        let ghost ind = self.indent as nat;
        if first {
            push_str_chars(out, "if (");
        } else {
            push_str_chars(out, "else if (");
        }
        let ghost o1 = out@;
        match &arm.guard {
            Some(g) => {
                push_str_chars(out, "(");
                self.write_pattern(&arm.pattern, out);
                push_str_chars(out, " && ");
                self.write_expr(g, out);
                push_str_chars(out, ")");
            },
            None => self.write_pattern(&arm.pattern, out),
        }
        let ghost hc = self.helpers;
        let ghost c = out@.subrange(o1.len() as int, out@.len() as int);
        push_str_chars(out, ") ");
        self.write_wrap(&arm.body, out);
        push_str_chars(out, "\n");
        proof {
            let ww = js_wrap(arm.body, ind, hc);
            assert(out@ =~= o1 + c + ") "@ + ww.0 + "\n"@);
            assert(out@ =~= o0 + arm_text(*arm, first, ind, h0).0);
        }
    }

    /// Writes the arms of a `match` as a chain of `if` / `else if` (see `js_arms`).
    #[verifier::rlimit(100)]
    #[verifier::spinoff_prover]
    fn write_arms(&mut self, arms: &Vec<MatchArm>, out: &mut Vec<char>)
        requires
            old(self).indent() <= INDENT_CAP,
        ensures
            final(out)@ == old(out)@ + js_arms(arms@, old(self).indent() as nat, old(self).helpers()).0,
            final(self).helpers() == js_arms(arms@, old(self).indent() as nat, old(self).helpers()).1,
            final(self).indent() == old(self).indent(),
            final(self).backend() == old(self).backend(),
        decreases arms, 0int,
    {
        let ghost o0 = out@;
        let ghost h0 = self.helpers;
        let ghost ind = self.indent as nat;
        let ghost b0 = self.backend;
        let mut i: usize = 0;
        while i < arms.len()
            invariant
                i <= arms@.len(),
                self.indent == ind,
                self.indent <= INDENT_CAP,
                self.backend == b0,
                out@ == o0 + js_arms(arms@.take(i as int), ind, h0).0,
                self.helpers == js_arms(arms@.take(i as int), ind, h0).1,
            decreases arms@.len() - i,
        {
            proof {
                assert(arms@.take(i as int + 1).drop_last() =~= arms@.take(i as int));
                assert(arms@.take(i as int + 1).last() == arms@[i as int]);
            }
            let ghost hi = self.helpers;
            let ghost oi = out@;
            self.write_arm(&arms[i], i == 0, out);
            proof {
                let t = arms@.take(i as int + 1);
                assert(t.len() == i + 1);
                let prev = js_arms(arms@.take(i as int), ind, h0);
                let at = arm_text(arms@[i as int], i == 0, ind, hi);
                assert(js_arms(t, ind, h0) == (prev.0 + at.0, at.1));
            }
            i += 1;
            proof {
                assert(out@ =~= o0 + js_arms(arms@.take(i as int), ind, h0).0);
            }
        }
        assert(arms@.take(arms@.len() as int) =~= arms@);
    }

    /// Writes the methods of an `impl` block as functions (see `js_impl_methods`).
    fn write_impl_methods(&mut self, target: &String, ms: &Vec<ASTNode>, out: &mut Vec<char>)
        requires
            old(self).indent() <= INDENT_CAP,
        ensures
            final(out)@ == old(out)@ + js_impl_methods(target@, ms@, old(self).indent() as nat, old(self).helpers()).0,
            final(self).helpers() == js_impl_methods(target@, ms@, old(self).indent() as nat, old(self).helpers()).1,
            final(self).indent() == old(self).indent(),
            final(self).backend() == old(self).backend(),
        decreases ms, 0int,
    {
        let ghost o0 = out@;
        let ghost h0 = self.helpers;
        let ghost ind = self.indent as nat;
        let ghost b0 = self.backend;
        let mut i: usize = 0;
        while i < ms.len()
            invariant
                i <= ms@.len(),
                self.indent == ind,
                self.indent <= INDENT_CAP,
                self.backend == b0,
                out@ == o0 + js_impl_methods(target@, ms@.take(i as int), ind, h0).0,
                self.helpers == js_impl_methods(target@, ms@.take(i as int), ind, h0).1,
            decreases ms@.len() - i,
        {
            proof {
                assert(ms@.take(i as int + 1).drop_last() =~= ms@.take(i as int));
                assert(ms@.take(i as int + 1).last() == ms@[i as int]);
            }
            match &ms[i] {
                ASTNode::Function { name, params, body, .. } => {
                    push_str_chars(out, "function ");
                    push_string_chars(out, target);
                    push_str_chars(out, "_");
                    push_string_chars(out, name);
                    push_str_chars(out, "(");
                    push_params(out, params);
                    push_str_chars(out, ") {\n");
                    self.write_stmts(body, out);
                    push_str_chars(out, "}\n");
                },
                _ => {},
            }
            i += 1;
            proof {
                assert(out@ =~= o0 + js_impl_methods(target@, ms@.take(i as int), ind, h0).0);
            }
        }
        assert(ms@.take(ms@.len() as int) =~= ms@);
    }
}


impl CodeGenerator {
    /// Writes a statement (see `js_stmt`) after what `out` holds.
    #[verifier::rlimit(100)]
    #[verifier::spinoff_prover]
    fn write_stmt(&mut self, n: &ASTNode, out: &mut Vec<char>)
        requires
            old(self).indent() <= INDENT_CAP,
        ensures
            final(out)@ == old(out)@ + js_stmt(*n, old(self).indent() as nat, old(self).helpers()).0,
            final(self).helpers() == js_stmt(*n, old(self).indent() as nat, old(self).helpers()).1,
            final(self).indent() == old(self).indent(),
            final(self).backend() == old(self).backend(),
        decreases n, 5int,
    {
        let ghost o0 = out@;
        let ghost h0 = self.helpers;
        let ghost ind = self.indent as nat;
        match n {
            ASTNode::Program(items) => self.write_program(items, out),
            ASTNode::Block(items) => self.write_block(items, out),
            ASTNode::VariableDecl { name, value, .. } => {
                push_str_chars(out, "let ");
                push_string_chars(out, name);
                push_str_chars(out, " = ");
                self.write_expr(&**value, out);
                push_str_chars(out, ";\n");
            },
            ASTNode::Function { name, params, body, .. } => {
                push_str_chars(out, "function ");
                push_string_chars(out, name);
                push_str_chars(out, "(");
                push_params(out, params);
                push_str_chars(out, ") ");
                self.write_block(body, out);
            },
            ASTNode::Return(e) => {
                push_str_chars(out, "return ");
                self.write_expr(&**e, out);
                push_str_chars(out, ";\n");
            },
            ASTNode::Log(e) => {
                push_str_chars(out, "console.log(");
                self.write_expr(&**e, out);
                push_str_chars(out, ");\n");
            },
            ASTNode::Assignment { name, value, .. } => {
                push_string_chars(out, name);
                push_str_chars(out, " = ");
                self.write_expr(&**value, out);
                push_str_chars(out, ";\n");
            },
            ASTNode::Call { .. } => {
                self.write_expr(n, out);
                push_str_chars(out, ";\n");
            },
            ASTNode::If { condition, then_branch, else_branch } => {
                push_str_chars(out, "if (");
                self.write_expr(&**condition, out);
                push_str_chars(out, ") ");
                self.write_wrap(&**then_branch, out);
                match else_branch {
                    Some(b) => {
                        push_str_chars(out, " else ");
                        self.write_wrap(&**b, out);
                    },
                    None => {},
                }
                push_str_chars(out, "\n");
            },
            ASTNode::While { condition, body } => {
                push_str_chars(out, "while (");
                self.write_expr(&**condition, out);
                push_str_chars(out, ") ");
                self.write_wrap(&**body, out);
                push_str_chars(out, "\n");
            },
            ASTNode::For { init, condition, increment, body } => {
                push_str_chars(out, "for (");
                match init {
                    Some(x) => {
                        let mut t: Vec<char> = Vec::new();
                        self.write_stmt(&**x, &mut t);
                        push_stripped(out, t);
                    },
                    None => {},
                }
                push_str_chars(out, "; ");
                match condition {
                    Some(x) => self.write_expr(&**x, out),
                    None => {},
                }
                push_str_chars(out, "; ");
                match increment {
                    Some(x) => {
                        let mut t: Vec<char> = Vec::new();
                        self.write_stmt(&**x, &mut t);
                        push_stripped(out, t);
                    },
                    None => {},
                }
                push_str_chars(out, ") ");
                self.write_wrap(&**body, out);
                push_str_chars(out, "\n");
            },
            ASTNode::ForIn { binding, iterable, body } => {
                push_str_chars(out, "for (const ");
                push_string_chars(out, &binding.name);
                push_str_chars(out, " of ");
                self.write_expr(&**iterable, out);
                push_str_chars(out, ") ");
                self.write_wrap(&**body, out);
                push_str_chars(out, "\n");
            },
            ASTNode::BinaryExpr { .. } | ASTNode::UnaryExpr { .. } | ASTNode::Identifier(_)
            | ASTNode::IdentifierSpanned { .. } | ASTNode::NumberLiteral(_) | ASTNode::StringLiteral(_)
            | ASTNode::BooleanLiteral(_) => {
                self.write_expr(n, out);
                push_str_chars(out, ";\n");
            },
            _ => self.write_stmt_more(n, out),
        }
        proof {
            assert(out@ =~= o0 + js_stmt(*n, ind, h0).0);
        }
    }

    /// Writes the statements `write_stmt` hands on: quantum, declaration and
    /// expression statements.
    #[verifier::rlimit(80)]
    #[verifier::spinoff_prover]
    fn write_stmt_more(&mut self, n: &ASTNode, out: &mut Vec<char>)
        requires
            old(self).indent() <= INDENT_CAP,
        ensures
            final(out)@ == old(out)@ + js_stmt_more(*n, old(self).indent() as nat, old(self).helpers()).0,
            final(self).helpers() == js_stmt_more(*n, old(self).indent() as nat, old(self).helpers()).1,
            final(self).indent() == old(self).indent(),
            final(self).backend() == old(self).backend(),
        decreases n, 4int,
    {
        let ghost o0 = out@;
        let ghost h0 = self.helpers;
        let ghost ind = self.indent as nat;
        match n {
            ASTNode::QuantumOp { op, qubits } => {
                self.helpers.quantum_runtime = true;
                push_str_chars(out, qop_str(op));
                push_str_chars(out, "(");
                self.write_exprs(qubits, out);
                push_str_chars(out, ");\n");
            },
            ASTNode::QuantumVariableDecl { name, binding_type, value, .. } => {
                push_str_chars(out, "let ");
                push_string_chars(out, name);
                push_str_chars(out, " = ");
                self.write_expr(&**value, out);
                push_str_chars(out, "; ");
                push_str_chars(out, binding_comment_str(*binding_type));
                push_str_chars(out, "\n");
            },
            ASTNode::HieroglyphicOp { symbol, args } => {
                push_str_chars(out, "__glyph('");
                push_string_chars(out, symbol);
                push_str_chars(out, "', ");
                self.write_exprs(args, out);
                push_str_chars(out, ");\n");
            },
            ASTNode::Error(msg) => {
                push_str_chars(out, "/* ERROR NODE: ");
                push_string_chars(out, msg);
                push_str_chars(out, " */\n");
            },
            ASTNode::QuantumBinaryExpr { op, left, right } => {
                push_str_chars(out, "__quantum.");
                push_str_chars(out, quantum_fn_str(op));
                push_str_chars(out, "(");
                self.write_expr(&**left, out);
                push_str_chars(out, ", ");
                self.write_expr(&**right, out);
                push_str_chars(out, ");\n");
            },
            ASTNode::QuantumIndexAccess { array, index, is_quantum_index } => {
                if *is_quantum_index {
                    push_str_chars(out, "__quantum.quantumIndex(");
                    self.write_expr(&**array, out);
                    push_str_chars(out, ", ");
                    self.write_expr(&**index, out);
                    push_str_chars(out, ")\n");
                } else {
                    self.write_expr(&**array, out);
                    push_str_chars(out, "[");
                    self.write_expr(&**index, out);
                    push_str_chars(out, "]\n");
                }
            },
            ASTNode::QuantumFunction { func_type, name, params, body, .. } => {
                push_str_chars(out, "function ");
                push_string_chars(out, name);
                push_str_chars(out, "(");
                push_params(out, params);
                push_str_chars(out, ") { ");
                push_str_chars(out, function_marker_str(*func_type));
                push_str_chars(out, "\n");
                self.write_stmts(body, out);
                push_str_chars(out, "}\n");
            },
            ASTNode::ProbabilityBranch { condition, probability, then_branch, else_branch } => {
                push_str_chars(out, "if (__quantum.evaluate(");
                self.write_expr(&**condition, out);
                push_str_chars(out, ")) { ");
                push_comment_or(out, probability, "// Probability: ", "// Quantum probability");
                push_str_chars(out, "\n");
                self.write_stmt(&**then_branch, out);
                match else_branch {
                    Some(e) => {
                        push_str_chars(out, "\n} else { ");
                        push_comment_or(out, probability, "// Probability: ", "// Quantum probability");
                        push_str_chars(out, "\n");
                        self.write_stmt(&**e, out);
                        push_str_chars(out, "\n}\n");
                    },
                    None => push_str_chars(out, "\n}\n"),
                }
            },
            ASTNode::QuantumLoop { condition, body, decoherence_threshold } => {
                push_str_chars(out, "while (__quantum.evaluateLoop(");
                self.write_expr(&**condition, out);
                push_str_chars(out, ")) { ");
                push_comment_or(
                    out,
                    decoherence_threshold,
                    "// Decoherence threshold: ",
                    "// Quantum loop with decoherence protection",
                );
                push_str_chars(out, "\n");
                self.write_stmt(&**body, out);
                push_str_chars(out, "\n}\n");
            },
            ASTNode::SuperpositionSwitch { value, cases } => {
                push_str_chars(out, "__quantum.superpositionSwitch(");
                self.write_expr(&**value, out);
                push_str_chars(out, ") {\n");
                push_case_lines(out, cases);
                push_str_chars(out, "\n}\n");
            },
            ASTNode::QuantumTryCatch { attempt_body, error_probability, catch_body, .. } => {
                let mut a: Vec<char> = Vec::new();
                self.write_stmts(attempt_body, &mut a);
                push_str_chars(out, "try { ");
                push_comment_or(out, error_probability, "// Error probability: ", "// Quantum error correction");
                push_str_chars(out, "\n");
                out.append(&mut a);
                push_str_chars(out, "\n} catch (quantum_error) { ");
                push_comment_or(out, error_probability, "// Error probability: ", "// Quantum error correction");
                push_str_chars(out, "\n");
                match catch_body {
                    Some(cs) => self.write_stmts(cs, out),
                    None => push_str_chars(out, "// Default quantum error handling\n"),
                }
                push_str_chars(out, "\n}\n");
            },
            ASTNode::AILearningBlock { data_binding, model_binding, body } => {
                let mut b: Vec<char> = Vec::new();
                self.write_stmts(body, &mut b);
                push_str_chars(out, "// AI Learning Block\n");
                push_comment_or(out, data_binding, "// Data binding: ", "// No data binding specified");
                push_str_chars(out, "\n");
                push_comment_or(out, model_binding, "// Model binding: ", "// No model binding specified");
                push_str_chars(out, "\n__quantum.aiLearningBlock(() => {\n");
                out.append(&mut b);
                push_str_chars(out, "\n});\n");
            },
            ASTNode::TimeBlock { duration, body } => {
                push_str_chars(out, "__time.block(");
                match duration {
                    Some(d) => self.write_expr(&**d, out),
                    None => push_str_chars(out, "auto"),
                }
                push_str_chars(out, ") { ");
                self.write_stmts(body, out);
                push_str_chars(out, "\n}\n");
            },
            ASTNode::StructDecl { name, fields, .. } => push_struct(out, name, fields),
            ASTNode::EnumDecl { name, variants, .. } => push_enum(out, name, variants),
            ASTNode::ImplBlock { type_ident, methods, .. } => self.write_impl_methods(type_ident, methods, out),
            ASTNode::MatchExpr { value, arms, .. } => {
                push_str_chars(out, "let __match_val = ");
                self.write_expr(&**value, out);
                push_str_chars(out, ";\n");
                self.write_arms(arms, out);
            },
            ASTNode::MethodCall { object, method, args, .. } => {
                self.write_expr(&**object, out);
                push_str_chars(out, ".");
                push_string_chars(out, method);
                push_str_chars(out, "(");
                self.write_exprs(args, out);
                push_str_chars(out, ");\n");
            },
            ASTNode::FieldAccess { object, field } => {
                self.write_expr(&**object, out);
                push_str_chars(out, ".");
                push_string_chars(out, field);
                push_str_chars(out, ";\n");
            },
            ASTNode::ArrayLiteral(es) => {
                push_str_chars(out, "[");
                self.write_exprs(es, out);
                push_str_chars(out, "];\n");
            },
            _ => {},
        }
        proof {
            assert(out@ =~= o0 + js_stmt_more(*n, ind, h0).0);
        }
    }
}


/// Whether a node is a name.
fn is_name_node(p: &ASTNode) -> (r: bool)
    ensures
        r == (p is Identifier || p is IdentifierSpanned),
{
    match p {
        ASTNode::Identifier(_) => true,
        ASTNode::IdentifierSpanned { .. } => true,
        _ => false,
    }
}


impl CodeGenerator {
    /// The JavaScript of a statement at the current indentation (see `js_stmt`);
    /// the helpers it needs are added to those recorded.
    pub fn emit_js(&mut self, node: &ASTNode) -> (r: String)
        requires
            old(self).indent() <= INDENT_CAP,
        ensures
            r@ == js_stmt(*node, old(self).indent() as nat, old(self).helpers()).0,
            final(self).helpers() == js_stmt(*node, old(self).indent() as nat, old(self).helpers()).1,
            final(self).indent() == old(self).indent(),
            final(self).backend() == old(self).backend(),
    {
        let mut out: Vec<char> = Vec::new();
        self.write_stmt(node, &mut out);
        string_from_chars(out.as_slice())
    }

    /// The JavaScript of an expression (see `js_expr`); the helpers it needs are
    /// added to those recorded.
    pub fn emit_expr_js(&mut self, node: &ASTNode) -> (r: String)
        requires
            old(self).indent() <= INDENT_CAP,
        ensures
            r@ == js_expr(*node, old(self).indent() as nat, old(self).helpers()).0,
            final(self).helpers() == js_expr(*node, old(self).indent() as nat, old(self).helpers()).1,
            final(self).indent() == old(self).indent(),
            final(self).backend() == old(self).backend(),
    {
        let mut out: Vec<char> = Vec::new();
        self.write_expr(node, &mut out);
        string_from_chars(out.as_slice())
    }

    /// A statement as the body of `if`, `while` or `for`, without a final line feed
    /// (see `js_wrap`).
    pub fn wrap_stmt_js(&mut self, n: &ASTNode) -> (r: String)
        requires
            old(self).indent() <= INDENT_CAP,
        ensures
            r@ == js_wrap(*n, old(self).indent() as nat, old(self).helpers()).0,
            final(self).helpers() == js_wrap(*n, old(self).indent() as nat, old(self).helpers()).1,
            final(self).indent() == old(self).indent(),
            final(self).backend() == old(self).backend(),
    {
        let mut out: Vec<char> = Vec::new();
        self.write_wrap(n, &mut out);
        string_from_chars(out.as_slice())
    }

    /// Generates code for a syntax tree with the given back end: JavaScript (see
    /// `js_stmt`), or an error for the canonical `.ai` form, which this library does
    /// not write.
    pub fn generate_with_backend(&mut self, ast: &ASTNode, backend: Backend) -> (r: Result<String, String>)
        requires
            old(self).indent() <= INDENT_CAP,
        ensures
            backend == Backend::Js ==> (r matches Ok(s) && s@ == js_stmt(*ast, old(self).indent() as nat, old(self).helpers()).0
                && final(self).helpers() == js_stmt(*ast, old(self).indent() as nat, old(self).helpers()).1),
            backend == Backend::Ai ==> (r is Err && final(self).helpers() == old(self).helpers()),
            final(self).indent() == old(self).indent(),
            final(self).backend() == old(self).backend(),
    {
        match backend {
            Backend::Js => Ok(self.emit_js(ast)),
            Backend::Ai => Err(String::from_str("AiEmitter error: no emitter for the canonical .ai form")),
        }
    }

    /// Generates code for a syntax tree with the generator's own back end.
    pub fn generate(&mut self, ast: &ASTNode) -> (r: Result<String, String>)
        requires
            old(self).indent() <= INDENT_CAP,
        ensures
            old(self).backend() == Backend::Js ==> (r matches Ok(s) && s@ == js_stmt(
                *ast,
                old(self).indent() as nat,
                old(self).helpers(),
            ).0),
            old(self).backend() == Backend::Js ==> final(self).helpers() == js_stmt(
                *ast,
                old(self).indent() as nat,
                old(self).helpers(),
            ).1,
            old(self).backend() == Backend::Ai ==> (r is Err && final(self).helpers() == old(self).helpers()),
            final(self).indent() == old(self).indent(),
            final(self).backend() == old(self).backend(),
    {
        let b = self.backend;
        self.generate_with_backend(ast, b)
    }
}


} // verus!
