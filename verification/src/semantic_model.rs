//! The mathematical model of semantic analysis: types, symbol tables and the
//! analyzer's state as plain values, and what each step of the analysis does to
//! that state.

use vstd::prelude::*;
use crate::ast::{ASTNode, FunctionParam, MatchArm, StructField};
use crate::enhanced_error::ErrorKind;
use crate::enhanced_semantic::{DiagnosticCategory, DiagnosticSeverity};
use crate::token::TokenKind;

verus! {

/// A type of the language, with names as character sequences.
pub enum TypeView {
    Number,
    Str,
    Boolean,
    Void,
    Array(Box<TypeView>),
    Object(Seq<(Seq<char>, TypeView)>),
    Function { params: Seq<TypeView>, return_type: Box<TypeView> },
    Qubit,
    QuantumArray(Box<TypeView>),
    QuantumState,
    Struct(Seq<char>),
    Class(Seq<char>),
    Trait(Seq<char>),
    Unknown,
    Any,
}

/// How a type is written in messages.
pub open spec fn type_text(t: TypeView) -> Seq<char>
    decreases t, 0int,
{
    match t {
        TypeView::Number => "number"@,
        TypeView::Str => "string"@,
        TypeView::Boolean => "boolean"@,
        TypeView::Void => "void"@,
        TypeView::Array(inner) => "array<"@ + type_text(*inner) + ">"@,
        TypeView::Object(_) => "object"@,
        TypeView::Function { params, return_type } => "function("@ + params_text(params) + ") -> "@
            + type_text(*return_type),
        TypeView::Qubit => "qubit"@,
        TypeView::QuantumArray(inner) => "quantum_array<"@ + type_text(*inner) + ">"@,
        TypeView::QuantumState => "quantum_state"@,
        TypeView::Struct(n) => "struct "@ + n,
        TypeView::Class(n) => "class "@ + n,
        TypeView::Trait(n) => "trait "@ + n,
        TypeView::Unknown => "unknown"@,
        TypeView::Any => "any"@,
    }
}

/// Parameter types separated by `, `.
pub open spec fn params_text(ps: Seq<TypeView>) -> Seq<char>
    decreases ps, 1int,
{
    if ps.len() == 0 {
        Seq::empty()
    } else if ps.len() == 1 {
        type_text(ps[0])
    } else {
        params_text(ps.drop_last()) + ", "@ + type_text(ps[ps.len() - 1])
    }
}

/// Two types are compatible when either is unknown or `any`, or they are equal.
pub open spec fn compatible(actual: TypeView, expected: TypeView) -> bool {
    actual is Unknown || expected is Unknown || actual is Any || expected is Any || actual == expected
}

/// The kind of a scope, with names as character sequences.
pub enum ScopeKind {
    Global,
    Function(Seq<char>),
    Block,
    Class(Seq<char>),
    Struct(Seq<char>),
    Trait(Seq<char>),
    ImplBlock(Option<Seq<char>>, Seq<char>),
}

/// A declared symbol.
pub struct SymbolView {
    pub name: Seq<char>,
    pub ty: TypeView,
    pub line: usize,
    pub column: usize,
    pub is_mutable: bool,
    pub is_used: bool,
    pub scope_depth: usize,
}

/// A scope: its symbols in declaration order (each name once), its kind, its parent.
pub struct ScopeView {
    pub symbols: Seq<SymbolView>,
    pub kind: ScopeKind,
    pub parent: Option<usize>,
}

/// A reported diagnostic.
pub struct DiagView {
    pub message: Seq<char>,
    pub kind: ErrorKind,
    pub file: Seq<char>,
    pub line: usize,
    pub column: usize,
    pub length: usize,
    pub suggestion: Option<Seq<char>>,
    pub severity: DiagnosticSeverity,
    pub category: DiagnosticCategory,
}

/// The state of an analyzer.
pub struct AView {
    pub scopes: Seq<ScopeView>,
    pub diagnostics: Seq<DiagView>,
    pub file: Seq<char>,
    pub user_types: Seq<(Seq<char>, TypeView)>,
    pub signatures: Seq<(Seq<char>, TypeView)>,
    pub current_function: Option<Seq<char>>,
    pub has_return: bool,
}

/// The byte length of a name, as `str::len` gives it.
pub open spec fn byte_len(s: Seq<char>) -> usize {
    vstd::utf8::encode_utf8(s).len() as usize
}

// ---------------------------------------------------------------------------
// Symbol lists and keyed entries

pub open spec fn names_unique(syms: Seq<SymbolView>) -> bool {
    forall|i: int, j: int| 0 <= i < j < syms.len() ==> #[trigger] syms[i].name != #[trigger] syms[j].name
}

pub open spec fn has_symbol(syms: Seq<SymbolView>, name: Seq<char>) -> bool {
    exists|i: int| 0 <= i < syms.len() && #[trigger] syms[i].name == name
}

pub open spec fn symbol_index(syms: Seq<SymbolView>, name: Seq<char>) -> int {
    choose|i: int| 0 <= i < syms.len() && #[trigger] syms[i].name == name
}

/// Declaring a symbol replaces one of the same name, else appends it.
pub open spec fn insert_symbol(syms: Seq<SymbolView>, s: SymbolView) -> Seq<SymbolView> {
    if has_symbol(syms, s.name) {
        syms.update(symbol_index(syms, s.name), s)
    } else {
        syms.push(s)
    }
}

pub open spec fn keys_unique(es: Seq<(Seq<char>, TypeView)>) -> bool {
    forall|i: int, j: int| 0 <= i < j < es.len() ==> #[trigger] es[i].0 != #[trigger] es[j].0
}

pub open spec fn has_key(es: Seq<(Seq<char>, TypeView)>, k: Seq<char>) -> bool {
    exists|i: int| 0 <= i < es.len() && #[trigger] es[i].0 == k
}

pub open spec fn key_index(es: Seq<(Seq<char>, TypeView)>, k: Seq<char>) -> int {
    choose|i: int| 0 <= i < es.len() && #[trigger] es[i].0 == k
}

/// Inserting an entry replaces the value of an equal key, else appends the entry.
pub open spec fn insert_entry(es: Seq<(Seq<char>, TypeView)>, k: Seq<char>, v: TypeView) -> Seq<(Seq<char>, TypeView)> {
    if has_key(es, k) {
        es.update(key_index(es, k), (k, v))
    } else {
        es.push((k, v))
    }
}

/// A well-formed state: a stack of scopes whose bottom is the global scope and
/// whose every other scope has the one below as parent; names are unique within a
/// scope and keys unique within each table.
pub open spec fn state_wf(st: AView) -> bool {
    &&& st.scopes.len() >= 1
    &&& st.scopes[0].parent is None
    &&& forall|j: int| 1 <= j < st.scopes.len() ==> (#[trigger] st.scopes[j]).parent == Some((j - 1) as usize)
    &&& forall|j: int| 0 <= j < st.scopes.len() ==> names_unique(#[trigger] st.scopes[j].symbols)
    &&& keys_unique(st.user_types)
    &&& keys_unique(st.signatures)
}

/// A fresh analyzer before its built-ins are declared: one empty global scope.
pub open spec fn empty_state() -> AView {
    AView {
        scopes: seq![ScopeView { symbols: Seq::empty(), kind: ScopeKind::Global, parent: None }],
        diagnostics: Seq::empty(),
        file: Seq::empty(),
        user_types: Seq::empty(),
        signatures: Seq::empty(),
        current_function: None,
        has_return: false,
    }
}

/// The type of a built-in function.
pub open spec fn builtin_type(params: Seq<TypeView>, ret: TypeView) -> TypeView {
    TypeView::Function { params, return_type: Box::new(ret) }
}

/// The built-in functions, declared immutable at 0:0 in the global scope:
/// `log`, `print`, `len`, `rand`, `time_ms`, `superpose`, `entangle`, `measure`.
pub open spec fn with_builtins(st: AView) -> AView {
    let s1 = declare(st, "log"@, builtin_type(seq![TypeView::Any], TypeView::Void), 0, 0, false);
    let s2 = declare(s1, "print"@, builtin_type(seq![TypeView::Any], TypeView::Void), 0, 0, false);
    let s3 = declare(s2, "len"@, builtin_type(seq![TypeView::Any], TypeView::Number), 0, 0, false);
    let s4 = declare(s3, "rand"@, builtin_type(Seq::empty(), TypeView::Number), 0, 0, false);
    let s5 = declare(s4, "time_ms"@, builtin_type(Seq::empty(), TypeView::Number), 0, 0, false);
    let s6 = declare(s5, "superpose"@, builtin_type(seq![TypeView::Qubit], TypeView::Void), 0, 0, false);
    let s7 = declare(s6, "entangle"@, builtin_type(seq![TypeView::Qubit, TypeView::Qubit], TypeView::Void), 0, 0, false);
    declare(s7, "measure"@, builtin_type(seq![TypeView::Qubit], TypeView::Number), 0, 0, false)
}

// ---------------------------------------------------------------------------
// Elementary steps

/// The error kind recorded for a diagnostic category.
pub open spec fn category_kind(c: DiagnosticCategory) -> ErrorKind {
    match c {
        DiagnosticCategory::UndefinedVariable => ErrorKind::UndefinedVariable,
        DiagnosticCategory::TypeMismatch => ErrorKind::TypeMismatch,
        DiagnosticCategory::RedefinedSymbol => ErrorKind::RedefinedSymbol,
        DiagnosticCategory::UnusedVariable => ErrorKind::UnreachableCode,
        DiagnosticCategory::UnusedFunction => ErrorKind::UnreachableCode,
        DiagnosticCategory::InvalidOperation => ErrorKind::InvalidOperation,
        DiagnosticCategory::MissingReturn => ErrorKind::MissingReturn,
        DiagnosticCategory::UnreachableCode => ErrorKind::UnreachableCode,
        DiagnosticCategory::InvalidAccess => ErrorKind::InvalidAccess,
    }
}

/// Appends a diagnostic located in the current file.
pub open spec fn add_diag(
    st: AView,
    message: Seq<char>,
    severity: DiagnosticSeverity,
    category: DiagnosticCategory,
    line: usize,
    column: usize,
    length: usize,
    suggestion: Option<Seq<char>>,
) -> AView {
    AView {
        diagnostics: st.diagnostics.push(
            DiagView {
                message,
                kind: category_kind(category),
                file: st.file,
                line,
                column,
                length,
                suggestion,
                severity,
                category,
            },
        ),
        ..st
    }
}

/// Declares a symbol, unused, in the innermost scope.
pub open spec fn declare(st: AView, name: Seq<char>, ty: TypeView, line: usize, column: usize, is_mutable: bool) -> AView {
    let k = st.scopes.len() - 1;
    let sc = st.scopes[k];
    let s = SymbolView { name, ty, line, column, is_mutable, is_used: false, scope_depth: k as usize };
    AView { scopes: st.scopes.update(k, ScopeView { symbols: insert_symbol(sc.symbols, s), ..sc }), ..st }
}

/// Opens a scope inside the innermost one.
pub open spec fn enter(st: AView, kind: ScopeKind) -> AView {
    AView {
        scopes: st.scopes.push(
            ScopeView { symbols: Seq::empty(), kind, parent: Some((st.scopes.len() - 1) as usize) },
        ),
        ..st
    }
}

/// The symbol named `name` in the first `k` scopes, searched innermost first.
pub open spec fn lookup_in(scopes: Seq<ScopeView>, k: int, name: Seq<char>) -> Option<SymbolView>
    decreases k,
{
    if k <= 0 {
        None
    } else if has_symbol(scopes[k - 1].symbols, name) {
        Some(scopes[k - 1].symbols[symbol_index(scopes[k - 1].symbols, name)])
    } else {
        lookup_in(scopes, k - 1, name)
    }
}

/// The symbol a name resolves to from the innermost scope.
pub open spec fn lookup(st: AView, name: Seq<char>) -> Option<SymbolView> {
    lookup_in(st.scopes, st.scopes.len() as int, name)
}

/// The index of the innermost of the first `k` scopes that declares `name`, or -1.
pub open spec fn scope_of(scopes: Seq<ScopeView>, k: int, name: Seq<char>) -> int
    decreases k,
{
    if k <= 0 {
        -1
    } else if has_symbol(scopes[k - 1].symbols, name) {
        k - 1
    } else {
        scope_of(scopes, k - 1, name)
    }
}

/// Marks the symbol a name resolves to as used.
pub open spec fn mark_used(st: AView, name: Seq<char>) -> AView {
    let j = scope_of(st.scopes, st.scopes.len() as int, name);
    if j < 0 {
        st
    } else {
        let sc = st.scopes[j];
        let i = symbol_index(sc.symbols, name);
        let s = sc.symbols[i];
        AView {
            scopes: st.scopes.update(
                j,
                ScopeView { symbols: sc.symbols.update(i, SymbolView { is_used: true, ..s }), ..sc },
            ),
            ..st
        }
    }
}

/// A name that starts with `_` is not reported when unused.
pub open spec fn starts_with_underscore(name: Seq<char>) -> bool {
    name.len() > 0 && name[0] == '_'
}

/// Reports each unused symbol of a closed scope, in declaration order.
pub open spec fn report_unused(st: AView, syms: Seq<SymbolView>) -> AView
    decreases syms.len(),
{
    if syms.len() == 0 {
        st
    } else {
        let st1 = report_unused(st, syms.drop_last());
        let s = syms[syms.len() - 1];
        if !s.is_used && !starts_with_underscore(s.name) {
            add_diag(
                st1,
                "Unused variable '"@ + s.name + "'"@,
                DiagnosticSeverity::Warning,
                DiagnosticCategory::UnusedVariable,
                s.line,
                s.column,
                byte_len(s.name),
                Some("Prefix with underscore if intentionally unused: '_"@ + s.name + "'"@),
            )
        } else {
            st1
        }
    }
}

/// Closes the innermost scope and reports its unused symbols.
pub open spec fn exit(st: AView) -> AView {
    let last = st.scopes[st.scopes.len() - 1];
    report_unused(AView { scopes: st.scopes.drop_last(), ..st }, last.symbols)
}

/// The type an expression has, as far as it can be told without evaluating it.
pub open spec fn infer(st: AView, e: ASTNode) -> TypeView
    decreases e,
{
    match e {
        ASTNode::NumberLiteral(_) => TypeView::Number,
        ASTNode::StringLiteral(_) => TypeView::Str,
        ASTNode::BooleanLiteral(_) => TypeView::Boolean,
        ASTNode::ArrayLiteral(els) => if els@.len() == 0 {
            TypeView::Array(Box::new(TypeView::Unknown))
        } else {
            TypeView::Array(Box::new(infer(st, els@[0])))
        },
        ASTNode::Identifier(n) => match lookup(st, n@) {
            Some(s) => s.ty,
            None => TypeView::Unknown,
        },
        ASTNode::IdentifierSpanned { name: n, .. } => match lookup(st, n@) {
            Some(s) => s.ty,
            None => TypeView::Unknown,
        },
        ASTNode::BinaryExpr { op, .. } => match op {
            TokenKind::Plus | TokenKind::Minus | TokenKind::Star | TokenKind::Slash => TypeView::Number,
            TokenKind::DoubleEquals | TokenKind::NotEquals | TokenKind::LessThan | TokenKind::LessEqual
            | TokenKind::GreaterThan | TokenKind::GreaterEqual => TypeView::Boolean,
            _ => TypeView::Unknown,
        },
        _ => TypeView::Unknown,
    }
}

/// The message of a type mismatch.
pub open spec fn mismatch_text(expected: TypeView, actual: TypeView) -> Seq<char> {
    "Type mismatch: expected "@ + type_text(expected) + ", found "@ + type_text(actual)
}

/// Checks an expression against an expected type; a mismatch is reported only
/// where the expression carries its location (a spanned identifier).
pub open spec fn check_expr(st: AView, e: ASTNode, expected: TypeView) -> AView {
    let actual = infer(st, e);
    if compatible(actual, expected) {
        st
    } else {
        match e {
            ASTNode::IdentifierSpanned { line, column, len, .. } => add_diag(
                st,
                mismatch_text(expected, actual),
                DiagnosticSeverity::Error,
                DiagnosticCategory::TypeMismatch,
                line,
                column,
                len,
                None,
            ),
            _ => st,
        }
    }
}

/// The declared return type of a function, from its recorded signature.
pub open spec fn return_type_of(st: AView, f: Seq<char>) -> Option<TypeView> {
    if has_key(st.signatures, f) {
        match st.signatures[key_index(st.signatures, f)].1 {
            TypeView::Function { return_type, .. } => Some(*return_type),
            _ => None,
        }
    } else {
        None
    }
}

/// `n` unknown types.
pub open spec fn unknowns(n: nat) -> Seq<TypeView> {
    Seq::new(n, |i: int| TypeView::Unknown)
}

/// Declares the parameters of a function, mutable and of unknown type.
pub open spec fn declare_params(st: AView, params: Seq<FunctionParam>) -> AView
    decreases params.len(),
{
    if params.len() == 0 {
        st
    } else {
        let p = params[params.len() - 1];
        declare(declare_params(st, params.drop_last()), p.name@, TypeView::Unknown, p.line, p.column, true)
    }
}

/// A body should return a value when one of its statements is a `return`.
pub open spec fn should_return(body: Seq<ASTNode>) -> bool {
    exists|i: int| 0 <= i < body.len() && #[trigger] body[i] is Return
}

/// The field names of a struct, each once, in order of first declaration, with
/// unknown types.
pub open spec fn field_types(fields: Seq<StructField>) -> Seq<(Seq<char>, TypeView)>
    decreases fields.len(),
{
    if fields.len() == 0 {
        Seq::empty()
    } else {
        insert_entry(field_types(fields.drop_last()), fields[fields.len() - 1].name@, TypeView::Unknown)
    }
}

// ---------------------------------------------------------------------------
// Visiting the tree

/// What visiting a node does to the analyzer.
pub open spec fn visit(st: AView, node: ASTNode) -> AView
    decreases node, 0int,
{
    match node {
        ASTNode::Program(stmts) => visit_all(st, stmts@),
        ASTNode::Function { name, params, body, line, column, .. } => function_decl(
            st,
            name@,
            params@,
            body,
            line,
            column,
        ),
        ASTNode::ClassDecl { name, methods, line, column, .. } => class_decl(st, name@, methods, line, column),
        ASTNode::StructDecl { name, fields, line, column } => struct_decl(st, name@, fields@, line, column),
        ASTNode::TraitDecl { name, methods, line, column } => trait_decl(st, name@, methods, line, column),
        ASTNode::ImplBlock { trait_name, type_ident, methods, .. } => impl_block(
            st,
            match trait_name {
                Some(t) => Some(t@),
                None => None,
            },
            type_ident@,
            methods,
        ),
        ASTNode::VariableDecl { name, value, line, column, .. } => variable_decl(st, name@, *value, line, column),
        ASTNode::Assignment { name, value, line, column } => assignment(st, name@, *value, line, column),
        ASTNode::Block(stmts) => exit(visit_all(enter(st, ScopeKind::Block), stmts@)),
        ASTNode::If { condition, then_branch, else_branch } => {
            let st1 = visit(check_expr(st, *condition, TypeView::Boolean), *then_branch);
            match else_branch {
                Some(e) => visit(st1, *e),
                None => st1,
            }
        },
        ASTNode::While { condition, body } => visit(check_expr(st, *condition, TypeView::Boolean), *body),
        ASTNode::MatchExpr { value, arms, .. } => visit_arms(st, arms@, infer(st, *value)),
        ASTNode::Return(e) => match st.current_function {
            Some(f) => {
                let st1 = match return_type_of(st, f) {
                    Some(t) => check_expr(st, *e, t),
                    None => st,
                };
                AView { has_return: true, ..st1 }
            },
            None => add_diag(
                st,
                "Return statement outside function"@,
                DiagnosticSeverity::Error,
                DiagnosticCategory::InvalidOperation,
                0,
                0,
                6,
                None,
            ),
        },
        ASTNode::BinaryExpr { left, right, .. } => visit(visit(st, *left), *right),
        ASTNode::UnaryExpr { expr, .. } => visit(st, *expr),
        ASTNode::Call { callee, args } => visit_all(visit(st, *callee), args@),
        ASTNode::ArrayLiteral(elements) => visit_all(st, elements@),
        ASTNode::ObjectLiteral(fields) => visit_values(st, fields@),
        _ => st,
    }
}

/// Visits nodes in order.
pub open spec fn visit_all(st: AView, nodes: Seq<ASTNode>) -> AView
    decreases nodes, 1int,
{
    if nodes.len() == 0 {
        st
    } else {
        visit(visit_all(st, nodes.drop_last()), nodes[nodes.len() - 1])
    }
}

/// Visits the values of `name: value` pairs in order.
pub open spec fn visit_values(st: AView, fields: Seq<(String, ASTNode)>) -> AView
    decreases fields, 1int,
{
    if fields.len() == 0 {
        st
    } else {
        visit(visit_values(st, fields.drop_last()), fields[fields.len() - 1].1)
    }
}

/// Checks one match arm against the type of the matched value, then visits its body.
pub open spec fn check_arm(st: AView, arm: MatchArm, value_type: TypeView) -> AView
    decreases arm, 1int,
{
    let pt = infer(st, arm.pattern);
    let st1 = if compatible(pt, value_type) {
        st
    } else {
        add_diag(
            st,
            "Pattern type "@ + type_text(pt) + " doesn't match value type "@ + type_text(value_type),
            DiagnosticSeverity::Error,
            DiagnosticCategory::TypeMismatch,
            arm.line,
            arm.column,
            1,
            None,
        )
    };
    let st2 = match arm.guard {
        Some(g) => check_expr(st1, g, TypeView::Boolean),
        None => st1,
    };
    visit(st2, arm.body)
}

/// Checks match arms in order.
pub open spec fn visit_arms(st: AView, arms: Seq<MatchArm>, value_type: TypeView) -> AView
    decreases arms, 1int,
{
    if arms.len() == 0 {
        st
    } else {
        check_arm(visit_arms(st, arms.drop_last(), value_type), arms[arms.len() - 1], value_type)
    }
}

/// A function declaration: reported if the name is taken in this scope; else the
/// function is declared with unknown parameter and return types, its parameters are
/// declared in a new scope, its body is visited, and a body that has a `return`
/// statement but never reached one inside the function is reported.
pub open spec fn function_decl(
    st: AView,
    name: Seq<char>,
    params: Seq<FunctionParam>,
    body: Vec<ASTNode>,
    line: usize,
    column: usize,
) -> AView
    decreases body, 2int,
{
    if has_symbol(st.scopes[st.scopes.len() - 1].symbols, name) {
        add_diag(
            st,
            "Function '"@ + name + "' is already defined"@,
            DiagnosticSeverity::Error,
            DiagnosticCategory::RedefinedSymbol,
            line,
            column,
            byte_len(name),
            Some("Consider using a different name or removing the duplicate definition"@),
        )
    } else {
        let ft = TypeView::Function { params: unknowns(params.len()), return_type: Box::new(TypeView::Unknown) };
        let st1 = declare(st, name, ft, line, column, false);
        let st2 = AView { signatures: insert_entry(st1.signatures, name, ft), ..st1 };
        let st3 = enter(st2, ScopeKind::Function(name));
        let st4 = AView { current_function: Some(name), has_return: false, ..st3 };
        let st5 = visit_all(declare_params(st4, params), body@);
        let st6 = if !st5.has_return && should_return(body@) {
            add_diag(
                st5,
                "Function '"@ + name + "' should return a value"@,
                DiagnosticSeverity::Warning,
                DiagnosticCategory::MissingReturn,
                line,
                column,
                byte_len(name),
                Some("Add a return statement or change function to return void"@),
            )
        } else {
            st5
        };
        exit(AView { current_function: None, ..st6 })
    }
}

/// A class: declared, recorded as a user type, its methods visited in its own scope.
pub open spec fn class_decl(st: AView, name: Seq<char>, methods: Vec<ASTNode>, line: usize, column: usize) -> AView
    decreases methods, 2int,
{
    let t = TypeView::Class(name);
    let st1 = declare(st, name, t, line, column, false);
    let st2 = AView { user_types: insert_entry(st1.user_types, name, t), ..st1 };
    exit(visit_all(enter(st2, ScopeKind::Class(name)), methods@))
}

/// A struct: declared, recorded as a user type, and its instance type recorded as an
/// object of its fields under `name_instance`.
pub open spec fn struct_decl(st: AView, name: Seq<char>, fields: Seq<StructField>, line: usize, column: usize) -> AView {
    let t = TypeView::Struct(name);
    let st1 = declare(st, name, t, line, column, false);
    let ut = insert_entry(st1.user_types, name, t);
    AView { user_types: insert_entry(ut, name + "_instance"@, TypeView::Object(field_types(fields))), ..st1 }
}

/// A trait: declared, recorded as a user type, its methods visited in its own scope.
pub open spec fn trait_decl(st: AView, name: Seq<char>, methods: Vec<ASTNode>, line: usize, column: usize) -> AView
    decreases methods, 2int,
{
    let t = TypeView::Trait(name);
    let st1 = declare(st, name, t, line, column, false);
    let st2 = AView { user_types: insert_entry(st1.user_types, name, t), ..st1 };
    exit(visit_all(enter(st2, ScopeKind::Trait(name)), methods@))
}

/// An impl block: its methods visited in its own scope.
pub open spec fn impl_block(st: AView, trait_name: Option<Seq<char>>, type_ident: Seq<char>, methods: Vec<ASTNode>) -> AView
    decreases methods, 2int,
{
    exit(visit_all(enter(st, ScopeKind::ImplBlock(trait_name, type_ident)), methods@))
}

/// A variable declaration: reported if the name is taken in this scope; else the
/// variable is declared, mutable, with the type inferred from its value, and the
/// value is visited.
pub open spec fn variable_decl(st: AView, name: Seq<char>, value: ASTNode, line: usize, column: usize) -> AView
    decreases value, 2int,
{
    if has_symbol(st.scopes[st.scopes.len() - 1].symbols, name) {
        add_diag(
            st,
            "Variable '"@ + name + "' is already defined in this scope"@,
            DiagnosticSeverity::Error,
            DiagnosticCategory::RedefinedSymbol,
            line,
            column,
            byte_len(name),
            Some("Consider using a different name"@),
        )
    } else {
        visit(declare(st, name, infer(st, value), line, column, true), value)
    }
}

/// An assignment: to an undefined name it is reported; to an immutable one it is
/// reported too; the value is checked against the variable's type and the variable
/// marked used; then the value is visited.
pub open spec fn assignment(st: AView, name: Seq<char>, value: ASTNode, line: usize, column: usize) -> AView
    decreases value, 2int,
{
    let st1 = match lookup(st, name) {
        Some(s) => {
            let sa = if !s.is_mutable {
                add_diag(
                    st,
                    "Cannot assign to immutable variable '"@ + name + "'"@,
                    DiagnosticSeverity::Error,
                    DiagnosticCategory::InvalidOperation,
                    line,
                    column,
                    byte_len(name),
                    Some("Declare the variable as mutable"@),
                )
            } else {
                st
            };
            mark_used(check_expr(sa, value, s.ty), name)
        },
        None => add_diag(
            st,
            "Undefined variable '"@ + name + "'"@,
            DiagnosticSeverity::Error,
            DiagnosticCategory::UndefinedVariable,
            line,
            column,
            byte_len(name),
            Some("Did you mean to declare it with 'let "@ + name + "'?"@),
        ),
    };
    visit(st1, value)
}

/// The analysis reports an error when one of its diagnostics is an error.
pub open spec fn has_error(ds: Seq<DiagView>) -> bool {
    exists|i: int| 0 <= i < ds.len() && #[trigger] ds[i].severity == DiagnosticSeverity::Error
}

} // verus!

verus! {

// ---------------------------------------------------------------------------
// Laws of the symbol table

proof fn lemma_insert_symbol_found(syms: Seq<SymbolView>, s: SymbolView)
    requires
        names_unique(syms),
    ensures
        names_unique(insert_symbol(syms, s)),
        has_symbol(insert_symbol(syms, s), s.name),
        insert_symbol(syms, s)[symbol_index(insert_symbol(syms, s), s.name)] == s,
        forall|m: Seq<char>| m != s.name ==> (has_symbol(insert_symbol(syms, s), m) == has_symbol(syms, m)),
        forall|m: Seq<char>|
            m != s.name && has_symbol(syms, m) ==> insert_symbol(syms, s)[symbol_index(insert_symbol(syms, s), m)]
                == syms[symbol_index(syms, m)],
{
    let ns = insert_symbol(syms, s);
    if has_symbol(syms, s.name) {
        let i = symbol_index(syms, s.name);
        assert(ns[i].name == s.name);
    } else {
        assert(ns[syms.len() as int].name == s.name);
    }
    assert(has_symbol(ns, s.name));
    assert(names_unique(ns)) by {
        assert forall|a: int, b: int| 0 <= a < b < ns.len() implies #[trigger] ns[a].name != #[trigger] ns[b].name by {
            if has_symbol(syms, s.name) {
                let i = symbol_index(syms, s.name);
                if a == i {
                    assert(syms[b].name != syms[i].name);
                } else if b == i {
                    assert(syms[a].name != syms[i].name);
                } else {
                    assert(syms[a].name != syms[b].name);
                }
            } else {
                if b == syms.len() {
                    assert(syms[a].name != s.name);
                } else {
                    assert(syms[a].name != syms[b].name);
                }
            }
        }
    }
    let j = symbol_index(ns, s.name);
    assert(ns[j] == s) by {
        if has_symbol(syms, s.name) {
            let i = symbol_index(syms, s.name);
            assert(ns[i].name == s.name);
        } else {
            assert(ns[syms.len() as int].name == s.name);
        }
    }
    assert forall|m: Seq<char>| m != s.name implies (has_symbol(ns, m) == has_symbol(syms, m)) by {
        if has_symbol(syms, m) {
            let x = symbol_index(syms, m);
            assert(ns[x].name == m);
        }
        if has_symbol(ns, m) {
            let y = symbol_index(ns, m);
            assert(syms[y].name == m);
        }
    }
    assert forall|m: Seq<char>| m != s.name && has_symbol(syms, m) implies ns[symbol_index(ns, m)] == syms[symbol_index(
        syms,
        m,
    )] by {
        let x = symbol_index(syms, m);
        assert(ns[x].name == m);
        let y = symbol_index(ns, m);
        assert(ns[y].name == m);
        assert(ns[y] == syms[y]);
    }
}

proof fn lemma_lookup_in_frame(a: Seq<ScopeView>, b: Seq<ScopeView>, k: int, m: Seq<char>)
    requires
        0 <= k <= a.len(),
        k <= b.len(),
        forall|j: int| 0 <= j < k ==> (has_symbol(#[trigger] a[j].symbols, m) == has_symbol(b[j].symbols, m)),
        forall|j: int|
            0 <= j < k && has_symbol(#[trigger] a[j].symbols, m) ==> a[j].symbols[symbol_index(a[j].symbols, m)]
                == b[j].symbols[symbol_index(b[j].symbols, m)],
    ensures
        lookup_in(a, k, m) == lookup_in(b, k, m),
    decreases k,
{
    if k > 0 {
        lemma_lookup_in_frame(a, b, k - 1, m);
    }
}

/// Declaring a name makes it resolve to the new symbol: declared in the innermost
/// scope, not yet used, with the given type, place and mutability.
pub proof fn lemma_lookup_after_declare(
    st: AView,
    name: Seq<char>,
    ty: TypeView,
    line: usize,
    column: usize,
    is_mutable: bool,
)
    requires
        state_wf(st),
    ensures
        lookup(declare(st, name, ty, line, column, is_mutable), name) == Some(
            SymbolView { name, ty, line, column, is_mutable, is_used: false, scope_depth: (st.scopes.len() - 1) as usize },
        ),
{
    let k = st.scopes.len() - 1;
    let syms = st.scopes[k].symbols;
    assert(names_unique(syms));
    let s = SymbolView { name, ty, line, column, is_mutable, is_used: false, scope_depth: k as usize };
    lemma_insert_symbol_found(syms, s);
    let st2 = declare(st, name, ty, line, column, is_mutable);
    assert(st2.scopes[k].symbols == insert_symbol(syms, s));
}

/// Declaring a name does not change what any other name resolves to.
pub proof fn lemma_lookup_other_after_declare(
    st: AView,
    name: Seq<char>,
    ty: TypeView,
    line: usize,
    column: usize,
    is_mutable: bool,
    other: Seq<char>,
)
    requires
        state_wf(st),
        other != name,
    ensures
        lookup(declare(st, name, ty, line, column, is_mutable), other) == lookup(st, other),
{
    let k = st.scopes.len() - 1;
    let syms = st.scopes[k].symbols;
    assert(names_unique(syms));
    let s = SymbolView { name, ty, line, column, is_mutable, is_used: false, scope_depth: k as usize };
    lemma_insert_symbol_found(syms, s);
    let st2 = declare(st, name, ty, line, column, is_mutable);
    assert(st2.scopes[k].symbols == insert_symbol(syms, s));
    lemma_lookup_in_frame(st2.scopes, st.scopes, st.scopes.len() as int, other);
}

/// Opening a scope and closing it again, with nothing declared in between, leaves
/// the analyzer as it was.
pub proof fn lemma_enter_exit(st: AView, kind: ScopeKind)
    ensures
        exit(enter(st, kind)) == st,
{
    let e = enter(st, kind);
    assert(e.scopes.drop_last() =~= st.scopes);
}

proof fn lemma_report_unused_scopes(st: AView, syms: Seq<SymbolView>)
    ensures
        report_unused(st, syms).scopes == st.scopes,
        report_unused(st, syms).file == st.file,
    decreases syms.len(),
{
    if syms.len() > 0 {
        lemma_report_unused_scopes(st, syms.drop_last());
    }
}

/// Closing a scope drops it, with all it declared, from the scope stack.
pub proof fn lemma_exit_drops_scope(st: AView)
    requires
        st.scopes.len() >= 1,
    ensures
        exit(st).scopes == st.scopes.drop_last(),
{
    let last = st.scopes[st.scopes.len() - 1];
    lemma_report_unused_scopes(AView { scopes: st.scopes.drop_last(), ..st }, last.symbols);
}

} // verus!
