//! Semantic analysis: scoped symbol tables, simple type inference and checking,
//! and diagnostics with locations.

use vstd::prelude::*;
use crate::ast::{ASTNode, FunctionParam, MatchArm, StructField};
use crate::enhanced_error::{CompilerError, ErrorKind, Position, Span};
use crate::semantic_model::{
    AView, DiagView, ScopeKind, ScopeView, SymbolView, TypeView, add_diag, check_arm, check_expr, class_decl,
    compatible, declare, declare_params, empty_state, enter, exit, field_types, function_decl, has_error,
    has_key, has_symbol, impl_block, infer, insert_entry, insert_symbol, key_index, keys_unique, lookup,
    lookup_in, mark_used, mismatch_text, names_unique, params_text, report_unused, return_type_of, scope_of,
    should_return, state_wf, struct_decl, symbol_index, trait_decl, type_text, unknowns, variable_decl, assignment,
    visit, visit_all, visit_arms, visit_values, with_builtins,
};
use crate::text::concat;
use crate::token::TokenKind;
use crate::text::owned;
use crate::text::{push_str_chars, push_string_chars, string_from_chars};

verus! {

/// A location in a source file.
#[derive(Debug)]
pub struct SourceLocation {
    pub file: String,
    pub line: usize,
    pub column: usize,
    pub length: usize,
}

/// A type of the language. An object type lists its fields in order of first
/// declaration, each name once.
#[derive(Debug)]
pub enum Type {
    Number,
    String,
    Boolean,
    Void,
    Array(Box<Type>),
    Object(Vec<(String, Type)>),
    Function { params: Vec<Type>, return_type: Box<Type> },
    Qubit,
    QuantumArray(Box<Type>),
    QuantumState,
    Struct(String),
    Class(String),
    Trait(String),
    Unknown,
    Any,
}

/// The model of a type.
pub open spec fn type_view(t: Type) -> TypeView
    decreases t,
{
    match t {
        Type::Number => TypeView::Number,
        Type::String => TypeView::Str,
        Type::Boolean => TypeView::Boolean,
        Type::Void => TypeView::Void,
        Type::Array(inner) => TypeView::Array(Box::new(type_view(*inner))),
        Type::Object(fields) => TypeView::Object(
            Seq::new(
                fields@.len(),
                |i: int|
                    if 0 <= i < fields@.len() {
                        (fields@[i].0@, type_view(fields@[i].1))
                    } else {
                        (Seq::empty(), TypeView::Unknown)
                    },
            ),
        ),
        Type::Function { params, return_type } => TypeView::Function {
            params: Seq::new(
                params@.len(),
                |i: int|
                    if 0 <= i < params@.len() {
                        type_view(params@[i])
                    } else {
                        TypeView::Unknown
                    },
            ),
            return_type: Box::new(type_view(*return_type)),
        },
        Type::Qubit => TypeView::Qubit,
        Type::QuantumArray(inner) => TypeView::QuantumArray(Box::new(type_view(*inner))),
        Type::QuantumState => TypeView::QuantumState,
        Type::Struct(n) => TypeView::Struct(n@),
        Type::Class(n) => TypeView::Class(n@),
        Type::Trait(n) => TypeView::Trait(n@),
        Type::Unknown => TypeView::Unknown,
        Type::Any => TypeView::Any,
    }
}

impl View for Type {
    type V = TypeView;

    open spec fn view(&self) -> TypeView {
        type_view(*self)
    }
}

/// The kind of a scope.
#[derive(Debug)]
pub enum ScopeType {
    Global,
    Function(String),
    Block,
    Class(String),
    Struct(String),
    Trait(String),
    ImplBlock { trait_name: Option<String>, type_ident: String },
}

/// The severity of a diagnostic.
#[derive(Debug, PartialEq, Eq, Structural, Clone, Copy)]
pub enum DiagnosticSeverity {
    Error,
    Warning,
    Info,
}

/// What a diagnostic is about.
#[derive(Debug, PartialEq, Eq, Structural, Clone, Copy)]
pub enum DiagnosticCategory {
    UndefinedVariable,
    TypeMismatch,
    RedefinedSymbol,
    UnusedVariable,
    UnusedFunction,
    InvalidOperation,
    MissingReturn,
    UnreachableCode,
    InvalidAccess,
}


/// The model of a list of types.
pub open spec fn types_view(ts: Seq<Type>) -> Seq<TypeView> {
    ts.map_values(|t: Type| t@)
}

/// The model of a list of named types.
pub open spec fn entries_view(es: Seq<(String, Type)>) -> Seq<(Seq<char>, TypeView)> {
    es.map_values(|e: (String, Type)| (e.0@, e.1@))
}

proof fn lemma_function_view(params: Vec<Type>, return_type: Box<Type>)
    ensures
        (Type::Function { params, return_type })@ == (TypeView::Function {
            params: types_view(params@),
            return_type: Box::new((*return_type)@),
        }),
{
    let t = Type::Function { params, return_type };
    assert(t@->params =~= types_view(params@));
}

proof fn lemma_object_view(fields: Vec<(String, Type)>)
    ensures
        (Type::Object(fields))@ == TypeView::Object(entries_view(fields@)),
{
    let t = Type::Object(fields);
    assert(t@->Object_0 =~= entries_view(fields@));
}

impl Type {
    /// A function type.
    pub fn function(params: Vec<Type>, return_type: Type) -> (r: Type)
        ensures
            r@ == (TypeView::Function { params: types_view(params@), return_type: Box::new(return_type@) }),
    {
        let r = Type::Function { params, return_type: Box::new(return_type) };
        proof {
            lemma_function_view(r->params, r->return_type);
        }
        r
    }

    /// A copy of this type.
    pub fn duplicate(&self) -> (r: Type)
        ensures
            r@ == self@,
        decreases self,
    {
        match self {
            Type::Number => Type::Number,
            Type::String => Type::String,
            Type::Boolean => Type::Boolean,
            Type::Void => Type::Void,
            Type::Array(inner) => Type::Array(Box::new(inner.duplicate())),
            Type::Object(fields) => {
                let mut out: Vec<(String, Type)> = Vec::new();
                let mut i: usize = 0;
                while i < fields.len()
                    invariant
                        i <= fields@.len(),
                        *self matches Type::Object(fs) && fs == *fields,
                        out@.len() == i,
                        forall|j: int| 0 <= j < i ==> (#[trigger] out@[j]).0@ == fields@[j].0@ && out@[j].1@ == fields@[j].1@,
                    decreases fields@.len() - i,
                {
                    let t = fields[i].1.duplicate();
                    out.push((fields[i].0.clone(), t));
                    i += 1;
                }
                let r = Type::Object(out);
                proof {
                    lemma_object_view(out);
                    lemma_object_view(*fields);
                    assert(entries_view(out@) =~= entries_view(fields@));
                }
                r
            },
            Type::Function { params, return_type } => {
                let mut out: Vec<Type> = Vec::new();
                let mut i: usize = 0;
                while i < params.len()
                    invariant
                        i <= params@.len(),
                        *self matches Type::Function { params: ps, .. } && ps == *params,
                        out@.len() == i,
                        forall|j: int| 0 <= j < i ==> (#[trigger] out@[j])@ == params@[j]@,
                    decreases params@.len() - i,
                {
                    let t = params[i].duplicate();
                    out.push(t);
                    i += 1;
                }
                let rt = return_type.duplicate();
                proof {
                    lemma_function_view(*params, *return_type);
                    assert(types_view(out@) =~= types_view(params@));
                }
                Type::function(out, rt)
            },
            Type::Qubit => Type::Qubit,
            Type::QuantumArray(inner) => Type::QuantumArray(Box::new(inner.duplicate())),
            Type::QuantumState => Type::QuantumState,
            Type::Struct(n) => Type::Struct(n.clone()),
            Type::Class(n) => Type::Class(n.clone()),
            Type::Trait(n) => Type::Trait(n.clone()),
            Type::Unknown => Type::Unknown,
            Type::Any => Type::Any,
        }
    }

    /// Whether two types are equal.
    pub fn equals(&self, other: &Type) -> (r: bool)
        ensures
            r == (self@ == other@),
        decreases self,
    {
        match (self, other) {
            (Type::Number, Type::Number) => true,
            (Type::String, Type::String) => true,
            (Type::Boolean, Type::Boolean) => true,
            (Type::Void, Type::Void) => true,
            (Type::Array(a), Type::Array(b)) => a.equals(b),
            (Type::Object(f), Type::Object(g)) => {
                proof {
                    lemma_object_view(*f);
                    lemma_object_view(*g);
                }
                if f.len() != g.len() {
                    assert(entries_view(f@).len() != entries_view(g@).len());
                    return false;
                }
                let mut i: usize = 0;
                while i < f.len()
                    invariant
                        i <= f@.len(),
                        f@.len() == g@.len(),
                        *self matches Type::Object(fs) && fs == *f,
                        self@ == TypeView::Object(entries_view(f@)),
                        other@ == TypeView::Object(entries_view(g@)),
                        forall|j: int| 0 <= j < i ==> (#[trigger] entries_view(f@)[j]) == entries_view(g@)[j],
                    decreases f@.len() - i,
                {
                    let same_name = f[i].0 == g[i].0;
                    if !same_name {
                        assert(entries_view(f@)[i as int] != entries_view(g@)[i as int]);
                        return false;
                    }
                    let same_type = f[i].1.equals(&g[i].1);
                    if !same_type {
                        assert(entries_view(f@)[i as int] != entries_view(g@)[i as int]);
                        return false;
                    }
                    i += 1;
                }
                assert(entries_view(f@) =~= entries_view(g@));
                true
            },
            (Type::Function { params: p, return_type: ra }, Type::Function { params: q, return_type: rb }) => {
                proof {
                    lemma_function_view(*p, *ra);
                    lemma_function_view(*q, *rb);
                }
                if p.len() != q.len() {
                    assert(types_view(p@).len() != types_view(q@).len());
                    return false;
                }
                let mut i: usize = 0;
                while i < p.len()
                    invariant
                        i <= p@.len(),
                        p@.len() == q@.len(),
                        *self matches Type::Function { params: ps, .. } && ps == *p,
                        self@ == (TypeView::Function { params: types_view(p@), return_type: Box::new((**ra)@) }),
                        other@ == (TypeView::Function { params: types_view(q@), return_type: Box::new((**rb)@) }),
                        forall|j: int| 0 <= j < i ==> (#[trigger] types_view(p@)[j]) == types_view(q@)[j],
                    decreases p@.len() - i,
                {
                    let same = p[i].equals(&q[i]);
                    if !same {
                        assert(types_view(p@)[i as int] != types_view(q@)[i as int]);
                        return false;
                    }
                    i += 1;
                }
                assert(types_view(p@) =~= types_view(q@));
                ra.equals(rb)
            },
            (Type::Qubit, Type::Qubit) => true,
            (Type::QuantumArray(a), Type::QuantumArray(b)) => a.equals(b),
            (Type::QuantumState, Type::QuantumState) => true,
            (Type::Struct(a), Type::Struct(b)) => *a == *b,
            (Type::Class(a), Type::Class(b)) => *a == *b,
            (Type::Trait(a), Type::Trait(b)) => *a == *b,
            (Type::Unknown, Type::Unknown) => true,
            (Type::Any, Type::Any) => true,
            _ => false,
        }
    }

    /// Appends how the type is written in messages.
    pub fn push_text(&self, out: &mut Vec<char>)
        ensures
            final(out)@ == old(out)@ + type_text(self@),
        decreases self,
    {
        match self {
            Type::Number => push_str_chars(out, "number"),
            Type::String => push_str_chars(out, "string"),
            Type::Boolean => push_str_chars(out, "boolean"),
            Type::Void => push_str_chars(out, "void"),
            Type::Array(inner) => {
                push_str_chars(out, "array<");
                inner.push_text(out);
                push_str_chars(out, ">");
                assert(out@ =~= old(out)@ + type_text(self@));
            },
            Type::Object(_) => push_str_chars(out, "object"),
            Type::Function { params, return_type } => {
                proof {
                    lemma_function_view(*params, *return_type);
                }
                let ghost ps = types_view(params@);
                push_str_chars(out, "function(");
                let ghost head = out@;
                let mut i: usize = 0;
                while i < params.len()
                    invariant
                        i <= params@.len(),
                        *self matches Type::Function { params: pv, .. } && pv == *params,
                        ps == types_view(params@),
                        out@ == head + params_text(ps.take(i as int)),
                    decreases params@.len() - i,
                {
                    proof {
                        assert(ps.take(i as int + 1).drop_last() =~= ps.take(i as int));
                        if i == 0 {
                            assert(ps.take(0) =~= Seq::<TypeView>::empty());
                        }
                    }
                    if i > 0 {
                        push_str_chars(out, ", ");
                    }
                    params[i].push_text(out);
                    i += 1;
                    assert(out@ =~= head + params_text(ps.take(i as int)));
                }
                assert(ps.take(params@.len() as int) =~= ps);
                push_str_chars(out, ") -> ");
                return_type.push_text(out);
                assert(out@ =~= old(out)@ + type_text(self@));
            },
            Type::Qubit => push_str_chars(out, "qubit"),
            Type::QuantumArray(inner) => {
                push_str_chars(out, "quantum_array<");
                inner.push_text(out);
                push_str_chars(out, ">");
                assert(out@ =~= old(out)@ + type_text(self@));
            },
            Type::QuantumState => push_str_chars(out, "quantum_state"),
            Type::Struct(n) => {
                push_str_chars(out, "struct ");
                push_string_chars(out, n);
                assert(out@ =~= old(out)@ + type_text(self@));
            },
            Type::Class(n) => {
                push_str_chars(out, "class ");
                push_string_chars(out, n);
                assert(out@ =~= old(out)@ + type_text(self@));
            },
            Type::Trait(n) => {
                push_str_chars(out, "trait ");
                push_string_chars(out, n);
                assert(out@ =~= old(out)@ + type_text(self@));
            },
            Type::Unknown => push_str_chars(out, "unknown"),
            Type::Any => push_str_chars(out, "any"),
        }
    }

    /// How the type is written in messages (what `Display` writes).
    pub fn to_text(&self) -> (r: String)
        ensures
            r@ == type_text(self@),
    {
        let mut out: Vec<char> = Vec::new();
        self.push_text(&mut out);
        assert(out@ =~= type_text(self@));
        string_from_chars(out.as_slice())
    }
}


/// The model of a scope kind.
pub open spec fn scope_kind(t: ScopeType) -> ScopeKind {
    match t {
        ScopeType::Global => ScopeKind::Global,
        ScopeType::Function(n) => ScopeKind::Function(n@),
        ScopeType::Block => ScopeKind::Block,
        ScopeType::Class(n) => ScopeKind::Class(n@),
        ScopeType::Struct(n) => ScopeKind::Struct(n@),
        ScopeType::Trait(n) => ScopeKind::Trait(n@),
        ScopeType::ImplBlock { trait_name, type_ident } => ScopeKind::ImplBlock(
            match trait_name {
                Some(t) => Some(t@),
                None => None,
            },
            type_ident@,
        ),
    }
}

/// A declared symbol.
#[derive(Debug)]
pub struct Symbol {
    pub name: String,
    pub symbol_type: Type,
    pub line: usize,
    pub column: usize,
    pub is_mutable: bool,
    pub is_used: bool,
    pub scope_depth: usize,
}

impl View for Symbol {
    type V = SymbolView;

    open spec fn view(&self) -> SymbolView {
        SymbolView {
            name: self.name@,
            ty: self.symbol_type@,
            line: self.line,
            column: self.column,
            is_mutable: self.is_mutable,
            is_used: self.is_used,
            scope_depth: self.scope_depth,
        }
    }
}

/// A scope: its symbols, its kind and the index of its parent scope.
#[derive(Debug)]
pub struct Scope {
    pub symbols: Vec<Symbol>,
    pub scope_type: ScopeType,
    pub parent: Option<usize>,
}

impl View for Scope {
    type V = ScopeView;

    open spec fn view(&self) -> ScopeView {
        ScopeView {
            symbols: self.symbols@.map_values(|s: Symbol| s@),
            kind: scope_kind(self.scope_type),
            parent: self.parent,
        }
    }
}

/// The model of an optional text.
pub open spec fn opt_text(o: Option<String>) -> Option<Seq<char>> {
    match o {
        Some(t) => Some(t@),
        None => None,
    }
}

/// A diagnostic: a compiler error with its severity and category.
#[derive(Debug)]
pub struct Diagnostic {
    pub error: CompilerError,
    pub severity: DiagnosticSeverity,
    pub category: DiagnosticCategory,
}

impl View for Diagnostic {
    type V = DiagView;

    open spec fn view(&self) -> DiagView {
        DiagView {
            message: self.error.message@,
            kind: self.error.kind,
            file: self.error.span.start.file@,
            line: self.error.span.start.line,
            column: self.error.span.start.column,
            length: self.error.span.start.length,
            suggestion: opt_text(self.error.suggestion),
            severity: self.severity,
            category: self.category,
        }
    }
}

impl Diagnostic {
    /// A diagnostic marks one position and carries no related notes, so that its view
    /// gives every field of it.
    pub open spec fn wf(&self) -> bool {
        &&& self.error.span.end == self.error.span.start
        &&& self.error.related@.len() == 0
    }

    /// A copy of this diagnostic.
    pub fn duplicate(&self) -> (r: Diagnostic)
        requires
            self.wf(),
        ensures
            r@ == self@,
            r.wf(),
    {
        let p = self.error.span.start.duplicate();
        let mut e = CompilerError::new(self.error.message.clone(), self.error.kind, Span::single(p));
        match &self.error.suggestion {
            Some(t) => {
                e = e.with_suggestion(t.clone());
            },
            None => {},
        }
        Diagnostic { error: e, severity: self.severity, category: self.category }
    }
}

/// The semantic analyzer: a stack of scopes, the diagnostics found so far, the file
/// being analyzed, the user types and function signatures recorded, and the function
/// being visited.
pub struct EnhancedSemanticAnalyzer {
    scopes: Vec<Scope>,
    current_scope: usize,
    diagnostics: Vec<Diagnostic>,
    current_file: String,
    user_types: Vec<(String, Type)>,
    function_signatures: Vec<(String, Type)>,
    current_function: Option<String>,
    has_return: bool,
}

impl View for EnhancedSemanticAnalyzer {
    type V = AView;

    closed spec fn view(&self) -> AView {
        AView {
            scopes: self.scopes@.map_values(|s: Scope| s@),
            diagnostics: self.diagnostics@.map_values(|d: Diagnostic| d@),
            file: self.current_file@,
            user_types: entries_view(self.user_types@),
            signatures: entries_view(self.function_signatures@),
            current_function: opt_text(self.current_function),
            has_return: self.has_return,
        }
    }
}

/// Writes `a`, `b`, `c` one after the other.
fn text3(a: &str, b: &str, c: &str) -> (r: String)
    ensures
        r@ == a@ + b@ + c@,
{
    let mut s = String::from_str(a);
    s.append(b);
    s.append(c);
    s
}

impl EnhancedSemanticAnalyzer {
    /// The analyzer's state is well formed and its current scope is the innermost.
    pub closed spec fn wf(&self) -> bool {
        &&& state_wf(self@)
        &&& self.current_scope == self.scopes@.len() - 1
        &&& forall|k: int| 0 <= k < self.diagnostics@.len() ==> (#[trigger] self.diagnostics@[k]).wf()
    }

    /// A fresh analyzer with the built-in functions declared in its global scope.
    pub fn new() -> (r: Self)
        ensures
            r.wf(),
            r@ == with_builtins(empty_state()),
    {
        let global = Scope { symbols: Vec::new(), scope_type: ScopeType::Global, parent: None };
        let mut scopes: Vec<Scope> = Vec::new();
        scopes.push(global);
        let mut analyzer = EnhancedSemanticAnalyzer {
            scopes,
            current_scope: 0,
            diagnostics: Vec::new(),
            current_file: String::new(),
            user_types: Vec::new(),
            function_signatures: Vec::new(),
            current_function: None,
            has_return: false,
        };
        proof {
            assert(analyzer@.scopes[0].symbols =~= Seq::<SymbolView>::empty());
            assert(analyzer@.scopes =~= empty_state().scopes);
            assert(analyzer@.diagnostics =~= Seq::<DiagView>::empty());
            assert(analyzer@.user_types =~= Seq::<(Seq<char>, TypeView)>::empty());
            assert(analyzer@.signatures =~= Seq::<(Seq<char>, TypeView)>::empty());
            assert(analyzer@ == empty_state());
        }
        analyzer.add_builtin_symbols();
        analyzer
    }

    /// Sets the file that diagnostics are located in.
    pub fn set_current_file(&mut self, file: String)
        requires
            old(self).wf(),
        ensures
            final(self).wf(),
            final(self)@ == (AView { file: file@, ..old(self)@ }),
    {
        self.current_file = file;
        assert(self@.scopes =~= old(self)@.scopes);
    }

    /// The diagnostics found by the last analysis.
    pub fn get_diagnostics(&self) -> (r: &[Diagnostic])
        ensures
            r@.map_values(|d: Diagnostic| d@) == self@.diagnostics,
            self.wf() ==> forall|i: int| 0 <= i < r@.len() ==> (#[trigger] r@[i]).wf(),
    {
        self.diagnostics.as_slice()
    }

    /// Whether one of the diagnostics is an error.
    fn has_errors(&self) -> (r: bool)
        ensures
            r == crate::semantic_model::has_error(self@.diagnostics),
    {
        let mut i: usize = 0;
        while i < self.diagnostics.len()
            invariant
                i <= self.diagnostics@.len(),
                forall|j: int| 0 <= j < i ==> (#[trigger] self.diagnostics@[j]).severity != DiagnosticSeverity::Error,
            decreases self.diagnostics@.len() - i,
        {
            if self.diagnostics[i].severity == DiagnosticSeverity::Error {
                assert(self@.diagnostics[i as int].severity == DiagnosticSeverity::Error);
                return true;
            }
            i += 1;
        }
        assert forall|j: int| 0 <= j < self@.diagnostics.len() implies #[trigger] self@.diagnostics[j].severity
            != DiagnosticSeverity::Error by {
            assert(self@.diagnostics[j] == self.diagnostics@[j]@);
        }
        false
    }

    fn add_builtin_symbols(&mut self)
        requires
            old(self).wf(),
        ensures
            final(self).wf(),
            final(self)@ == with_builtins(old(self)@),
    {
        let mut p1: Vec<Type> = Vec::new();
        p1.push(Type::Any);
        assert(types_view(p1@) =~= seq![TypeView::Any]);
        self.declare_symbol("log", Type::function(p1, Type::Void), 0, 0, false);
        let mut p2: Vec<Type> = Vec::new();
        p2.push(Type::Any);
        assert(types_view(p2@) =~= seq![TypeView::Any]);
        self.declare_symbol("print", Type::function(p2, Type::Void), 0, 0, false);
        let mut p3: Vec<Type> = Vec::new();
        p3.push(Type::Any);
        assert(types_view(p3@) =~= seq![TypeView::Any]);
        self.declare_symbol("len", Type::function(p3, Type::Number), 0, 0, false);
        let p4: Vec<Type> = Vec::new();
        assert(types_view(p4@) =~= Seq::<TypeView>::empty());
        self.declare_symbol("rand", Type::function(p4, Type::Number), 0, 0, false);
        let p5: Vec<Type> = Vec::new();
        assert(types_view(p5@) =~= Seq::<TypeView>::empty());
        self.declare_symbol("time_ms", Type::function(p5, Type::Number), 0, 0, false);
        let mut p6: Vec<Type> = Vec::new();
        p6.push(Type::Qubit);
        assert(types_view(p6@) =~= seq![TypeView::Qubit]);
        self.declare_symbol("superpose", Type::function(p6, Type::Void), 0, 0, false);
        let mut p7: Vec<Type> = Vec::new();
        p7.push(Type::Qubit);
        p7.push(Type::Qubit);
        assert(types_view(p7@) =~= seq![TypeView::Qubit, TypeView::Qubit]);
        self.declare_symbol("entangle", Type::function(p7, Type::Void), 0, 0, false);
        let mut p8: Vec<Type> = Vec::new();
        p8.push(Type::Qubit);
        assert(types_view(p8@) =~= seq![TypeView::Qubit]);
        self.declare_symbol("measure", Type::function(p8, Type::Number), 0, 0, false);
    }

    /// Records a diagnostic located in the current file.
    fn add_diagnostic(
        &mut self,
        message: String,
        severity: DiagnosticSeverity,
        category: DiagnosticCategory,
        line: usize,
        column: usize,
        length: usize,
        suggestion: Option<String>,
    )
        requires
            old(self).wf(),
        ensures
            final(self).wf(),
            final(self)@ == add_diag(old(self)@, message@, severity, category, line, column, length, opt_text(suggestion)),
    {
        let position = Position::new(self.current_file.clone(), line, column, length);
        let span = Span::single(position);
        let error_kind = match category {
            DiagnosticCategory::UndefinedVariable => ErrorKind::UndefinedVariable,
            DiagnosticCategory::TypeMismatch => ErrorKind::TypeMismatch,
            DiagnosticCategory::RedefinedSymbol => ErrorKind::RedefinedSymbol,
            DiagnosticCategory::UnusedVariable => ErrorKind::UnreachableCode,
            DiagnosticCategory::UnusedFunction => ErrorKind::UnreachableCode,
            DiagnosticCategory::InvalidOperation => ErrorKind::InvalidOperation,
            DiagnosticCategory::MissingReturn => ErrorKind::MissingReturn,
            DiagnosticCategory::UnreachableCode => ErrorKind::UnreachableCode,
            DiagnosticCategory::InvalidAccess => ErrorKind::InvalidAccess,
        };
        let mut compiler_error = CompilerError::new(message, error_kind, span);
        match suggestion {
            Some(t) => {
                compiler_error = compiler_error.with_suggestion(t);
            },
            None => {},
        }
        self.diagnostics.push(Diagnostic { error: compiler_error, severity, category });
        proof {
            assert(self@.diagnostics =~= add_diag(old(self)@, message@, severity, category, line, column, length, opt_text(suggestion)).diagnostics);
            assert(self@.scopes =~= old(self)@.scopes);
        }
    }

    /// Opens a scope inside the current one.
    fn enter_scope(&mut self, scope_type: ScopeType)
        requires
            old(self).wf(),
        ensures
            final(self).wf(),
            final(self)@ == enter(old(self)@, scope_kind(scope_type)),
    {
        let parent = Some(self.current_scope);
        let new_scope = Scope { symbols: Vec::new(), scope_type, parent };
        self.scopes.push(new_scope);
        self.current_scope = self.scopes.len() - 1;
        proof {
            let e = enter(old(self)@, scope_kind(scope_type));
            assert(self@.scopes[self@.scopes.len() - 1].symbols =~= Seq::<SymbolView>::empty());
            assert(self@.scopes =~= e.scopes);
            assert(self@.diagnostics =~= e.diagnostics);
        }
    }

    /// Closes the current scope and reports the symbols in it that were never used
    /// and whose names do not start with `_`.
    fn exit_scope(&mut self)
        requires
            old(self).wf(),
            old(self)@.scopes.len() >= 2,
        ensures
            final(self).wf(),
            final(self)@ == exit(old(self)@),
            final(self)@.scopes == old(self)@.scopes.drop_last(),
    {
        let last = self.scopes.len() - 1;
        match self.scopes[last].parent {
            Some(p) => {
                self.current_scope = p;
            },
            None => {},
        }
        let scope = self.scopes.pop().unwrap();
        let ghost st0 = AView { scopes: old(self)@.scopes.drop_last(), ..old(self)@ };
        let ghost syms = scope@.symbols;
        proof {
            assert(self@.scopes =~= st0.scopes);
            assert(self@ == st0);
        }
        let mut i: usize = 0;
        while i < scope.symbols.len()
            invariant
                self.wf(),
                i <= scope.symbols@.len(),
                syms == scope@.symbols,
                self@ == report_unused(st0, syms.take(i as int)),
                self@.scopes == st0.scopes,
            decreases scope.symbols@.len() - i,
        {
            proof {
                assert(syms.take(i as int + 1).drop_last() =~= syms.take(i as int));
            }
            let sym = &scope.symbols[i];
            let unused = !sym.is_used;
            let underscore = sym.name.as_str().unicode_len() > 0 && sym.name.as_str().get_char(0) == '_';
            if unused && !underscore {
                let message = text3("Unused variable '", sym.name.as_str(), "'");
                let suggestion = text3("Prefix with underscore if intentionally unused: '_", sym.name.as_str(), "'");
                self.add_diagnostic(
                    message,
                    DiagnosticSeverity::Warning,
                    DiagnosticCategory::UnusedVariable,
                    sym.line,
                    sym.column,
                    sym.name.as_str().len(),
                    Some(suggestion),
                );
            }
            i += 1;
        }
        proof {
            assert(syms.take(scope.symbols@.len() as int) =~= syms);
        }
    }

    /// The type an expression has, as far as it can be told without evaluating it.
    fn infer_expression_type(&self, expr: &ASTNode) -> (r: Type)
        requires
            self.wf(),
        ensures
            r@ == infer(self@, *expr),
        decreases expr,
    {
        match expr {
            ASTNode::NumberLiteral(_) => Type::Number,
            ASTNode::StringLiteral(_) => Type::String,
            ASTNode::BooleanLiteral(_) => Type::Boolean,
            ASTNode::ArrayLiteral(elements) => {
                if elements.len() == 0 {
                    let u = Type::Unknown;
                    assert(u@ == TypeView::Unknown);
                    Type::Array(Box::new(u))
                } else {
                    let first = self.infer_expression_type(&elements[0]);
                    assert(first@ == infer(self@, elements@[0]));
                    assert(infer(self@, *expr) == TypeView::Array(Box::new(infer(self@, elements@[0]))));
                    let r = Type::Array(Box::new(first));
                    assert(r@ == TypeView::Array(Box::new(first@)));
                    r
                }
            },
            ASTNode::Identifier(name) => match self.lookup_symbol(name.as_str()) {
                Some(s) => s.symbol_type.duplicate(),
                None => Type::Unknown,
            },
            ASTNode::IdentifierSpanned { name, .. } => match self.lookup_symbol(name.as_str()) {
                Some(s) => s.symbol_type.duplicate(),
                None => Type::Unknown,
            },
            ASTNode::BinaryExpr { op, .. } => match op {
                TokenKind::Plus | TokenKind::Minus | TokenKind::Star | TokenKind::Slash => Type::Number,
                TokenKind::DoubleEquals | TokenKind::NotEquals | TokenKind::LessThan | TokenKind::LessEqual
                | TokenKind::GreaterThan | TokenKind::GreaterEqual => Type::Boolean,
                _ => Type::Unknown,
            },
            _ => Type::Unknown,
        }
    }

    /// Whether a type is acceptable where another is expected.
    fn types_compatible(&self, actual: &Type, expected: &Type) -> (r: bool)
        ensures
            r == compatible(actual@, expected@),
    {
        match (actual, expected) {
            (Type::Unknown, _) | (_, Type::Unknown) => true,
            (Type::Any, _) | (_, Type::Any) => true,
            _ => actual.equals(expected),
        }
    }

    /// Where an expression stands, when it carries its location.
    fn get_expression_location(&self, expr: &ASTNode) -> (r: Option<SourceLocation>)
        ensures
            match *expr {
                ASTNode::IdentifierSpanned { line, column, len, .. } => r matches Some(l) && l.file@ == self@.file
                    && l.line == line && l.column == column && l.length == len,
                _ => r is None,
            },
    {
        match expr {
            ASTNode::IdentifierSpanned { line, column, len, .. } => Some(
                SourceLocation { file: self.current_file.clone(), line: *line, column: *column, length: *len },
            ),
            _ => None,
        }
    }

    /// Checks an expression against an expected type.
    fn check_expression_type(&mut self, expr: &ASTNode, expected: &Type)
        requires
            old(self).wf(),
        ensures
            final(self).wf(),
            final(self)@ == check_expr(old(self)@, *expr, expected@),
    {
        let actual = self.infer_expression_type(expr);
        if !self.types_compatible(&actual, expected) {
            match self.get_expression_location(expr) {
                Some(location) => {
                    let mut out: Vec<char> = Vec::new();
                    push_str_chars(&mut out, "Type mismatch: expected ");
                    expected.push_text(&mut out);
                    push_str_chars(&mut out, ", found ");
                    actual.push_text(&mut out);
                    assert(out@ =~= mismatch_text(expected@, actual@));
                    let message = string_from_chars(out.as_slice());
                    self.add_diagnostic(
                        message,
                        DiagnosticSeverity::Error,
                        DiagnosticCategory::TypeMismatch,
                        location.line,
                        location.column,
                        location.length,
                        None,
                    );
                },
                None => {},
            }
        }
    }

    /// Whether a body has a `return` statement among its statements.
    fn function_should_return(&self, body: &Vec<ASTNode>) -> (r: bool)
        ensures
            r == should_return(body@),
    {
        let mut i: usize = 0;
        while i < body.len()
            invariant
                i <= body@.len(),
                forall|j: int| 0 <= j < i ==> !(#[trigger] body@[j] is Return),
            decreases body@.len() - i,
        {
            if let ASTNode::Return(_) = &body[i] {
                return true;
            }
            i += 1;
        }
        false
    }

    /// The return type recorded in a function's signature.
    fn get_function_return_type(&self, name: &str) -> (r: Option<Type>)
        requires
            self.wf(),
        ensures
            match r {
                Some(t) => return_type_of(self@, name@) == Some(t@),
                None => return_type_of(self@, name@) is None,
            },
    {
        let es = &self.function_signatures;
        let mut i: usize = 0;
        while i < es.len()
            invariant
                self.wf(),
                *es == self.function_signatures,
                i <= es@.len(),
                forall|j: int| 0 <= j < i ==> (#[trigger] es@[j]).0@ != name@,
            decreases es@.len() - i,
        {
            if str_eq(es[i].0.as_str(), name) {
                proof {
                    let v = entries_view(es@);
                    assert(v[i as int].0 == name@);
                    assert(has_key(v, name@));
                    assert(key_index(v, name@) == i as int);
                }
                return match &es[i].1 {
                    Type::Function { return_type, .. } => {
                        proof {
                            lemma_function_view(es@[i as int].1->params, *return_type);
                        }
                        Some(return_type.duplicate())
                    },
                    _ => None,
                };
            }
            i += 1;
        }
        proof {
            assert(!has_key(entries_view(es@), name@));
        }
        None
    }

    /// Analyzes a tree: the diagnostics of an earlier analysis are dropped, the tree
    /// is visited, and the diagnostics are returned as the error when one of them is
    /// an error.
    pub fn analyze(&mut self, ast: &ASTNode) -> (r: Result<(), Vec<Diagnostic>>)
        requires
            old(self).wf(),
        ensures
            final(self).wf(),
            final(self)@ == visit(AView { diagnostics: Seq::empty(), ..old(self)@ }, *ast),
            final(self)@.scopes.len() == old(self)@.scopes.len(),
            match r {
                Ok(()) => !has_error(final(self)@.diagnostics),
                Err(ds) => has_error(final(self)@.diagnostics) && ds@.map_values(|d: Diagnostic| d@)
                    == final(self)@.diagnostics && forall|i: int| 0 <= i < ds@.len() ==> (#[trigger] ds@[i]).wf(),
            },
    {
        self.diagnostics.clear();
        proof {
            assert(self@ == AView { diagnostics: Seq::empty(), ..old(self)@ }) by {
                assert(self@.diagnostics =~= Seq::<DiagView>::empty());
            }
        }
        self.visit_node(ast);
        self.check_unused_symbols();
        self.check_undefined_references();
        if self.has_errors() {
            Err(self.clone_diagnostics())
        } else {
            Ok(())
        }
    }

    /// Unused symbols are reported when their scope closes; nothing is left to do
    /// after the visit.
    fn check_unused_symbols(&mut self)
        ensures
            *final(self) == *old(self),
    {
    }

    /// Undefined names are reported where they are used; nothing is left to do after
    /// the visit.
    fn check_undefined_references(&mut self)
        ensures
            *final(self) == *old(self),
    {
    }

    /// Visits a node.
    fn visit_node(&mut self, node: &ASTNode)
        requires
            old(self).wf(),
        ensures
            final(self).wf(),
            final(self)@ == visit(old(self)@, *node),
            final(self)@.scopes.len() == old(self)@.scopes.len(),
        decreases node, 1int,
    {
        match node {
            ASTNode::Program(statements) => {
                self.visit_nodes(statements);
            },
            ASTNode::Function { name, params, body, line, column, .. } => {
                self.visit_function_declaration(name.as_str(), params, body, *line, *column);
            },
            ASTNode::ClassDecl { name, methods, line, column, .. } => {
                self.visit_class_declaration(name.as_str(), methods, *line, *column);
            },
            ASTNode::StructDecl { name, fields, line, column } => {
                self.visit_struct_declaration(name.as_str(), fields, *line, *column);
            },
            ASTNode::TraitDecl { name, methods, line, column } => {
                self.visit_trait_declaration(name.as_str(), methods, *line, *column);
            },
            ASTNode::ImplBlock { trait_name, type_ident, methods, .. } => {
                self.visit_impl_block(trait_name, type_ident.as_str(), methods);
            },
            ASTNode::VariableDecl { name, value, line, column, .. } => {
                self.visit_variable_declaration(name.as_str(), &**value, *line, *column);
            },
            ASTNode::Assignment { name, value, line, column } => {
                self.visit_assignment(name.as_str(), &**value, *line, *column);
            },
            ASTNode::Block(statements) => {
                self.enter_scope(ScopeType::Block);
                self.visit_nodes(statements);
                self.exit_scope();
            },
            ASTNode::If { condition, then_branch, else_branch } => {
                let b = Type::Boolean;
                assert(b@ == TypeView::Boolean);
                self.check_expression_type(&**condition, &b);
                self.visit_node(&**then_branch);
                match else_branch {
                    Some(e) => {
                        self.visit_node(&**e);
                    },
                    None => {},
                }
            },
            ASTNode::While { condition, body } => {
                let b = Type::Boolean;
                assert(b@ == TypeView::Boolean);
                self.check_expression_type(&**condition, &b);
                self.visit_node(&**body);
            },
            ASTNode::MatchExpr { value, arms, .. } => {
                let value_type = self.infer_expression_type(&**value);
                self.visit_match_arms(arms, &value_type);
            },
            ASTNode::Return(expr) => {
                match &self.current_function {
                    Some(f) => {
                        let func_name = f.clone();
                        match self.get_function_return_type(func_name.as_str()) {
                            Some(expected_type) => {
                                self.check_expression_type(&**expr, &expected_type);
                            },
                            None => {},
                        }
                        self.has_return = true;
                    },
                    None => {
                        self.add_diagnostic(
                            owned("Return statement outside function"),
                            DiagnosticSeverity::Error,
                            DiagnosticCategory::InvalidOperation,
                            0,
                            0,
                            6,
                            None,
                        );
                    },
                }
            },
            _ => {
                self.visit_children(node);
            },
        }
    }

    /// Visits the children of the nodes that have no rule of their own.
    fn visit_children(&mut self, node: &ASTNode)
        requires
            old(self).wf(),
            !(node is Program || node is Function || node is ClassDecl || node is StructDecl || node is TraitDecl
                || node is ImplBlock || node is VariableDecl || node is Assignment || node is Block || node is If
                || node is While || node is MatchExpr || node is Return),
        ensures
            final(self).wf(),
            final(self)@ == visit(old(self)@, *node),
            final(self)@.scopes.len() == old(self)@.scopes.len(),
        decreases node, 0int,
    {
        match node {
            ASTNode::BinaryExpr { left, right, .. } => {
                self.visit_node(&**left);
                self.visit_node(&**right);
            },
            ASTNode::UnaryExpr { expr, .. } => {
                self.visit_node(&**expr);
            },
            ASTNode::Call { callee, args } => {
                self.visit_node(&**callee);
                self.visit_nodes(args);
            },
            ASTNode::ArrayLiteral(elements) => {
                self.visit_nodes(elements);
            },
            ASTNode::ObjectLiteral(fields) => {
                self.visit_values(fields);
            },
            _ => {},
        }
    }

    /// Visits nodes in order.
    fn visit_nodes(&mut self, nodes: &Vec<ASTNode>)
        requires
            old(self).wf(),
        ensures
            final(self).wf(),
            final(self)@ == visit_all(old(self)@, nodes@),
            final(self)@.scopes.len() == old(self)@.scopes.len(),
        decreases nodes, 0int,
    {
        let mut i: usize = 0;
        while i < nodes.len()
            invariant
                self.wf(),
                i <= nodes@.len(),
                self@ == visit_all(old(self)@, nodes@.take(i as int)),
                self@.scopes.len() == old(self)@.scopes.len(),
            decreases nodes@.len() - i,
        {
            proof {
                assert(nodes@.take(i as int + 1).drop_last() =~= nodes@.take(i as int));
            }
            self.visit_node(&nodes[i]);
            i += 1;
        }
        proof {
            assert(nodes@.take(nodes@.len() as int) =~= nodes@);
        }
    }

    /// Visits the values of `name: value` pairs in order.
    fn visit_values(&mut self, fields: &Vec<(String, ASTNode)>)
        requires
            old(self).wf(),
        ensures
            final(self).wf(),
            final(self)@ == visit_values(old(self)@, fields@),
            final(self)@.scopes.len() == old(self)@.scopes.len(),
        decreases fields, 0int,
    {
        let mut i: usize = 0;
        while i < fields.len()
            invariant
                self.wf(),
                i <= fields@.len(),
                self@ == visit_values(old(self)@, fields@.take(i as int)),
                self@.scopes.len() == old(self)@.scopes.len(),
            decreases fields@.len() - i,
        {
            proof {
                assert(fields@.take(i as int + 1).drop_last() =~= fields@.take(i as int));
            }
            self.visit_node(&fields[i].1);
            i += 1;
        }
        proof {
            assert(fields@.take(fields@.len() as int) =~= fields@);
        }
    }

    /// Checks match arms in order against the type of the matched value.
    fn visit_match_arms(&mut self, arms: &Vec<MatchArm>, value_type: &Type)
        requires
            old(self).wf(),
        ensures
            final(self).wf(),
            final(self)@ == visit_arms(old(self)@, arms@, value_type@),
            final(self)@.scopes.len() == old(self)@.scopes.len(),
        decreases arms, 0int,
    {
        let mut i: usize = 0;
        while i < arms.len()
            invariant
                self.wf(),
                i <= arms@.len(),
                self@ == visit_arms(old(self)@, arms@.take(i as int), value_type@),
                self@.scopes.len() == old(self)@.scopes.len(),
            decreases arms@.len() - i,
        {
            proof {
                assert(arms@.take(i as int + 1).drop_last() =~= arms@.take(i as int));
            }
            self.check_match_arm(&arms[i], value_type);
            i += 1;
        }
        proof {
            assert(arms@.take(arms@.len() as int) =~= arms@);
        }
    }

    /// Checks one match arm: its pattern against the value's type, its guard against
    /// `boolean`; then visits its body.
    fn check_match_arm(&mut self, arm: &MatchArm, value_type: &Type)
        requires
            old(self).wf(),
        ensures
            final(self).wf(),
            final(self)@ == check_arm(old(self)@, *arm, value_type@),
            final(self)@.scopes.len() == old(self)@.scopes.len(),
        decreases arm, 1int,
    {
        let pattern_type = self.infer_expression_type(&arm.pattern);
        if !self.types_compatible(&pattern_type, value_type) {
            let mut out: Vec<char> = Vec::new();
            push_str_chars(&mut out, "Pattern type ");
            pattern_type.push_text(&mut out);
            push_str_chars(&mut out, " doesn't match value type ");
            value_type.push_text(&mut out);
            let message = string_from_chars(out.as_slice());
            self.add_diagnostic(
                message,
                DiagnosticSeverity::Error,
                DiagnosticCategory::TypeMismatch,
                arm.line,
                arm.column,
                1,
                None,
            );
        }
        match &arm.guard {
            Some(guard) => {
                let b = Type::Boolean;
                assert(b@ == TypeView::Boolean);
                self.check_expression_type(guard, &b);
            },
            None => {},
        }
        self.visit_node(&arm.body);
    }

    /// A function declaration (see `function_decl`).
    fn visit_function_declaration(
        &mut self,
        name: &str,
        params: &Vec<FunctionParam>,
        body: &Vec<ASTNode>,
        line: usize,
        column: usize,
    )
        requires
            old(self).wf(),
        ensures
            final(self).wf(),
            final(self)@ == function_decl(old(self)@, name@, params@, *body, line, column),
            final(self)@.scopes.len() == old(self)@.scopes.len(),
        decreases body, 2int,
    {
        if self.symbol_exists_in_current_scope(name) {
            self.add_diagnostic(
                text3("Function '", name, "' is already defined"),
                DiagnosticSeverity::Error,
                DiagnosticCategory::RedefinedSymbol,
                line,
                column,
                name.len(),
                Some(owned("Consider using a different name or removing the duplicate definition")),
            );
            return;
        }
        let ghost st = self@;
        let mut param_types: Vec<Type> = Vec::new();
        let mut i: usize = 0;
        while i < params.len()
            invariant
                i <= params@.len(),
                param_types@.len() == i,
                forall|j: int| 0 <= j < i ==> (#[trigger] param_types@[j])@ == TypeView::Unknown,
            decreases params@.len() - i,
        {
            let u = Type::Unknown;
            assert(u@ == TypeView::Unknown);
            param_types.push(u);
            i += 1;
        }
        assert(types_view(param_types@) =~= unknowns(params@.len()));
        let u = Type::Unknown;
        assert(u@ == TypeView::Unknown);
        let func_type = Type::function(param_types, u);
        let sig_type = func_type.duplicate();
        self.declare_symbol(name, func_type, line, column, false);
        let ghost st1 = self@;
        insert_named_type(&mut self.function_signatures, name, sig_type);
        proof {
            assert(self@.scopes =~= st1.scopes);
            assert(self@ == AView { signatures: insert_entry(st1.signatures, name@, sig_type@), ..st1 });
        }
        self.enter_scope(ScopeType::Function(owned(name)));
        self.current_function = Some(owned(name));
        self.has_return = false;
        let ghost st4 = self@;
        let mut k: usize = 0;
        while k < params.len()
            invariant
                self.wf(),
                k <= params@.len(),
                self@ == declare_params(st4, params@.take(k as int)),
                self@.scopes.len() == st.scopes.len() + 1,
            decreases params@.len() - k,
        {
            proof {
                assert(params@.take(k as int + 1).drop_last() =~= params@.take(k as int));
            }
            let u = Type::Unknown;
            assert(u@ == TypeView::Unknown);
            self.declare_symbol(params[k].name.as_str(), u, params[k].line, params[k].column, true);
            k += 1;
        }
        proof {
            assert(params@.take(params@.len() as int) =~= params@);
        }
        self.visit_nodes(body);
        if !self.has_return && self.function_should_return(body) {
            self.add_diagnostic(
                text3("Function '", name, "' should return a value"),
                DiagnosticSeverity::Warning,
                DiagnosticCategory::MissingReturn,
                line,
                column,
                name.len(),
                Some(owned("Add a return statement or change function to return void")),
            );
        }
        self.current_function = None;
        self.exit_scope();
    }

    /// A class declaration (see `class_decl`).
    fn visit_class_declaration(&mut self, name: &str, methods: &Vec<ASTNode>, line: usize, column: usize)
        requires
            old(self).wf(),
        ensures
            final(self).wf(),
            final(self)@ == class_decl(old(self)@, name@, *methods, line, column),
            final(self)@.scopes.len() == old(self)@.scopes.len(),
        decreases methods, 2int,
    {
        let class_type = Type::Class(owned(name));
        let recorded = class_type.duplicate();
        self.declare_symbol(name, class_type, line, column, false);
        let ghost st1 = self@;
        insert_named_type(&mut self.user_types, name, recorded);
        proof {
            assert(self@.scopes =~= st1.scopes);
        }
        self.enter_scope(ScopeType::Class(owned(name)));
        self.visit_nodes(methods);
        self.exit_scope();
    }

    /// A struct declaration (see `struct_decl`).
    fn visit_struct_declaration(&mut self, name: &str, fields: &Vec<StructField>, line: usize, column: usize)
        requires
            old(self).wf(),
        ensures
            final(self).wf(),
            final(self)@ == struct_decl(old(self)@, name@, fields@, line, column),
            final(self)@.scopes.len() == old(self)@.scopes.len(),
    {
        let struct_type = Type::Struct(owned(name));
        let recorded = struct_type.duplicate();
        self.declare_symbol(name, struct_type, line, column, false);
        let ghost st1 = self@;
        insert_named_type(&mut self.user_types, name, recorded);
        let mut field_types_vec: Vec<(String, Type)> = Vec::new();
        let mut i: usize = 0;
        while i < fields.len()
            invariant
                i <= fields@.len(),
                keys_unique(entries_view(field_types_vec@)),
                entries_view(field_types_vec@) == field_types(fields@.take(i as int)),
            decreases fields@.len() - i,
        {
            proof {
                assert(fields@.take(i as int + 1).drop_last() =~= fields@.take(i as int));
            }
            let u = Type::Unknown;
            assert(u@ == TypeView::Unknown);
            insert_named_type(&mut field_types_vec, fields[i].name.as_str(), u);
            i += 1;
        }
        proof {
            assert(fields@.take(fields@.len() as int) =~= fields@);
            lemma_object_view(field_types_vec);
        }
        let instance = concat(name, "_instance");
        insert_named_type(&mut self.user_types, instance.as_str(), Type::Object(field_types_vec));
        proof {
            assert(self@.scopes =~= st1.scopes);
        }
    }

    /// A trait declaration (see `trait_decl`).
    fn visit_trait_declaration(&mut self, name: &str, methods: &Vec<ASTNode>, line: usize, column: usize)
        requires
            old(self).wf(),
        ensures
            final(self).wf(),
            final(self)@ == trait_decl(old(self)@, name@, *methods, line, column),
            final(self)@.scopes.len() == old(self)@.scopes.len(),
        decreases methods, 2int,
    {
        let trait_type = Type::Trait(owned(name));
        let recorded = trait_type.duplicate();
        self.declare_symbol(name, trait_type, line, column, false);
        let ghost st1 = self@;
        insert_named_type(&mut self.user_types, name, recorded);
        proof {
            assert(self@.scopes =~= st1.scopes);
        }
        self.enter_scope(ScopeType::Trait(owned(name)));
        self.visit_nodes(methods);
        self.exit_scope();
    }

    /// An impl block (see `impl_block`).
    fn visit_impl_block(&mut self, trait_name: &Option<String>, type_ident_name: &str, methods: &Vec<ASTNode>)
        requires
            old(self).wf(),
        ensures
            final(self).wf(),
            final(self)@ == impl_block(old(self)@, opt_text(*trait_name), type_ident_name@, *methods),
            final(self)@.scopes.len() == old(self)@.scopes.len(),
        decreases methods, 2int,
    {
        let tn = match trait_name {
            Some(t) => Some(t.clone()),
            None => None,
        };
        self.enter_scope(ScopeType::ImplBlock { trait_name: tn, type_ident: owned(type_ident_name) });
        self.visit_nodes(methods);
        self.exit_scope();
    }

    /// A variable declaration (see `variable_decl`).
    fn visit_variable_declaration(&mut self, name: &str, value: &ASTNode, line: usize, column: usize)
        requires
            old(self).wf(),
        ensures
            final(self).wf(),
            final(self)@ == variable_decl(old(self)@, name@, *value, line, column),
            final(self)@.scopes.len() == old(self)@.scopes.len(),
        decreases value, 2int,
    {
        if self.symbol_exists_in_current_scope(name) {
            self.add_diagnostic(
                text3("Variable '", name, "' is already defined in this scope"),
                DiagnosticSeverity::Error,
                DiagnosticCategory::RedefinedSymbol,
                line,
                column,
                name.len(),
                Some(owned("Consider using a different name")),
            );
            return;
        }
        let var_type = self.infer_expression_type(value);
        self.declare_symbol(name, var_type, line, column, true);
        self.visit_node(value);
    }

    /// An assignment (see `assignment`).
    fn visit_assignment(&mut self, name: &str, value: &ASTNode, line: usize, column: usize)
        requires
            old(self).wf(),
        ensures
            final(self).wf(),
            final(self)@ == assignment(old(self)@, name@, *value, line, column),
            final(self)@.scopes.len() == old(self)@.scopes.len(),
        decreases value, 2int,
    {
        let info = match self.lookup_symbol(name) {
            Some(s) => Some((s.is_mutable, s.symbol_type.duplicate())),
            None => None,
        };
        match info {
            Some((is_mutable, expected_type)) => {
                if !is_mutable {
                    self.add_diagnostic(
                        text3("Cannot assign to immutable variable '", name, "'"),
                        DiagnosticSeverity::Error,
                        DiagnosticCategory::InvalidOperation,
                        line,
                        column,
                        name.len(),
                        Some(owned("Declare the variable as mutable")),
                    );
                }
                self.check_expression_type(value, &expected_type);
                self.mark_symbol_used(name);
            },
            None => {
                self.add_diagnostic(
                    text3("Undefined variable '", name, "'"),
                    DiagnosticSeverity::Error,
                    DiagnosticCategory::UndefinedVariable,
                    line,
                    column,
                    name.len(),
                    Some(text3("Did you mean to declare it with 'let ", name, "'?")),
                );
            },
        }
        self.visit_node(value);
    }

    /// Copies of the diagnostics.
    fn clone_diagnostics(&self) -> (r: Vec<Diagnostic>)
        requires
            self.wf(),
        ensures
            r@.map_values(|d: Diagnostic| d@) == self@.diagnostics,
            forall|i: int| 0 <= i < r@.len() ==> (#[trigger] r@[i]).wf(),
    {
        let mut out: Vec<Diagnostic> = Vec::new();
        let mut i: usize = 0;
        while i < self.diagnostics.len()
            invariant
                self.wf(),
                i <= self.diagnostics@.len(),
                out@.len() == i,
                forall|j: int| 0 <= j < i ==> (#[trigger] out@[j])@ == self.diagnostics@[j]@,
                forall|j: int| 0 <= j < i ==> (#[trigger] out@[j]).wf(),
            decreases self.diagnostics@.len() - i,
        {
            let d = self.diagnostics[i].duplicate();
            out.push(d);
            i += 1;
        }
        assert(out@.map_values(|d: Diagnostic| d@) =~= self@.diagnostics);
        out
    }

    /// Declares a symbol in the current scope, replacing one of the same name.
    fn declare_symbol(&mut self, name: &str, symbol_type: Type, line: usize, column: usize, is_mutable: bool)
        requires
            old(self).wf(),
        ensures
            final(self).wf(),
            final(self)@ == declare(old(self)@, name@, symbol_type@, line, column, is_mutable),
    {
        let symbol = Symbol {
            name: owned(name),
            symbol_type,
            line,
            column,
            is_mutable,
            is_used: false,
            scope_depth: self.current_scope,
        };
        let mut scope = self.scopes.pop().unwrap();
        let ghost syms = scope@.symbols;
        let n = scope.symbols.len();
        let mut i: usize = 0;
        let mut found = false;
        while i < n && !found
            invariant
                n == scope.symbols@.len(),
                syms == scope@.symbols,
                i <= n,
                symbol.name@ == name@,
                found ==> i < n && syms[i as int].name == name@,
                !found ==> forall|j: int| 0 <= j < i ==> (#[trigger] syms[j]).name != name@,
            decreases n - i + (if found { 0int } else { 1int }),
        {
            if scope.symbols[i].name == symbol.name {
                found = true;
            } else {
                i += 1;
            }
        }
        proof {
            assert(names_unique(syms)) by {
                assert(old(self)@.scopes[old(self)@.scopes.len() - 1] == scope@);
            }
            if found {
                assert(has_symbol(syms, name@));
                assert(symbol_index(syms, name@) == i as int);
            } else {
                assert(!has_symbol(syms, name@));
            }
        }
        if found {
            scope.symbols.set(i, symbol);
        } else {
            scope.symbols.push(symbol);
        }
        proof {
            assert(scope@.symbols =~= insert_symbol(syms, symbol@));
        }
        self.scopes.push(scope);
        proof {
            let d = declare(old(self)@, name@, symbol_type@, line, column, is_mutable);
            assert(self@.scopes =~= d.scopes);
            assert(names_unique(self@.scopes[self@.scopes.len() - 1].symbols));
        }
    }

    /// The symbol a name resolves to, searching from the current scope outwards.
    fn lookup_symbol(&self, name: &str) -> (r: Option<&Symbol>)
        requires
            self.wf(),
        ensures
            match r {
                Some(s) => lookup(self@, name@) == Some(s@),
                None => lookup(self@, name@) is None,
            },
    {
        let mut k: usize = self.scopes.len();
        while k > 0
            invariant
                self.wf(),
                k <= self.scopes@.len(),
                lookup(self@, name@) == lookup_in(self@.scopes, k as int, name@),
            decreases k,
        {
            let sc = &self.scopes[k - 1];
            let n = sc.symbols.len();
            let mut i: usize = 0;
            while i < n
                invariant
                    self.wf(),
                    0 < k <= self.scopes@.len(),
                    *sc == self.scopes@[k - 1],
                    lookup(self@, name@) == lookup_in(self@.scopes, k as int, name@),
                    n == sc.symbols@.len(),
                    i <= n,
                    forall|j: int| 0 <= j < i ==> (#[trigger] sc.symbols@[j]).name@ != name@,
                decreases n - i,
            {
                if str_eq(sc.symbols[i].name.as_str(), name) {
                    proof {
                        let syms = self@.scopes[k - 1].symbols;
                        assert(syms == sc@.symbols);
                        assert(names_unique(syms));
                        assert(syms[i as int].name == name@);
                        assert(has_symbol(syms, name@));
                        assert(symbol_index(syms, name@) == i as int);
                    }
                    return Some(&sc.symbols[i]);
                }
                i += 1;
            }
            proof {
                let syms = self@.scopes[k - 1].symbols;
                assert(syms == sc@.symbols);
                assert(!has_symbol(syms, name@));
            }
            k -= 1;
        }
        None
    }

    /// Whether the current scope declares a name.
    fn symbol_exists_in_current_scope(&self, name: &str) -> (r: bool)
        requires
            self.wf(),
        ensures
            r == has_symbol(self@.scopes[self@.scopes.len() - 1].symbols, name@),
    {
        let sc = &self.scopes[self.current_scope];
        let n = sc.symbols.len();
        let mut i: usize = 0;
        while i < n
            invariant
                self.wf(),
                *sc == self.scopes@[self.scopes@.len() - 1],
                n == sc.symbols@.len(),
                i <= n,
                forall|j: int| 0 <= j < i ==> (#[trigger] sc.symbols@[j]).name@ != name@,
            decreases n - i,
        {
            if str_eq(sc.symbols[i].name.as_str(), name) {
                assert(self@.scopes[self@.scopes.len() - 1].symbols[i as int].name == name@);
                return true;
            }
            i += 1;
        }
        assert(self@.scopes[self@.scopes.len() - 1].symbols == sc@.symbols);
        assert(!has_symbol(sc@.symbols, name@));
        false
    }

    /// Marks the symbol a name resolves to as used.
    fn mark_symbol_used(&mut self, name: &str)
        requires
            old(self).wf(),
        ensures
            final(self).wf(),
            final(self)@ == mark_used(old(self)@, name@),
            final(self)@.scopes.len() == old(self)@.scopes.len(),
    {
        let mut k: usize = self.scopes.len();
        let mut done = false;
        while k > 0 && !done
            invariant
                self.wf(),
                *self == *old(self),
                k <= self.scopes@.len(),
                !done ==> scope_of(self@.scopes, self@.scopes.len() as int, name@) == scope_of(self@.scopes, k as int, name@),
                done ==> k > 0 && scope_of(self@.scopes, self@.scopes.len() as int, name@) == k - 1
                    && has_symbol(self@.scopes[k - 1].symbols, name@),
            decreases k + (if done { 0int } else { 1int }),
        {
            let sc = &self.scopes[k - 1];
            let n = sc.symbols.len();
            let mut i: usize = 0;
            let mut hit = false;
            while i < n && !hit
                invariant
                    self.wf(),
                    0 < k <= self.scopes@.len(),
                    *sc == self.scopes@[k - 1],
                    n == sc.symbols@.len(),
                    i <= n,
                    hit ==> i < n && sc.symbols@[i as int].name@ == name@,
                    !hit ==> forall|j: int| 0 <= j < i ==> (#[trigger] sc.symbols@[j]).name@ != name@,
                decreases n - i + (if hit { 0int } else { 1int }),
            {
                if str_eq(sc.symbols[i].name.as_str(), name) {
                    hit = true;
                } else {
                    i += 1;
                }
            }
            if hit {
                assert(has_symbol(self@.scopes[k - 1].symbols, name@)) by {
                    assert(self@.scopes[k - 1].symbols[i as int].name == name@);
                }
                done = true;
            } else {
                assert(!has_symbol(self@.scopes[k - 1].symbols, name@)) by {
                    assert(self@.scopes[k - 1].symbols == sc@.symbols);
                }
                k -= 1;
            }
        }
        if done {
            let j = k - 1;
            let mut scope = self.scopes.remove(j);
            let ghost syms = scope@.symbols;
            let n = scope.symbols.len();
            let mut i: usize = 0;
            let mut hit = false;
            while i < n && !hit
                invariant
                    n == scope.symbols@.len(),
                    syms == scope@.symbols,
                    i <= n,
                    hit ==> i < n && syms[i as int].name == name@,
                    !hit ==> forall|x: int| 0 <= x < i ==> (#[trigger] syms[x]).name != name@,
                decreases n - i + (if hit { 0int } else { 1int }),
            {
                if str_eq(scope.symbols[i].name.as_str(), name) {
                    hit = true;
                } else {
                    i += 1;
                }
            }
            proof {
                assert(syms == old(self)@.scopes[j as int].symbols);
                assert(names_unique(syms));
                assert(has_symbol(syms, name@));
                assert(hit);
                assert(symbol_index(syms, name@) == i as int);
            }
            let mut sym = scope.symbols.remove(i);
            sym.is_used = true;
            scope.symbols.insert(i, sym);
            proof {
                let s0 = syms[i as int];
                assert(scope@.symbols =~= syms.update(i as int, SymbolView { is_used: true, ..s0 }));
            }
            self.scopes.insert(j, scope);
            proof {
                let m = mark_used(old(self)@, name@);
                assert(self@.scopes =~= m.scopes);
                assert forall|x: int| 0 <= x < self@.scopes.len() implies names_unique(#[trigger] self@.scopes[x].symbols) by {
                    if x == j as int {
                        assert forall|a: int, b: int| 0 <= a < b < self@.scopes[x].symbols.len() implies
                            #[trigger] self@.scopes[x].symbols[a].name != #[trigger] self@.scopes[x].symbols[b].name by {
                            assert(syms[a].name != syms[b].name);
                        }
                    }
                }
            }
        } else {
            proof {
                assert(scope_of(self@.scopes, self@.scopes.len() as int, name@) == -1);
            }
        }
    }
}

/// Inserts a named type into a table: an entry with the same name is replaced,
/// else the entry is appended.
fn insert_named_type(es: &mut Vec<(String, Type)>, key: &str, value: Type)
    requires
        keys_unique(entries_view(old(es)@)),
    ensures
        keys_unique(entries_view(final(es)@)),
        entries_view(final(es)@) == insert_entry(entries_view(old(es)@), key@, value@),
{
    let ghost v0 = entries_view(es@);
    let n = es.len();
    let mut i: usize = 0;
    let mut found = false;
    while i < n && !found
        invariant
            n == es@.len(),
            *es == *old(es),
            v0 == entries_view(es@),
            i <= n,
            found ==> i < n && v0[i as int].0 == key@,
            !found ==> forall|j: int| 0 <= j < i ==> (#[trigger] v0[j]).0 != key@,
        decreases n - i + (if found { 0int } else { 1int }),
    {
        if str_eq(es[i].0.as_str(), key) {
            found = true;
        } else {
            i += 1;
        }
    }
    proof {
        if found {
            assert(has_key(v0, key@));
            assert(key_index(v0, key@) == i as int);
        } else {
            assert(!has_key(v0, key@));
        }
    }
    let entry = (owned(key), value);
    if found {
        es.set(i, entry);
    } else {
        es.push(entry);
    }
    proof {
        assert(entries_view(es@) =~= insert_entry(v0, key@, value@));
    }
}

/// Whether two string slices hold the same text.
fn str_eq(a: &str, b: &str) -> (r: bool)
    ensures
        r == (a@ == b@),
{
    let n = a.unicode_len();
    if n != b.unicode_len() {
        return false;
    }
    let mut i: usize = 0;
    while i < n
        invariant
            n == a@.len(),
            n == b@.len(),
            i <= n,
            forall|j: int| 0 <= j < i ==> a@[j] == b@[j],
        decreases n - i,
    {
        if a.get_char(i) != b.get_char(i) {
            return false;
        }
        i += 1;
    }
    assert(a@ =~= b@);
    true
}

} // verus!
