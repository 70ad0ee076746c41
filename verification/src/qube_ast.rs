//! The syntax tree of QUBE, the quantum circuit notation.
//!
//! Numbers are carried as their decimal text; an amplitude is the text of a signed
//! decimal number (`1`, `-1`, `0.707`, `-0.707`, ...).

use vstd::prelude::*;

verus! {

/// A QUBE statement, or a whole program.
#[derive(Debug)]
pub enum QubeNode {
    Program(Vec<QubeNode>),
    /// `state name = expr`
    StateDecl { name: String, value: QubeExpr },
    /// `apply Gate(args) -> target`
    GateApply { gate: String, targets: Vec<String>, angle: Option<String> },
    /// `collapse state -> result`
    Collapse { state: String, result: String },
    /// `assert state ∈ {..}` or `assert state == value`
    Assert { state: String, op: AssertOp, values: Vec<QubeExpr> },
    /// `log(expr)`
    Log(QubeExpr),
}

/// The relation an assertion checks.
#[derive(Debug, PartialEq, Eq, Structural, Clone, Copy)]
pub enum AssertOp {
    /// `∈ {set}`
    In,
    /// `== value`
    Eq,
}

/// A QUBE expression.
#[derive(Debug)]
pub enum QubeExpr {
    Ident(String),
    Number(String),
    QubitLiteral(String),
    Superposition(Vec<SuperpositionTerm>),
    Str(String),
}

/// One term `amplitude|state⟩` of a superposition.
#[derive(Debug)]
pub struct SuperpositionTerm {
    pub amplitude: String,
    pub state: String,
}

/// A superposition term as text.
pub ghost struct TermV {
    pub amplitude: Seq<char>,
    pub state: Seq<char>,
}

/// An expression with its texts as character sequences.
pub ghost enum QubeExprV {
    Ident(Seq<char>),
    Number(Seq<char>),
    QubitLiteral(Seq<char>),
    Superposition(Seq<TermV>),
    Str(Seq<char>),
}

/// A statement with its texts as character sequences.
pub ghost enum QubeNodeV {
    Program(Seq<QubeNodeV>),
    StateDecl { name: Seq<char>, value: QubeExprV },
    GateApply { gate: Seq<char>, targets: Seq<Seq<char>>, angle: Option<Seq<char>> },
    Collapse { state: Seq<char>, result: Seq<char> },
    Assert { state: Seq<char>, op: AssertOp, values: Seq<QubeExprV> },
    Log(QubeExprV),
}

impl View for SuperpositionTerm {
    type V = TermV;

    open spec fn view(&self) -> TermV {
        TermV { amplitude: self.amplitude@, state: self.state@ }
    }
}

impl View for QubeExpr {
    type V = QubeExprV;

    open spec fn view(&self) -> QubeExprV {
        match self {
            QubeExpr::Ident(s) => QubeExprV::Ident(s@),
            QubeExpr::Number(s) => QubeExprV::Number(s@),
            QubeExpr::QubitLiteral(s) => QubeExprV::QubitLiteral(s@),
            QubeExpr::Superposition(ts) => QubeExprV::Superposition(ts@.map_values(|t: SuperpositionTerm| t@)),
            QubeExpr::Str(s) => QubeExprV::Str(s@),
        }
    }
}

/// The model of a statement (a nested program counts as empty).
pub open spec fn stmt_view(n: QubeNode) -> QubeNodeV {
    match n {
        QubeNode::Program(_) => QubeNodeV::Program(Seq::empty()),
        QubeNode::StateDecl { name, value } => QubeNodeV::StateDecl { name: name@, value: value@ },
        QubeNode::GateApply { gate, targets, angle } => QubeNodeV::GateApply {
            gate: gate@,
            targets: targets@.map_values(|s: String| s@),
            angle: match angle {
                Some(a) => Some(a@),
                None => None,
            },
        },
        QubeNode::Collapse { state, result } => QubeNodeV::Collapse { state: state@, result: result@ },
        QubeNode::Assert { state, op, values } => QubeNodeV::Assert {
            state: state@,
            op,
            values: values@.map_values(|e: QubeExpr| e@),
        },
        QubeNode::Log(e) => QubeNodeV::Log(e@),
    }
}

impl View for QubeNode {
    type V = QubeNodeV;

    /// A program is the model of its statements.
    open spec fn view(&self) -> QubeNodeV {
        match self {
            QubeNode::Program(stmts) => QubeNodeV::Program(stmts@.map_values(|n: QubeNode| stmt_view(n))),
            _ => stmt_view(*self),
        }
    }
}

} // verus!
