//! The statements and expressions of the intermediate representation the syntax
//! tree is lowered to.
//!
//! Number literals are carried as their decimal text, as in the syntax tree.

use vstd::prelude::*;

verus! {

/// A literal value.
#[derive(Debug, PartialEq)]
pub enum Lit {
    Number(String),
    String(String),
    Bool(bool),
    Null,
}

/// A binary operator.
#[derive(Debug, PartialEq, Eq, Structural, Clone, Copy)]
pub enum BinOp {
    Add,
    Sub,
    Mul,
    Div,
    Mod,
    Eq,
    Ne,
    Lt,
    Le,
    Gt,
    Ge,
    And,
    Or,
}

/// A unary operator.
#[derive(Debug, PartialEq, Eq, Structural, Clone, Copy)]
pub enum UnOp {
    Neg,
    Not,
}

/// An expression.
#[derive(Debug, PartialEq)]
pub enum Expr {
    Ident(String),
    Lit(Lit),
    Unary { op: UnOp, expr: Box<Expr> },
    Binary { left: Box<Expr>, op: BinOp, right: Box<Expr> },
    Call { callee: Box<Expr>, args: Vec<Expr> },
    Member { object: Box<Expr>, property: String },
    Array(Vec<Expr>),
    Object(Vec<(String, Expr)>),
}


/// A statement.
#[derive(Debug, PartialEq)]
pub enum Stmt {
    Expr(Expr),
    Let { name: String, value: Option<Expr> },
    Assign { target: Expr, value: Expr },
    Return(Option<Expr>),
    If { cond: Expr, then_block: Block, else_block: Option<Block> },
    While { cond: Expr, body: Block },
    For { init: Option<Box<Stmt>>, cond: Option<Expr>, step: Option<Box<Stmt>>, body: Block },
    Block(Vec<Stmt>),
}

/// A sequence of statements with a scope of its own.
#[derive(Debug, PartialEq)]
pub struct Block {
    pub stmts: Vec<Stmt>,
}

} // verus!
