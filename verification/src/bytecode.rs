//! The instructions and bookkeeping of the bytecode compiler.

use vstd::prelude::*;

verus! {

/// An instruction. Operands index the constant pool, the locals, the globals or the
/// functions; jumps are relative.
#[derive(Debug, PartialEq, Eq, Structural, Clone, Copy)]
pub enum OpCode {
    LoadConst(u16),
    Pop,
    LoadLocal(u16),
    StoreLocal(u16),
    LoadGlobal(u16),
    StoreGlobal(u16),
    Add,
    Sub,
    Mul,
    Div,
    Eq,
    Ne,
    Lt,
    Le,
    Gt,
    Ge,
    Jump(i16),
    JumpIfFalse(i16),
    JumpIfTrue(i16),
    Call(u16, u8),
    Return,
    Print(u8),
    Len,
    TimeMs,
    Rand,
    Superpose,
    Entangle,
    Measure,
}

/// Counts of the optimizations made while compiling.
#[derive(Debug, PartialEq, Eq, Structural, Clone, Copy)]
pub struct OptStats {
    pub const_folds: u32,
    pub chain_folds: u32,
    pub dce_if: u32,
    pub dce_while: u32,
    pub dce_for: u32,
    pub pops_eliminated: u32,
}

impl Default for OptStats {
    /// No optimization made yet.
    fn default() -> (r: OptStats)
        ensures
            r == (OptStats { const_folds: 0, chain_folds: 0, dce_if: 0, dce_while: 0, dce_for: 0, pops_eliminated: 0 }),
    {
        OptStats { const_folds: 0, chain_folds: 0, dce_if: 0, dce_while: 0, dce_for: 0, pops_eliminated: 0 }
    }
}

/// A compiled function: where its code starts, how many locals it has, its name.
#[derive(Debug)]
pub struct FunctionInfo {
    pub start: usize,
    pub locals: u16,
    pub name: String,
}

} // verus!
