//! Tokens produced by the lexer and read by the parsers.

use vstd::prelude::*;
use crate::text::{
    has_fraction, number_text, owned, push_number, push_str_chars, push_string_chars, str_debug, str_debug_text,
    string_from_chars,
};

verus! {

/// The kind of a token. Literal kinds carry their value; a number carries
/// its numeral as ASCII decimal text (digits with at most one `.`).
#[derive(Debug)]
pub enum TokenKind {
    Identifier(String),
    NumberLiteral(String),
    StringLiteral(String),
    BooleanLiteral(bool),
    QubitLiteral(String),
    HieroglyphicOp(String),
    EOF,
    Let,
    Fn,
    Function,
    Return,
    Log,
    Qubit,
    Class,
    Struct,
    Trait,
    Impl,
    Match,
    Superpose,
    Entangle,
    Measure,
    Dod,
    If,
    Else,
    For,
    While,
    In,
    Module,
    Import,
    Record,
    Enum,
    Use,
    Pub,
    Mut,
    As,
    Type,
    Where,
    Self_,
    Const,
    Static,
    Async,
    Await,
    Learn,
    Quantum,
    New,
    From,
    True,
    False,
    Null,
    FString,
    Plus,
    Minus,
    Star,
    Slash,
    Percent,
    Equals,
    DoubleEquals,
    NotEquals,
    LessThan,
    LessEqual,
    GreaterThan,
    GreaterEqual,
    AndAnd,
    OrOr,
    Bang,
    Exclamation,
    Ampersand,
    Pipe,
    Caret,
    Bind,
    Semicolon,
    Comma,
    Colon,
    DoubleColon,
    ColonColon,
    ColonEquals,
    Dot,
    Arrow,
    FatArrow,
    OpenParen,
    CloseParen,
    OpenBrace,
    CloseBrace,
    OpenBracket,
    CloseBracket,
    QuantumBind,
    QuantumIn,
    QuantumTensor,
    QuantumApprox,
    QuantumXor,
    QuantumOr,
    QuantumNot,
    QuantumGradient,
    QuantumGeq,
    QuantumLeq,
    QuantumImplies,
    QuantumLoop,
    QuantumModulo,
    QuantumBracketOpen,
    QuantumBracketClose,
    QuantumIndexOpen,
    QuantumIndexClose,
    ClassicalFunc,
    QuantumFunc,
    AIFunc,
    QuantumComment,
    BecauseComment,
    NoteComment,
    Attempt,
    Warning,
    Success,
    TimeBlock,
    SuperpositionState,
}

/// The mathematical value of a token kind: the same variants, with text as character sequences.
pub ghost enum KindValue {
    Identifier(Seq<char>),
    NumberLiteral(Seq<char>),
    StringLiteral(Seq<char>),
    BooleanLiteral(bool),
    QubitLiteral(Seq<char>),
    HieroglyphicOp(Seq<char>),
    EOF,
    Let,
    Fn,
    Function,
    Return,
    Log,
    Qubit,
    Class,
    Struct,
    Trait,
    Impl,
    Match,
    Superpose,
    Entangle,
    Measure,
    Dod,
    If,
    Else,
    For,
    While,
    In,
    Module,
    Import,
    Record,
    Enum,
    Use,
    Pub,
    Mut,
    As,
    Type,
    Where,
    Self_,
    Const,
    Static,
    Async,
    Await,
    Learn,
    Quantum,
    New,
    From,
    True,
    False,
    Null,
    FString,
    Plus,
    Minus,
    Star,
    Slash,
    Percent,
    Equals,
    DoubleEquals,
    NotEquals,
    LessThan,
    LessEqual,
    GreaterThan,
    GreaterEqual,
    AndAnd,
    OrOr,
    Bang,
    Exclamation,
    Ampersand,
    Pipe,
    Caret,
    Bind,
    Semicolon,
    Comma,
    Colon,
    DoubleColon,
    ColonColon,
    ColonEquals,
    Dot,
    Arrow,
    FatArrow,
    OpenParen,
    CloseParen,
    OpenBrace,
    CloseBrace,
    OpenBracket,
    CloseBracket,
    QuantumBind,
    QuantumIn,
    QuantumTensor,
    QuantumApprox,
    QuantumXor,
    QuantumOr,
    QuantumNot,
    QuantumGradient,
    QuantumGeq,
    QuantumLeq,
    QuantumImplies,
    QuantumLoop,
    QuantumModulo,
    QuantumBracketOpen,
    QuantumBracketClose,
    QuantumIndexOpen,
    QuantumIndexClose,
    ClassicalFunc,
    QuantumFunc,
    AIFunc,
    QuantumComment,
    BecauseComment,
    NoteComment,
    Attempt,
    Warning,
    Success,
    TimeBlock,
    SuperpositionState,
}

impl View for TokenKind {
    type V = KindValue;

    open spec fn view(&self) -> KindValue {
        match self {
            TokenKind::Identifier(a) => KindValue::Identifier(a@),
            TokenKind::NumberLiteral(a) => KindValue::NumberLiteral(a@),
            TokenKind::StringLiteral(a) => KindValue::StringLiteral(a@),
            TokenKind::BooleanLiteral(a) => KindValue::BooleanLiteral(*a),
            TokenKind::QubitLiteral(a) => KindValue::QubitLiteral(a@),
            TokenKind::HieroglyphicOp(a) => KindValue::HieroglyphicOp(a@),
            TokenKind::EOF => KindValue::EOF,
            TokenKind::Let => KindValue::Let,
            TokenKind::Fn => KindValue::Fn,
            TokenKind::Function => KindValue::Function,
            TokenKind::Return => KindValue::Return,
            TokenKind::Log => KindValue::Log,
            TokenKind::Qubit => KindValue::Qubit,
            TokenKind::Class => KindValue::Class,
            TokenKind::Struct => KindValue::Struct,
            TokenKind::Trait => KindValue::Trait,
            TokenKind::Impl => KindValue::Impl,
            TokenKind::Match => KindValue::Match,
            TokenKind::Superpose => KindValue::Superpose,
            TokenKind::Entangle => KindValue::Entangle,
            TokenKind::Measure => KindValue::Measure,
            TokenKind::Dod => KindValue::Dod,
            TokenKind::If => KindValue::If,
            TokenKind::Else => KindValue::Else,
            TokenKind::For => KindValue::For,
            TokenKind::While => KindValue::While,
            TokenKind::In => KindValue::In,
            TokenKind::Module => KindValue::Module,
            TokenKind::Import => KindValue::Import,
            TokenKind::Record => KindValue::Record,
            TokenKind::Enum => KindValue::Enum,
            TokenKind::Use => KindValue::Use,
            TokenKind::Pub => KindValue::Pub,
            TokenKind::Mut => KindValue::Mut,
            TokenKind::As => KindValue::As,
            TokenKind::Type => KindValue::Type,
            TokenKind::Where => KindValue::Where,
            TokenKind::Self_ => KindValue::Self_,
            TokenKind::Const => KindValue::Const,
            TokenKind::Static => KindValue::Static,
            TokenKind::Async => KindValue::Async,
            TokenKind::Await => KindValue::Await,
            TokenKind::Learn => KindValue::Learn,
            TokenKind::Quantum => KindValue::Quantum,
            TokenKind::New => KindValue::New,
            TokenKind::From => KindValue::From,
            TokenKind::True => KindValue::True,
            TokenKind::False => KindValue::False,
            TokenKind::Null => KindValue::Null,
            TokenKind::FString => KindValue::FString,
            TokenKind::Plus => KindValue::Plus,
            TokenKind::Minus => KindValue::Minus,
            TokenKind::Star => KindValue::Star,
            TokenKind::Slash => KindValue::Slash,
            TokenKind::Percent => KindValue::Percent,
            TokenKind::Equals => KindValue::Equals,
            TokenKind::DoubleEquals => KindValue::DoubleEquals,
            TokenKind::NotEquals => KindValue::NotEquals,
            TokenKind::LessThan => KindValue::LessThan,
            TokenKind::LessEqual => KindValue::LessEqual,
            TokenKind::GreaterThan => KindValue::GreaterThan,
            TokenKind::GreaterEqual => KindValue::GreaterEqual,
            TokenKind::AndAnd => KindValue::AndAnd,
            TokenKind::OrOr => KindValue::OrOr,
            TokenKind::Bang => KindValue::Bang,
            TokenKind::Exclamation => KindValue::Exclamation,
            TokenKind::Ampersand => KindValue::Ampersand,
            TokenKind::Pipe => KindValue::Pipe,
            TokenKind::Caret => KindValue::Caret,
            TokenKind::Bind => KindValue::Bind,
            TokenKind::Semicolon => KindValue::Semicolon,
            TokenKind::Comma => KindValue::Comma,
            TokenKind::Colon => KindValue::Colon,
            TokenKind::DoubleColon => KindValue::DoubleColon,
            TokenKind::ColonColon => KindValue::ColonColon,
            TokenKind::ColonEquals => KindValue::ColonEquals,
            TokenKind::Dot => KindValue::Dot,
            TokenKind::Arrow => KindValue::Arrow,
            TokenKind::FatArrow => KindValue::FatArrow,
            TokenKind::OpenParen => KindValue::OpenParen,
            TokenKind::CloseParen => KindValue::CloseParen,
            TokenKind::OpenBrace => KindValue::OpenBrace,
            TokenKind::CloseBrace => KindValue::CloseBrace,
            TokenKind::OpenBracket => KindValue::OpenBracket,
            TokenKind::CloseBracket => KindValue::CloseBracket,
            TokenKind::QuantumBind => KindValue::QuantumBind,
            TokenKind::QuantumIn => KindValue::QuantumIn,
            TokenKind::QuantumTensor => KindValue::QuantumTensor,
            TokenKind::QuantumApprox => KindValue::QuantumApprox,
            TokenKind::QuantumXor => KindValue::QuantumXor,
            TokenKind::QuantumOr => KindValue::QuantumOr,
            TokenKind::QuantumNot => KindValue::QuantumNot,
            TokenKind::QuantumGradient => KindValue::QuantumGradient,
            TokenKind::QuantumGeq => KindValue::QuantumGeq,
            TokenKind::QuantumLeq => KindValue::QuantumLeq,
            TokenKind::QuantumImplies => KindValue::QuantumImplies,
            TokenKind::QuantumLoop => KindValue::QuantumLoop,
            TokenKind::QuantumModulo => KindValue::QuantumModulo,
            TokenKind::QuantumBracketOpen => KindValue::QuantumBracketOpen,
            TokenKind::QuantumBracketClose => KindValue::QuantumBracketClose,
            TokenKind::QuantumIndexOpen => KindValue::QuantumIndexOpen,
            TokenKind::QuantumIndexClose => KindValue::QuantumIndexClose,
            TokenKind::ClassicalFunc => KindValue::ClassicalFunc,
            TokenKind::QuantumFunc => KindValue::QuantumFunc,
            TokenKind::AIFunc => KindValue::AIFunc,
            TokenKind::QuantumComment => KindValue::QuantumComment,
            TokenKind::BecauseComment => KindValue::BecauseComment,
            TokenKind::NoteComment => KindValue::NoteComment,
            TokenKind::Attempt => KindValue::Attempt,
            TokenKind::Warning => KindValue::Warning,
            TokenKind::Success => KindValue::Success,
            TokenKind::TimeBlock => KindValue::TimeBlock,
            TokenKind::SuperpositionState => KindValue::SuperpositionState,
        }
    }
}

impl TokenKind {
    /// Structural equality of token kinds, as `==` on them.
    pub fn same_as(&self, other: &TokenKind) -> (r: bool)
        ensures
            r == (self@ == other@),
    {
        match (self, other) {
            (TokenKind::Identifier(a), TokenKind::Identifier(b)) => *a == *b,
            (TokenKind::NumberLiteral(a), TokenKind::NumberLiteral(b)) => *a == *b,
            (TokenKind::StringLiteral(a), TokenKind::StringLiteral(b)) => *a == *b,
            (TokenKind::BooleanLiteral(a), TokenKind::BooleanLiteral(b)) => *a == *b,
            (TokenKind::QubitLiteral(a), TokenKind::QubitLiteral(b)) => *a == *b,
            (TokenKind::HieroglyphicOp(a), TokenKind::HieroglyphicOp(b)) => *a == *b,
            (TokenKind::EOF, TokenKind::EOF) => true,
            (TokenKind::Let, TokenKind::Let) => true,
            (TokenKind::Fn, TokenKind::Fn) => true,
            (TokenKind::Function, TokenKind::Function) => true,
            (TokenKind::Return, TokenKind::Return) => true,
            (TokenKind::Log, TokenKind::Log) => true,
            (TokenKind::Qubit, TokenKind::Qubit) => true,
            (TokenKind::Class, TokenKind::Class) => true,
            (TokenKind::Struct, TokenKind::Struct) => true,
            (TokenKind::Trait, TokenKind::Trait) => true,
            (TokenKind::Impl, TokenKind::Impl) => true,
            (TokenKind::Match, TokenKind::Match) => true,
            (TokenKind::Superpose, TokenKind::Superpose) => true,
            (TokenKind::Entangle, TokenKind::Entangle) => true,
            (TokenKind::Measure, TokenKind::Measure) => true,
            (TokenKind::Dod, TokenKind::Dod) => true,
            (TokenKind::If, TokenKind::If) => true,
            (TokenKind::Else, TokenKind::Else) => true,
            (TokenKind::For, TokenKind::For) => true,
            (TokenKind::While, TokenKind::While) => true,
            (TokenKind::In, TokenKind::In) => true,
            (TokenKind::Module, TokenKind::Module) => true,
            (TokenKind::Import, TokenKind::Import) => true,
            (TokenKind::Record, TokenKind::Record) => true,
            (TokenKind::Enum, TokenKind::Enum) => true,
            (TokenKind::Use, TokenKind::Use) => true,
            (TokenKind::Pub, TokenKind::Pub) => true,
            (TokenKind::Mut, TokenKind::Mut) => true,
            (TokenKind::As, TokenKind::As) => true,
            (TokenKind::Type, TokenKind::Type) => true,
            (TokenKind::Where, TokenKind::Where) => true,
            (TokenKind::Self_, TokenKind::Self_) => true,
            (TokenKind::Const, TokenKind::Const) => true,
            (TokenKind::Static, TokenKind::Static) => true,
            (TokenKind::Async, TokenKind::Async) => true,
            (TokenKind::Await, TokenKind::Await) => true,
            (TokenKind::Learn, TokenKind::Learn) => true,
            (TokenKind::Quantum, TokenKind::Quantum) => true,
            (TokenKind::New, TokenKind::New) => true,
            (TokenKind::From, TokenKind::From) => true,
            (TokenKind::True, TokenKind::True) => true,
            (TokenKind::False, TokenKind::False) => true,
            (TokenKind::Null, TokenKind::Null) => true,
            (TokenKind::FString, TokenKind::FString) => true,
            (TokenKind::Plus, TokenKind::Plus) => true,
            (TokenKind::Minus, TokenKind::Minus) => true,
            (TokenKind::Star, TokenKind::Star) => true,
            (TokenKind::Slash, TokenKind::Slash) => true,
            (TokenKind::Percent, TokenKind::Percent) => true,
            (TokenKind::Equals, TokenKind::Equals) => true,
            (TokenKind::DoubleEquals, TokenKind::DoubleEquals) => true,
            (TokenKind::NotEquals, TokenKind::NotEquals) => true,
            (TokenKind::LessThan, TokenKind::LessThan) => true,
            (TokenKind::LessEqual, TokenKind::LessEqual) => true,
            (TokenKind::GreaterThan, TokenKind::GreaterThan) => true,
            (TokenKind::GreaterEqual, TokenKind::GreaterEqual) => true,
            (TokenKind::AndAnd, TokenKind::AndAnd) => true,
            (TokenKind::OrOr, TokenKind::OrOr) => true,
            (TokenKind::Bang, TokenKind::Bang) => true,
            (TokenKind::Exclamation, TokenKind::Exclamation) => true,
            (TokenKind::Ampersand, TokenKind::Ampersand) => true,
            (TokenKind::Pipe, TokenKind::Pipe) => true,
            (TokenKind::Caret, TokenKind::Caret) => true,
            (TokenKind::Bind, TokenKind::Bind) => true,
            (TokenKind::Semicolon, TokenKind::Semicolon) => true,
            (TokenKind::Comma, TokenKind::Comma) => true,
            (TokenKind::Colon, TokenKind::Colon) => true,
            (TokenKind::DoubleColon, TokenKind::DoubleColon) => true,
            (TokenKind::ColonColon, TokenKind::ColonColon) => true,
            (TokenKind::ColonEquals, TokenKind::ColonEquals) => true,
            (TokenKind::Dot, TokenKind::Dot) => true,
            (TokenKind::Arrow, TokenKind::Arrow) => true,
            (TokenKind::FatArrow, TokenKind::FatArrow) => true,
            (TokenKind::OpenParen, TokenKind::OpenParen) => true,
            (TokenKind::CloseParen, TokenKind::CloseParen) => true,
            (TokenKind::OpenBrace, TokenKind::OpenBrace) => true,
            (TokenKind::CloseBrace, TokenKind::CloseBrace) => true,
            (TokenKind::OpenBracket, TokenKind::OpenBracket) => true,
            (TokenKind::CloseBracket, TokenKind::CloseBracket) => true,
            (TokenKind::QuantumBind, TokenKind::QuantumBind) => true,
            (TokenKind::QuantumIn, TokenKind::QuantumIn) => true,
            (TokenKind::QuantumTensor, TokenKind::QuantumTensor) => true,
            (TokenKind::QuantumApprox, TokenKind::QuantumApprox) => true,
            (TokenKind::QuantumXor, TokenKind::QuantumXor) => true,
            (TokenKind::QuantumOr, TokenKind::QuantumOr) => true,
            (TokenKind::QuantumNot, TokenKind::QuantumNot) => true,
            (TokenKind::QuantumGradient, TokenKind::QuantumGradient) => true,
            (TokenKind::QuantumGeq, TokenKind::QuantumGeq) => true,
            (TokenKind::QuantumLeq, TokenKind::QuantumLeq) => true,
            (TokenKind::QuantumImplies, TokenKind::QuantumImplies) => true,
            (TokenKind::QuantumLoop, TokenKind::QuantumLoop) => true,
            (TokenKind::QuantumModulo, TokenKind::QuantumModulo) => true,
            (TokenKind::QuantumBracketOpen, TokenKind::QuantumBracketOpen) => true,
            (TokenKind::QuantumBracketClose, TokenKind::QuantumBracketClose) => true,
            (TokenKind::QuantumIndexOpen, TokenKind::QuantumIndexOpen) => true,
            (TokenKind::QuantumIndexClose, TokenKind::QuantumIndexClose) => true,
            (TokenKind::ClassicalFunc, TokenKind::ClassicalFunc) => true,
            (TokenKind::QuantumFunc, TokenKind::QuantumFunc) => true,
            (TokenKind::AIFunc, TokenKind::AIFunc) => true,
            (TokenKind::QuantumComment, TokenKind::QuantumComment) => true,
            (TokenKind::BecauseComment, TokenKind::BecauseComment) => true,
            (TokenKind::NoteComment, TokenKind::NoteComment) => true,
            (TokenKind::Attempt, TokenKind::Attempt) => true,
            (TokenKind::Warning, TokenKind::Warning) => true,
            (TokenKind::Success, TokenKind::Success) => true,
            (TokenKind::TimeBlock, TokenKind::TimeBlock) => true,
            (TokenKind::SuperpositionState, TokenKind::SuperpositionState) => true,
            _ => false,
        }
    }

    /// A copy of this kind, equal to it.
    pub fn duplicate(&self) -> (r: TokenKind)
        ensures
            r == *self,
    {
        match self {
            TokenKind::Identifier(a) => TokenKind::Identifier(a.clone()),
            TokenKind::NumberLiteral(a) => TokenKind::NumberLiteral(a.clone()),
            TokenKind::StringLiteral(a) => TokenKind::StringLiteral(a.clone()),
            TokenKind::BooleanLiteral(a) => TokenKind::BooleanLiteral(*a),
            TokenKind::QubitLiteral(a) => TokenKind::QubitLiteral(a.clone()),
            TokenKind::HieroglyphicOp(a) => TokenKind::HieroglyphicOp(a.clone()),
            TokenKind::EOF => TokenKind::EOF,
            TokenKind::Let => TokenKind::Let,
            TokenKind::Fn => TokenKind::Fn,
            TokenKind::Function => TokenKind::Function,
            TokenKind::Return => TokenKind::Return,
            TokenKind::Log => TokenKind::Log,
            TokenKind::Qubit => TokenKind::Qubit,
            TokenKind::Class => TokenKind::Class,
            TokenKind::Struct => TokenKind::Struct,
            TokenKind::Trait => TokenKind::Trait,
            TokenKind::Impl => TokenKind::Impl,
            TokenKind::Match => TokenKind::Match,
            TokenKind::Superpose => TokenKind::Superpose,
            TokenKind::Entangle => TokenKind::Entangle,
            TokenKind::Measure => TokenKind::Measure,
            TokenKind::Dod => TokenKind::Dod,
            TokenKind::If => TokenKind::If,
            TokenKind::Else => TokenKind::Else,
            TokenKind::For => TokenKind::For,
            TokenKind::While => TokenKind::While,
            TokenKind::In => TokenKind::In,
            TokenKind::Module => TokenKind::Module,
            TokenKind::Import => TokenKind::Import,
            TokenKind::Record => TokenKind::Record,
            TokenKind::Enum => TokenKind::Enum,
            TokenKind::Use => TokenKind::Use,
            TokenKind::Pub => TokenKind::Pub,
            TokenKind::Mut => TokenKind::Mut,
            TokenKind::As => TokenKind::As,
            TokenKind::Type => TokenKind::Type,
            TokenKind::Where => TokenKind::Where,
            TokenKind::Self_ => TokenKind::Self_,
            TokenKind::Const => TokenKind::Const,
            TokenKind::Static => TokenKind::Static,
            TokenKind::Async => TokenKind::Async,
            TokenKind::Await => TokenKind::Await,
            TokenKind::Learn => TokenKind::Learn,
            TokenKind::Quantum => TokenKind::Quantum,
            TokenKind::New => TokenKind::New,
            TokenKind::From => TokenKind::From,
            TokenKind::True => TokenKind::True,
            TokenKind::False => TokenKind::False,
            TokenKind::Null => TokenKind::Null,
            TokenKind::FString => TokenKind::FString,
            TokenKind::Plus => TokenKind::Plus,
            TokenKind::Minus => TokenKind::Minus,
            TokenKind::Star => TokenKind::Star,
            TokenKind::Slash => TokenKind::Slash,
            TokenKind::Percent => TokenKind::Percent,
            TokenKind::Equals => TokenKind::Equals,
            TokenKind::DoubleEquals => TokenKind::DoubleEquals,
            TokenKind::NotEquals => TokenKind::NotEquals,
            TokenKind::LessThan => TokenKind::LessThan,
            TokenKind::LessEqual => TokenKind::LessEqual,
            TokenKind::GreaterThan => TokenKind::GreaterThan,
            TokenKind::GreaterEqual => TokenKind::GreaterEqual,
            TokenKind::AndAnd => TokenKind::AndAnd,
            TokenKind::OrOr => TokenKind::OrOr,
            TokenKind::Bang => TokenKind::Bang,
            TokenKind::Exclamation => TokenKind::Exclamation,
            TokenKind::Ampersand => TokenKind::Ampersand,
            TokenKind::Pipe => TokenKind::Pipe,
            TokenKind::Caret => TokenKind::Caret,
            TokenKind::Bind => TokenKind::Bind,
            TokenKind::Semicolon => TokenKind::Semicolon,
            TokenKind::Comma => TokenKind::Comma,
            TokenKind::Colon => TokenKind::Colon,
            TokenKind::DoubleColon => TokenKind::DoubleColon,
            TokenKind::ColonColon => TokenKind::ColonColon,
            TokenKind::ColonEquals => TokenKind::ColonEquals,
            TokenKind::Dot => TokenKind::Dot,
            TokenKind::Arrow => TokenKind::Arrow,
            TokenKind::FatArrow => TokenKind::FatArrow,
            TokenKind::OpenParen => TokenKind::OpenParen,
            TokenKind::CloseParen => TokenKind::CloseParen,
            TokenKind::OpenBrace => TokenKind::OpenBrace,
            TokenKind::CloseBrace => TokenKind::CloseBrace,
            TokenKind::OpenBracket => TokenKind::OpenBracket,
            TokenKind::CloseBracket => TokenKind::CloseBracket,
            TokenKind::QuantumBind => TokenKind::QuantumBind,
            TokenKind::QuantumIn => TokenKind::QuantumIn,
            TokenKind::QuantumTensor => TokenKind::QuantumTensor,
            TokenKind::QuantumApprox => TokenKind::QuantumApprox,
            TokenKind::QuantumXor => TokenKind::QuantumXor,
            TokenKind::QuantumOr => TokenKind::QuantumOr,
            TokenKind::QuantumNot => TokenKind::QuantumNot,
            TokenKind::QuantumGradient => TokenKind::QuantumGradient,
            TokenKind::QuantumGeq => TokenKind::QuantumGeq,
            TokenKind::QuantumLeq => TokenKind::QuantumLeq,
            TokenKind::QuantumImplies => TokenKind::QuantumImplies,
            TokenKind::QuantumLoop => TokenKind::QuantumLoop,
            TokenKind::QuantumModulo => TokenKind::QuantumModulo,
            TokenKind::QuantumBracketOpen => TokenKind::QuantumBracketOpen,
            TokenKind::QuantumBracketClose => TokenKind::QuantumBracketClose,
            TokenKind::QuantumIndexOpen => TokenKind::QuantumIndexOpen,
            TokenKind::QuantumIndexClose => TokenKind::QuantumIndexClose,
            TokenKind::ClassicalFunc => TokenKind::ClassicalFunc,
            TokenKind::QuantumFunc => TokenKind::QuantumFunc,
            TokenKind::AIFunc => TokenKind::AIFunc,
            TokenKind::QuantumComment => TokenKind::QuantumComment,
            TokenKind::BecauseComment => TokenKind::BecauseComment,
            TokenKind::NoteComment => TokenKind::NoteComment,
            TokenKind::Attempt => TokenKind::Attempt,
            TokenKind::Warning => TokenKind::Warning,
            TokenKind::Success => TokenKind::Success,
            TokenKind::TimeBlock => TokenKind::TimeBlock,
            TokenKind::SuperpositionState => TokenKind::SuperpositionState,
        }
    }
}

impl PartialEq for TokenKind {
    fn eq(&self, other: &TokenKind) -> (r: bool) {
        self.same_as(other)
    }
}

impl vstd::std_specs::cmp::PartialEqSpecImpl for TokenKind {
    open spec fn obeys_eq_spec() -> bool {
        true
    }

    open spec fn eq_spec(&self, other: &TokenKind) -> bool {
        self@ == other@
    }
}

impl Clone for TokenKind {
    fn clone(&self) -> (r: TokenKind)
        ensures
            r == *self,
    {
        self.duplicate()
    }
}

/// A lexed token: its kind, its source text and where it starts.
#[derive(Debug)]
pub struct Token {
    pub kind: TokenKind,
    pub lexeme: String,
    pub line: usize,
    pub column: usize,
}

impl Token {
    pub fn new(kind: TokenKind, lexeme: String, line: usize, column: usize) -> (r: Token)
        ensures
            r == (Token { kind, lexeme, line, column }),
    {
        Token { kind, lexeme, line, column }
    }

    /// A copy of this token, equal to it.
    pub fn duplicate(&self) -> (r: Token)
        ensures
            r == *self,
    {
        Token { kind: self.kind.duplicate(), lexeme: self.lexeme.clone(), line: self.line, column: self.column }
    }
}

impl Clone for Token {
    fn clone(&self) -> (r: Token)
        ensures
            r == *self,
    {
        self.duplicate()
    }
}


/// The mathematical value of a token.
pub ghost struct TokenValue {
    pub kind: KindValue,
    pub lexeme: Seq<char>,
    pub line: int,
    pub column: int,
}

impl View for Token {
    type V = TokenValue;

    open spec fn view(&self) -> TokenValue {
        TokenValue { kind: self.kind@, lexeme: self.lexeme@, line: self.line as int, column: self.column as int }
    }
}

/// The values of a sequence of tokens.
pub open spec fn token_values(ts: Seq<Token>) -> Seq<TokenValue> {
    ts.map_values(|t: Token| t@)
}


/// The text the derived `Debug` gives for a token kind: the variant's name, and a
/// literal's value in parentheses (text as `Debug` quotes it; a number as a double
/// prints, in its shortest decimal form with at least one digit after the point).
pub open spec fn kind_debug_text(k: KindValue) -> Seq<char> {
    match k {
        KindValue::Identifier(a) => "Identifier("@ + str_debug_text(a) + ")"@,
        KindValue::NumberLiteral(a) => "NumberLiteral("@ + number_text(a) + (if has_fraction(a) {
            Seq::empty()
        } else {
            ".0"@
        }) + ")"@,
        KindValue::StringLiteral(a) => "StringLiteral("@ + str_debug_text(a) + ")"@,
        KindValue::BooleanLiteral(b) => "BooleanLiteral("@ + (if b { "true"@ } else { "false"@ }) + ")"@,
        KindValue::QubitLiteral(a) => "QubitLiteral("@ + str_debug_text(a) + ")"@,
        KindValue::HieroglyphicOp(a) => "HieroglyphicOp("@ + str_debug_text(a) + ")"@,
        KindValue::EOF => "EOF"@,
        KindValue::Let => "Let"@,
        KindValue::Fn => "Fn"@,
        KindValue::Function => "Function"@,
        KindValue::Return => "Return"@,
        KindValue::Log => "Log"@,
        KindValue::Qubit => "Qubit"@,
        KindValue::Class => "Class"@,
        KindValue::Struct => "Struct"@,
        KindValue::Trait => "Trait"@,
        KindValue::Impl => "Impl"@,
        KindValue::Match => "Match"@,
        KindValue::Superpose => "Superpose"@,
        KindValue::Entangle => "Entangle"@,
        KindValue::Measure => "Measure"@,
        KindValue::Dod => "Dod"@,
        KindValue::If => "If"@,
        KindValue::Else => "Else"@,
        KindValue::For => "For"@,
        KindValue::While => "While"@,
        KindValue::In => "In"@,
        KindValue::Module => "Module"@,
        KindValue::Import => "Import"@,
        KindValue::Record => "Record"@,
        KindValue::Enum => "Enum"@,
        KindValue::Use => "Use"@,
        KindValue::Pub => "Pub"@,
        KindValue::Mut => "Mut"@,
        KindValue::As => "As"@,
        KindValue::Type => "Type"@,
        KindValue::Where => "Where"@,
        KindValue::Self_ => "Self_"@,
        KindValue::Const => "Const"@,
        KindValue::Static => "Static"@,
        KindValue::Async => "Async"@,
        KindValue::Await => "Await"@,
        KindValue::Learn => "Learn"@,
        KindValue::Quantum => "Quantum"@,
        KindValue::New => "New"@,
        KindValue::From => "From"@,
        KindValue::True => "True"@,
        KindValue::False => "False"@,
        KindValue::Null => "Null"@,
        KindValue::FString => "FString"@,
        KindValue::Plus => "Plus"@,
        KindValue::Minus => "Minus"@,
        KindValue::Star => "Star"@,
        KindValue::Slash => "Slash"@,
        KindValue::Percent => "Percent"@,
        KindValue::Equals => "Equals"@,
        KindValue::DoubleEquals => "DoubleEquals"@,
        KindValue::NotEquals => "NotEquals"@,
        KindValue::LessThan => "LessThan"@,
        KindValue::LessEqual => "LessEqual"@,
        KindValue::GreaterThan => "GreaterThan"@,
        KindValue::GreaterEqual => "GreaterEqual"@,
        KindValue::AndAnd => "AndAnd"@,
        KindValue::OrOr => "OrOr"@,
        KindValue::Bang => "Bang"@,
        KindValue::Exclamation => "Exclamation"@,
        KindValue::Ampersand => "Ampersand"@,
        KindValue::Pipe => "Pipe"@,
        KindValue::Caret => "Caret"@,
        KindValue::Bind => "Bind"@,
        KindValue::Semicolon => "Semicolon"@,
        KindValue::Comma => "Comma"@,
        KindValue::Colon => "Colon"@,
        KindValue::DoubleColon => "DoubleColon"@,
        KindValue::ColonColon => "ColonColon"@,
        KindValue::ColonEquals => "ColonEquals"@,
        KindValue::Dot => "Dot"@,
        KindValue::Arrow => "Arrow"@,
        KindValue::FatArrow => "FatArrow"@,
        KindValue::OpenParen => "OpenParen"@,
        KindValue::CloseParen => "CloseParen"@,
        KindValue::OpenBrace => "OpenBrace"@,
        KindValue::CloseBrace => "CloseBrace"@,
        KindValue::OpenBracket => "OpenBracket"@,
        KindValue::CloseBracket => "CloseBracket"@,
        KindValue::QuantumBind => "QuantumBind"@,
        KindValue::QuantumIn => "QuantumIn"@,
        KindValue::QuantumTensor => "QuantumTensor"@,
        KindValue::QuantumApprox => "QuantumApprox"@,
        KindValue::QuantumXor => "QuantumXor"@,
        KindValue::QuantumOr => "QuantumOr"@,
        KindValue::QuantumNot => "QuantumNot"@,
        KindValue::QuantumGradient => "QuantumGradient"@,
        KindValue::QuantumGeq => "QuantumGeq"@,
        KindValue::QuantumLeq => "QuantumLeq"@,
        KindValue::QuantumImplies => "QuantumImplies"@,
        KindValue::QuantumLoop => "QuantumLoop"@,
        KindValue::QuantumModulo => "QuantumModulo"@,
        KindValue::QuantumBracketOpen => "QuantumBracketOpen"@,
        KindValue::QuantumBracketClose => "QuantumBracketClose"@,
        KindValue::QuantumIndexOpen => "QuantumIndexOpen"@,
        KindValue::QuantumIndexClose => "QuantumIndexClose"@,
        KindValue::ClassicalFunc => "ClassicalFunc"@,
        KindValue::QuantumFunc => "QuantumFunc"@,
        KindValue::AIFunc => "AIFunc"@,
        KindValue::QuantumComment => "QuantumComment"@,
        KindValue::BecauseComment => "BecauseComment"@,
        KindValue::NoteComment => "NoteComment"@,
        KindValue::Attempt => "Attempt"@,
        KindValue::Warning => "Warning"@,
        KindValue::Success => "Success"@,
        KindValue::TimeBlock => "TimeBlock"@,
        KindValue::SuperpositionState => "SuperpositionState"@,
    }
}

/// `prefix`, the `Debug` form of `a`, and `)`.
fn wrapped_debug(prefix: &str, a: &String) -> (r: String)
    ensures
        r@ == prefix@ + str_debug_text(a@) + ")"@,
{
    let d = str_debug(a.as_str());
    let mut out: Vec<char> = Vec::new();
    push_str_chars(&mut out, prefix);
    push_string_chars(&mut out, &d);
    push_str_chars(&mut out, ")");
    string_from_chars(out.as_slice())
}

impl TokenKind {
    /// The kind as `Debug` writes it, with a number's value printed as a double is.
    pub fn debug_text(&self) -> (r: String)
        ensures
            r@ == kind_debug_text(self@),
    {
        match self {
            TokenKind::Identifier(a) => wrapped_debug("Identifier(", a),
            TokenKind::NumberLiteral(a) => {
                let mut out: Vec<char> = Vec::new();
                push_str_chars(&mut out, "NumberLiteral(");
                let frac = push_number(&mut out, a);
                if !frac {
                    push_str_chars(&mut out, ".0");
                }
                push_str_chars(&mut out, ")");
                string_from_chars(out.as_slice())
            },
            TokenKind::StringLiteral(a) => wrapped_debug("StringLiteral(", a),
            TokenKind::BooleanLiteral(b) => {
                let mut out: Vec<char> = Vec::new();
                push_str_chars(&mut out, "BooleanLiteral(");
                if *b {
                    push_str_chars(&mut out, "true");
                } else {
                    push_str_chars(&mut out, "false");
                }
                push_str_chars(&mut out, ")");
                string_from_chars(out.as_slice())
            },
            TokenKind::QubitLiteral(a) => wrapped_debug("QubitLiteral(", a),
            TokenKind::HieroglyphicOp(a) => wrapped_debug("HieroglyphicOp(", a),
            TokenKind::EOF => owned("EOF"),
            TokenKind::Let => owned("Let"),
            TokenKind::Fn => owned("Fn"),
            TokenKind::Function => owned("Function"),
            TokenKind::Return => owned("Return"),
            TokenKind::Log => owned("Log"),
            TokenKind::Qubit => owned("Qubit"),
            TokenKind::Class => owned("Class"),
            TokenKind::Struct => owned("Struct"),
            TokenKind::Trait => owned("Trait"),
            TokenKind::Impl => owned("Impl"),
            TokenKind::Match => owned("Match"),
            TokenKind::Superpose => owned("Superpose"),
            TokenKind::Entangle => owned("Entangle"),
            TokenKind::Measure => owned("Measure"),
            TokenKind::Dod => owned("Dod"),
            TokenKind::If => owned("If"),
            TokenKind::Else => owned("Else"),
            TokenKind::For => owned("For"),
            TokenKind::While => owned("While"),
            TokenKind::In => owned("In"),
            TokenKind::Module => owned("Module"),
            TokenKind::Import => owned("Import"),
            TokenKind::Record => owned("Record"),
            TokenKind::Enum => owned("Enum"),
            TokenKind::Use => owned("Use"),
            TokenKind::Pub => owned("Pub"),
            TokenKind::Mut => owned("Mut"),
            TokenKind::As => owned("As"),
            TokenKind::Type => owned("Type"),
            TokenKind::Where => owned("Where"),
            TokenKind::Self_ => owned("Self_"),
            TokenKind::Const => owned("Const"),
            TokenKind::Static => owned("Static"),
            TokenKind::Async => owned("Async"),
            TokenKind::Await => owned("Await"),
            TokenKind::Learn => owned("Learn"),
            TokenKind::Quantum => owned("Quantum"),
            TokenKind::New => owned("New"),
            TokenKind::From => owned("From"),
            TokenKind::True => owned("True"),
            TokenKind::False => owned("False"),
            TokenKind::Null => owned("Null"),
            TokenKind::FString => owned("FString"),
            TokenKind::Plus => owned("Plus"),
            TokenKind::Minus => owned("Minus"),
            TokenKind::Star => owned("Star"),
            TokenKind::Slash => owned("Slash"),
            TokenKind::Percent => owned("Percent"),
            TokenKind::Equals => owned("Equals"),
            TokenKind::DoubleEquals => owned("DoubleEquals"),
            TokenKind::NotEquals => owned("NotEquals"),
            TokenKind::LessThan => owned("LessThan"),
            TokenKind::LessEqual => owned("LessEqual"),
            TokenKind::GreaterThan => owned("GreaterThan"),
            TokenKind::GreaterEqual => owned("GreaterEqual"),
            TokenKind::AndAnd => owned("AndAnd"),
            TokenKind::OrOr => owned("OrOr"),
            TokenKind::Bang => owned("Bang"),
            TokenKind::Exclamation => owned("Exclamation"),
            TokenKind::Ampersand => owned("Ampersand"),
            TokenKind::Pipe => owned("Pipe"),
            TokenKind::Caret => owned("Caret"),
            TokenKind::Bind => owned("Bind"),
            TokenKind::Semicolon => owned("Semicolon"),
            TokenKind::Comma => owned("Comma"),
            TokenKind::Colon => owned("Colon"),
            TokenKind::DoubleColon => owned("DoubleColon"),
            TokenKind::ColonColon => owned("ColonColon"),
            TokenKind::ColonEquals => owned("ColonEquals"),
            TokenKind::Dot => owned("Dot"),
            TokenKind::Arrow => owned("Arrow"),
            TokenKind::FatArrow => owned("FatArrow"),
            TokenKind::OpenParen => owned("OpenParen"),
            TokenKind::CloseParen => owned("CloseParen"),
            TokenKind::OpenBrace => owned("OpenBrace"),
            TokenKind::CloseBrace => owned("CloseBrace"),
            TokenKind::OpenBracket => owned("OpenBracket"),
            TokenKind::CloseBracket => owned("CloseBracket"),
            TokenKind::QuantumBind => owned("QuantumBind"),
            TokenKind::QuantumIn => owned("QuantumIn"),
            TokenKind::QuantumTensor => owned("QuantumTensor"),
            TokenKind::QuantumApprox => owned("QuantumApprox"),
            TokenKind::QuantumXor => owned("QuantumXor"),
            TokenKind::QuantumOr => owned("QuantumOr"),
            TokenKind::QuantumNot => owned("QuantumNot"),
            TokenKind::QuantumGradient => owned("QuantumGradient"),
            TokenKind::QuantumGeq => owned("QuantumGeq"),
            TokenKind::QuantumLeq => owned("QuantumLeq"),
            TokenKind::QuantumImplies => owned("QuantumImplies"),
            TokenKind::QuantumLoop => owned("QuantumLoop"),
            TokenKind::QuantumModulo => owned("QuantumModulo"),
            TokenKind::QuantumBracketOpen => owned("QuantumBracketOpen"),
            TokenKind::QuantumBracketClose => owned("QuantumBracketClose"),
            TokenKind::QuantumIndexOpen => owned("QuantumIndexOpen"),
            TokenKind::QuantumIndexClose => owned("QuantumIndexClose"),
            TokenKind::ClassicalFunc => owned("ClassicalFunc"),
            TokenKind::QuantumFunc => owned("QuantumFunc"),
            TokenKind::AIFunc => owned("AIFunc"),
            TokenKind::QuantumComment => owned("QuantumComment"),
            TokenKind::BecauseComment => owned("BecauseComment"),
            TokenKind::NoteComment => owned("NoteComment"),
            TokenKind::Attempt => owned("Attempt"),
            TokenKind::Warning => owned("Warning"),
            TokenKind::Success => owned("Success"),
            TokenKind::TimeBlock => owned("TimeBlock"),
            TokenKind::SuperpositionState => owned("SuperpositionState"),
        }
    }
}

} // verus!
