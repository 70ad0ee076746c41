//! The QUBE parser: QUBE's own grammar over the tokens of the Aeonmi lexer.
//!
//! ```text
//! program   := { comment | statement }
//! statement := "state" ident "=" expr [";"]
//!            | "apply" ident [ "(" { number | ident } ")" ] [ "->" ident ] [";"]
//!            | "collapse" ident "->" ident [";"]
//!            | "assert" ident ( "∈" "{" [ expr { "," expr } ] "}" | "==" expr ) [";"]
//!            | ( "log" | ident ) ( "(" expr ")" | expr ) [";"]
//! expr      := number qubit { "+" [number] qubit } | number
//!            | qubit { ("+" | "-") [number] [qubit] } | ident | string
//! ```

use vstd::prelude::*;
use crate::qube_ast::{AssertOp, QubeExpr, QubeExprV, QubeNode, QubeNodeV, SuperpositionTerm, TermV, stmt_view};
use crate::text::{concat, decimal_text, owned, push_decimal, push_str_chars, push_string_chars, same_text, string_from_chars};
use crate::token::{KindValue, Token, TokenKind, TokenValue, kind_debug_text, token_values};

verus! {

/// A parse error: what was expected, and the position of the token found.
#[derive(Debug)]
pub struct QubeParseError {
    pub message: String,
    pub line: usize,
    pub column: usize,
}

/// How an error is written, as `Display` writes it.
pub open spec fn qube_error_text(e: QubeParseError) -> Seq<char> {
    "QUBE parse error at "@ + decimal_text(e.line as nat) + ":"@ + decimal_text(e.column as nat) + ": "@
        + e.message@
}

impl QubeParseError {
    /// The error as text (what `Display` writes).
    pub fn to_text(&self) -> (r: String)
        ensures
            r@ == qube_error_text(*self),
    {
        let mut out: Vec<char> = Vec::new();
        push_str_chars(&mut out, "QUBE parse error at ");
        push_decimal(self.line as u64, &mut out);
        push_str_chars(&mut out, ":");
        push_decimal(self.column as u64, &mut out);
        push_str_chars(&mut out, ": ");
        push_string_chars(&mut out, &self.message);
        assert(out@ =~= qube_error_text(*self));
        string_from_chars(out.as_slice())
    }
}

/// A parse error as plain values.
pub ghost struct ErrV {
    pub message: Seq<char>,
    pub line: int,
    pub column: int,
}

/// The outcome of parsing from a position: a value and the position after it, or
/// an error.
pub ghost enum Parsed<A> {
    Done(A, int),
    Fail(ErrV),
}

// ---------------------------------------------------------------------------
// The grammar, over the token values `t` from position `p`

pub open spec fn at_end(t: Seq<TokenValue>, p: int) -> bool {
    t[p].kind is EOF
}

/// The position after the current token; the end of input is never passed.
pub open spec fn adv(t: Seq<TokenValue>, p: int) -> int {
    if at_end(t, p) {
        p
    } else {
        p + 1
    }
}

/// The current token is of kind `k` (and the input has not ended).
pub open spec fn check(t: Seq<TokenValue>, p: int, k: KindValue) -> bool {
    !at_end(t, p) && t[p].kind == k
}

pub open spec fn err_here(t: Seq<TokenValue>, p: int, message: Seq<char>) -> ErrV {
    ErrV { message, line: t[p].line, column: t[p].column }
}

/// Position `q` is past `p` and within the input (each step of a repetition
/// consumes at least one token).
pub open spec fn moves(t: Seq<TokenValue>, p: int, q: int) -> bool {
    p < q <= t.len()
}

/// An optional semicolon.
pub open spec fn skip_semi(t: Seq<TokenValue>, p: int) -> int {
    if check(t, p, KindValue::Semicolon) {
        adv(t, p)
    } else {
        p
    }
}

pub open spec fn ident_at(t: Seq<TokenValue>, p: int, message: Seq<char>) -> Parsed<Seq<char>> {
    match t[p].kind {
        KindValue::Identifier(n) => Parsed::Done(n, adv(t, p)),
        _ => Parsed::Fail(err_here(t, p, message)),
    }
}

/// A token of kind `k`, else the error `message` at the current token.
pub open spec fn expect(t: Seq<TokenValue>, p: int, k: KindValue, message: Seq<char>) -> Parsed<()> {
    if check(t, p, k) {
        Parsed::Done((), adv(t, p))
    } else {
        Parsed::Fail(err_here(t, p, message))
    }
}

/// A superposition written term by term from a numeral: `[number] qubit` terms
/// joined by `+`.
pub open spec fn sup_list(t: Seq<TokenValue>, p: int, terms: Seq<TermV>) -> (Seq<TermV>, int)
    decreases t.len() - p,
{
    if !(0 <= p < t.len()) {
        (terms, p)
    } else {
        let (amp, p1) = match t[p].kind {
            KindValue::NumberLiteral(n) => (n, adv(t, p)),
            _ => ("1"@, p),
        };
        match t[p1].kind {
            KindValue::QubitLiteral(s) => {
                let ts = terms.push(TermV { amplitude: amp, state: s });
                let p2 = adv(t, p1);
                if check(t, p2, KindValue::Plus) && moves(t, p, adv(t, p2)) {
                    sup_list(t, adv(t, p2), ts)
                } else {
                    (ts, p2)
                }
            },
            _ => (terms, p1),
        }
    }
}

/// The terms after a leading basis state: each `+` or `-`, then an optional numeral
/// (the amplitude, negated after `-`; without one the amplitude is 1 or -1), then a
/// basis state, which makes the term (without one, the term is dropped).
pub open spec fn sup_tail(t: Seq<TokenValue>, p: int, terms: Seq<TermV>) -> (Seq<TermV>, int)
    decreases t.len() - p,
{
    if !(0 <= p < t.len()) {
        (terms, p)
    } else if check(t, p, KindValue::Plus) || check(t, p, KindValue::Minus) {
        let neg = t[p].kind == KindValue::Minus;
        let p1 = p + 1;
        let (amp, p2) = match t[p1].kind {
            KindValue::NumberLiteral(n) => (if neg { seq!['-'] + n } else { n }, adv(t, p1)),
            _ => (if neg { "-1"@ } else { "1"@ }, p1),
        };
        match t[p2].kind {
            KindValue::QubitLiteral(s) => if moves(t, p, adv(t, p2)) {
                sup_tail(t, adv(t, p2), terms.push(TermV { amplitude: amp, state: s }))
            } else {
                (terms.push(TermV { amplitude: amp, state: s }), adv(t, p2))
            },
            _ => if moves(t, p, p2) {
                sup_tail(t, p2, terms)
            } else {
                (terms, p2)
            },
        }
    } else {
        (terms, p)
    }
}

/// An expression.
pub open spec fn expr(t: Seq<TokenValue>, p: int) -> Parsed<QubeExprV> {
    match t[p].kind {
        KindValue::NumberLiteral(n) => if p + 1 < t.len() && t[p + 1].kind is QubitLiteral {
            let (ts, q) = sup_list(t, p, Seq::empty());
            Parsed::Done(QubeExprV::Superposition(ts), q)
        } else {
            Parsed::Done(QubeExprV::Number(n), adv(t, p))
        },
        KindValue::QubitLiteral(lit) => {
            let p1 = adv(t, p);
            if check(t, p1, KindValue::Plus) || check(t, p1, KindValue::Minus) {
                let (ts, q) = sup_tail(t, p1, seq![TermV { amplitude: "1"@, state: lit }]);
                Parsed::Done(QubeExprV::Superposition(ts), q)
            } else {
                Parsed::Done(QubeExprV::QubitLiteral(lit), p1)
            }
        },
        KindValue::Identifier(n) => Parsed::Done(QubeExprV::Ident(n), adv(t, p)),
        KindValue::StringLiteral(s) => Parsed::Done(QubeExprV::Str(s), adv(t, p)),
        k => Parsed::Fail(err_here(t, p, "Expected QUBE expression, got "@ + kind_debug_text(k))),
    }
}

/// The arguments of a gate: numerals (the angle; the last one counts) and qubit
/// names, separated by commas; the list stops at the first other token.
pub open spec fn gate_args(t: Seq<TokenValue>, p: int, targets: Seq<Seq<char>>, angle: Option<Seq<char>>) -> (
    Seq<Seq<char>>,
    Option<Seq<char>>,
    int,
)
    decreases t.len() - p,
{
    if !(0 <= p < t.len()) {
        (targets, angle, p)
    } else {
        let (tg, an, stop) = match t[p].kind {
            KindValue::NumberLiteral(n) => (targets, Some(n), false),
            KindValue::Identifier(name) => (targets.push(name), angle, false),
            _ => (targets, angle, true),
        };
        if stop {
            (targets, angle, p)
        } else {
            let p1 = adv(t, p);
            if check(t, p1, KindValue::Comma) && moves(t, p, adv(t, p1)) {
                gate_args(t, adv(t, p1), tg, an)
            } else {
                (tg, an, p1)
            }
        }
    }
}

/// The values of a set assertion, up to the closing brace.
pub open spec fn assert_vals(t: Seq<TokenValue>, p: int, vals: Seq<QubeExprV>) -> Parsed<Seq<QubeExprV>>
    decreases t.len() - p,
{
    if !(0 <= p < t.len()) || check(t, p, KindValue::CloseBrace) || at_end(t, p) {
        Parsed::Done(vals, p)
    } else {
        match expr(t, p) {
            Parsed::Fail(e) => Parsed::Fail(e),
            Parsed::Done(v, p1) => if check(t, p1, KindValue::Comma) && moves(t, p, adv(t, p1)) {
                assert_vals(t, adv(t, p1), vals.push(v))
            } else {
                Parsed::Done(vals.push(v), p1)
            },
        }
    }
}

pub open spec fn state_decl(t: Seq<TokenValue>, p: int) -> Parsed<QubeNodeV> {
    match ident_at(t, p, "Expected state name after 'state'"@) {
        Parsed::Fail(e) => Parsed::Fail(e),
        Parsed::Done(name, p1) => if check(t, p1, KindValue::Equals) {
            match expr(t, adv(t, p1)) {
                Parsed::Fail(e) => Parsed::Fail(e),
                Parsed::Done(v, p2) => Parsed::Done(QubeNodeV::StateDecl { name, value: v }, skip_semi(t, p2)),
            }
        } else {
            Parsed::Fail(err_here(t, p1, "Expected '=' after state name"@))
        },
    }
}

pub open spec fn gate_apply(t: Seq<TokenValue>, p: int) -> Parsed<QubeNodeV> {
    match ident_at(t, p, "Expected gate name after 'apply'"@) {
        Parsed::Fail(e) => Parsed::Fail(e),
        Parsed::Done(gate, p1) => {
            let args: Parsed<(Seq<Seq<char>>, Option<Seq<char>>)> = if check(t, p1, KindValue::OpenParen) {
                let (tg, an, q) = gate_args(t, adv(t, p1), Seq::empty(), None);
                if check(t, q, KindValue::CloseParen) {
                    Parsed::Done((tg, an), adv(t, q))
                } else {
                    Parsed::Fail(err_here(t, q, "Expected ')'"@))
                }
            } else {
                Parsed::Done((Seq::empty(), None), p1)
            };
            match args {
                Parsed::Fail(e) => Parsed::Fail(e),
                Parsed::Done((tg, an), p2) => if check(t, p2, KindValue::Arrow) {
                    match ident_at(t, adv(t, p2), "Expected target qubit after '->'"@) {
                        Parsed::Fail(e) => Parsed::Fail(e),
                        Parsed::Done(target, p3) => Parsed::Done(
                            QubeNodeV::GateApply { gate, targets: tg.push(target), angle: an },
                            skip_semi(t, p3),
                        ),
                    }
                } else {
                    Parsed::Done(QubeNodeV::GateApply { gate, targets: tg, angle: an }, skip_semi(t, p2))
                },
            }
        },
    }
}

pub open spec fn collapse(t: Seq<TokenValue>, p: int) -> Parsed<QubeNodeV> {
    match ident_at(t, p, "Expected state name after 'collapse'"@) {
        Parsed::Fail(e) => Parsed::Fail(e),
        Parsed::Done(state, p1) => if check(t, p1, KindValue::Arrow) {
            match ident_at(t, adv(t, p1), "Expected result variable name"@) {
                Parsed::Fail(e) => Parsed::Fail(e),
                Parsed::Done(result, p2) => Parsed::Done(QubeNodeV::Collapse { state, result }, skip_semi(t, p2)),
            }
        } else {
            Parsed::Fail(err_here(t, p1, "Expected '->' after state name in collapse"@))
        },
    }
}

pub open spec fn assert_stmt(t: Seq<TokenValue>, p: int) -> Parsed<QubeNodeV> {
    match ident_at(t, p, "Expected variable name after 'assert'"@) {
        Parsed::Fail(e) => Parsed::Fail(e),
        Parsed::Done(state, p1) => match t[p1].kind {
            KindValue::QuantumIn => {
                let p2 = adv(t, p1);
                if check(t, p2, KindValue::OpenBrace) {
                    match assert_vals(t, adv(t, p2), Seq::empty()) {
                        Parsed::Fail(e) => Parsed::Fail(e),
                        Parsed::Done(vals, p3) => if check(t, p3, KindValue::CloseBrace) {
                            Parsed::Done(QubeNodeV::Assert { state, op: AssertOp::In, values: vals }, skip_semi(t, adv(t, p3)))
                        } else {
                            Parsed::Fail(err_here(t, p3, "Expected '}'"@))
                        },
                    }
                } else {
                    Parsed::Fail(err_here(t, p2, "Expected '{'"@))
                }
            },
            KindValue::DoubleEquals => match expr(t, adv(t, p1)) {
                Parsed::Fail(e) => Parsed::Fail(e),
                Parsed::Done(v, p3) => Parsed::Done(
                    QubeNodeV::Assert { state, op: AssertOp::Eq, values: seq![v] },
                    skip_semi(t, p3),
                ),
            },
            k => Parsed::Fail(err_here(t, p1, "Expected '∈' or '==' in assert, got "@ + kind_debug_text(k))),
        },
    }
}

pub open spec fn log_stmt(t: Seq<TokenValue>, p: int) -> Parsed<QubeNodeV> {
    if check(t, p, KindValue::OpenParen) {
        match expr(t, adv(t, p)) {
            Parsed::Fail(e) => Parsed::Fail(e),
            Parsed::Done(v, p1) => if check(t, p1, KindValue::CloseParen) {
                Parsed::Done(QubeNodeV::Log(v), skip_semi(t, adv(t, p1)))
            } else {
                Parsed::Fail(err_here(t, p1, "Expected ')'"@))
            },
        }
    } else {
        match expr(t, p) {
            Parsed::Fail(e) => Parsed::Fail(e),
            Parsed::Done(v, p1) => Parsed::Done(QubeNodeV::Log(v), skip_semi(t, p1)),
        }
    }
}

/// A statement, chosen by its first token.
pub open spec fn statement(t: Seq<TokenValue>, p: int) -> Parsed<QubeNodeV> {
    match t[p].kind {
        KindValue::Identifier(s) => if s == "state"@ {
            state_decl(t, adv(t, p))
        } else if s == "apply"@ {
            gate_apply(t, adv(t, p))
        } else if s == "collapse"@ {
            collapse(t, adv(t, p))
        } else if s == "assert"@ {
            assert_stmt(t, adv(t, p))
        } else {
            log_stmt(t, adv(t, p))
        },
        KindValue::Log => log_stmt(t, adv(t, p)),
        k => Parsed::Fail(err_here(t, p, "Unexpected token "@ + kind_debug_text(k))),
    }
}

pub open spec fn is_comment(k: KindValue) -> bool {
    k is QuantumComment || k is BecauseComment || k is NoteComment
}

/// Statements up to the end of input; comment tokens are skipped.
pub open spec fn program(t: Seq<TokenValue>, p: int, stmts: Seq<QubeNodeV>) -> Parsed<Seq<QubeNodeV>>
    decreases t.len() - p,
{
    if !(0 <= p < t.len()) || at_end(t, p) {
        Parsed::Done(stmts, p)
    } else if is_comment(t[p].kind) {
        program(t, p + 1, stmts)
    } else {
        match statement(t, p) {
            Parsed::Fail(e) => Parsed::Fail(e),
            Parsed::Done(n, p1) => if moves(t, p, p1) {
                program(t, p1, stmts.push(n))
            } else {
                Parsed::Done(stmts.push(n), p1)
            },
        }
    }
}


// ---------------------------------------------------------------------------
// Each step moves forward

proof fn lemma_sup_list_mono(t: Seq<TokenValue>, p: int, terms: Seq<TermV>)
    ensures
        sup_list(t, p, terms).1 >= p,
    decreases t.len() - p,
{
    if 0 <= p < t.len() {
        let (amp, p1) = match t[p].kind {
            KindValue::NumberLiteral(n) => (n, adv(t, p)),
            _ => ("1"@, p),
        };
        if let KindValue::QubitLiteral(s) = t[p1].kind {
            let ts = terms.push(TermV { amplitude: amp, state: s });
            let p2 = adv(t, p1);
            if check(t, p2, KindValue::Plus) && moves(t, p, adv(t, p2)) {
                lemma_sup_list_mono(t, adv(t, p2), ts);
            }
        }
    }
}

proof fn lemma_sup_tail_mono(t: Seq<TokenValue>, p: int, terms: Seq<TermV>)
    ensures
        sup_tail(t, p, terms).1 >= p,
    decreases t.len() - p,
{
    if 0 <= p < t.len() && (check(t, p, KindValue::Plus) || check(t, p, KindValue::Minus)) {
        let neg = t[p].kind == KindValue::Minus;
        let p1 = p + 1;
        let (amp, p2) = match t[p1].kind {
            KindValue::NumberLiteral(n) => (if neg { seq!['-'] + n } else { n }, adv(t, p1)),
            _ => (if neg { "-1"@ } else { "1"@ }, p1),
        };
        match t[p2].kind {
            KindValue::QubitLiteral(s) => if moves(t, p, adv(t, p2)) {
                lemma_sup_tail_mono(t, adv(t, p2), terms.push(TermV { amplitude: amp, state: s }));
            },
            _ => if moves(t, p, p2) {
                lemma_sup_tail_mono(t, p2, terms);
            },
        }
    }
}

/// An expression that parses consumes at least one token.
proof fn lemma_expr_advances(t: Seq<TokenValue>, p: int)
    requires
        0 <= p < t.len(),
    ensures
        expr(t, p) matches Parsed::Done(_, q) ==> q > p,
{
    match t[p].kind {
        KindValue::NumberLiteral(n) => {
            if p + 1 < t.len() && t[p + 1].kind is QubitLiteral {
                let p1 = adv(t, p);
                let p2 = adv(t, p1);
                if let KindValue::QubitLiteral(s) = t[p1].kind {
                    let ts = Seq::<TermV>::empty().push(TermV { amplitude: n, state: s });
                    if check(t, p2, KindValue::Plus) && moves(t, p, adv(t, p2)) {
                        lemma_sup_list_mono(t, adv(t, p2), ts);
                    }
                }
            }
        },
        KindValue::QubitLiteral(lit) => {
            lemma_sup_tail_mono(t, adv(t, p), seq![TermV { amplitude: "1"@, state: lit }]);
        },
        _ => {},
    }
}

proof fn lemma_gate_args_mono(t: Seq<TokenValue>, p: int, targets: Seq<Seq<char>>, angle: Option<Seq<char>>)
    ensures
        gate_args(t, p, targets, angle).2 >= p,
    decreases t.len() - p,
{
    if 0 <= p < t.len() {
        let (tg, an, stop) = match t[p].kind {
            KindValue::NumberLiteral(n) => (targets, Some(n), false),
            KindValue::Identifier(name) => (targets.push(name), angle, false),
            _ => (targets, angle, true),
        };
        if !stop {
            let p1 = adv(t, p);
            if check(t, p1, KindValue::Comma) && moves(t, p, adv(t, p1)) {
                lemma_gate_args_mono(t, adv(t, p1), tg, an);
            }
        }
    }
}

proof fn lemma_assert_vals_mono(t: Seq<TokenValue>, p: int, vals: Seq<QubeExprV>)
    ensures
        assert_vals(t, p, vals) matches Parsed::Done(_, q) ==> q >= p,
    decreases t.len() - p,
{
    if !(!(0 <= p < t.len()) || check(t, p, KindValue::CloseBrace) || at_end(t, p)) {
        lemma_expr_advances(t, p);
        if let Parsed::Done(v, p1) = expr(t, p) {
            if check(t, p1, KindValue::Comma) && moves(t, p, adv(t, p1)) {
                lemma_assert_vals_mono(t, adv(t, p1), vals.push(v));
            }
        }
    }
}

/// A statement that parses consumes at least one token.
proof fn lemma_statement_advances(t: Seq<TokenValue>, p: int)
    requires
        0 <= p < t.len(),
        !at_end(t, p),
    ensures
        statement(t, p) matches Parsed::Done(_, q) ==> q > p,
{
    let p1 = adv(t, p);
    if p1 < t.len() {
        lemma_expr_advances(t, p1);
        if check(t, p1, KindValue::OpenParen) && adv(t, p1) < t.len() {
            lemma_expr_advances(t, adv(t, p1));
        }
        if let Parsed::Done(_, q1) = ident_at(t, p1, Seq::empty()) {
            if adv(t, q1) < t.len() && q1 < t.len() {
                lemma_expr_advances(t, adv(t, q1));
                let q2 = adv(t, q1);
                if adv(t, q2) < t.len() {
                    lemma_assert_vals_mono(t, adv(t, q2), Seq::empty());
                }
                lemma_gate_args_mono(t, adv(t, q1), Seq::empty(), None);
            }
        }
    }
}

// ---------------------------------------------------------------------------
// The parser

/// The model of an error.
pub open spec fn err_view(e: QubeParseError) -> ErrV {
    ErrV { message: e.message@, line: e.line as int, column: e.column as int }
}

/// A parser over a token sequence that ends with an end-of-input token.
pub struct QubeParser {
    tokens: Vec<Token>,
    pos: usize,
}

/// The end-of-input token added when the tokens given lack one.
pub open spec fn eof_value() -> TokenValue {
    TokenValue { kind: KindValue::EOF, lexeme: Seq::empty(), line: 0, column: 0 }
}

impl QubeParser {
    /// The values of the tokens.
    pub closed spec fn toks(&self) -> Seq<TokenValue> {
        token_values(self.tokens@)
    }

    /// The position of the current token.
    pub closed spec fn position(&self) -> int {
        self.pos as int
    }

    /// The tokens end with an end-of-input token and the position is within them.
    pub closed spec fn wf(&self) -> bool {
        &&& self.tokens@.len() >= 1
        &&& self.toks()[self.toks().len() - 1].kind is EOF
        &&& self.pos < self.tokens@.len()
    }

    /// A parser at the first token; an end-of-input token is appended when the
    /// tokens do not end with one.
    pub fn new(tokens: Vec<Token>) -> (r: QubeParser)
        ensures
            r.wf(),
            r.position() == 0,
            r.toks() == (if tokens@.len() > 0 && token_values(tokens@)[tokens@.len() - 1].kind is EOF {
                token_values(tokens@)
            } else {
                token_values(tokens@).push(eof_value())
            }),
    {
        let ghost orig = tokens@;
        let mut tokens = tokens;
        let needs_eof = if tokens.len() == 0 {
            true
        } else {
            match &tokens[tokens.len() - 1].kind {
                TokenKind::EOF => false,
                _ => true,
            }
        };
        if needs_eof {
            tokens.push(Token { kind: TokenKind::EOF, lexeme: String::new(), line: 0, column: 0 });
            assert(token_values(tokens@) =~= token_values(orig).push(eof_value()));
        }
        QubeParser { tokens, pos: 0 }
    }

    /// The token at the position.
    fn peek(&self) -> (r: &Token)
        requires
            self.wf(),
        ensures
            r@ == self.toks()[self.position()],
    {
        let last = self.tokens.len() - 1;
        let i = if self.pos < last { self.pos } else { last };
        &self.tokens[i]
    }

    /// The token before the position (the first token at the start).
    fn previous(&self) -> (r: &Token)
        requires
            self.wf(),
        ensures
            r@ == self.toks()[if self.position() == 0 { 0 } else { self.position() - 1 }],
    {
        if self.pos == 0 {
            &self.tokens[0]
        } else {
            &self.tokens[self.pos - 1]
        }
    }

    /// Whether the input has ended.
    fn is_at_end(&self) -> (r: bool)
        requires
            self.wf(),
        ensures
            r == at_end(self.toks(), self.position()),
    {
        match &self.peek().kind {
            TokenKind::EOF => true,
            _ => false,
        }
    }

    /// Moves past the current token, unless the input has ended.
    fn advance(&mut self)
        requires
            old(self).wf(),
        ensures
            final(self).wf(),
            final(self).toks() == old(self).toks(),
            final(self).position() == adv(old(self).toks(), old(self).position()),
    {
        if !self.is_at_end() {
            assert(self.pos + 1 < self.tokens@.len());
            assert(self.tokens@.len() == self.tokens.len());
            self.pos = self.pos + 1;
        }
    }

    /// Whether the current token is of a kind.
    fn check(&self, kind: &TokenKind) -> (r: bool)
        requires
            self.wf(),
        ensures
            r == check(self.toks(), self.position(), kind@),
    {
        !self.is_at_end() && self.peek().kind == *kind
    }

    /// Moves past the current token when it is of one of the kinds.
    fn match_tok(&mut self, kinds: &[TokenKind]) -> (r: bool)
        requires
            old(self).wf(),
        ensures
            final(self).wf(),
            final(self).toks() == old(self).toks(),
            r == exists|i: int| 0 <= i < kinds@.len() && check(old(self).toks(), old(self).position(), #[trigger] kinds@[i]@),
            final(self).position() == (if r { adv(old(self).toks(), old(self).position()) } else { old(self).position() }),
    {
        let mut i: usize = 0;
        while i < kinds.len()
            invariant
                self.wf(),
                *self == *old(self),
                i <= kinds@.len(),
                forall|j: int| 0 <= j < i ==> !check(self.toks(), self.position(), #[trigger] kinds@[j]@),
            decreases kinds@.len() - i,
        {
            if self.check(&kinds[i]) {
                self.advance();
                return true;
            }
            i += 1;
        }
        false
    }

    /// Moves past the current token when it is of a kind.
    fn match_one(&mut self, kind: TokenKind) -> (r: bool)
        requires
            old(self).wf(),
        ensures
            final(self).wf(),
            final(self).toks() == old(self).toks(),
            r == check(old(self).toks(), old(self).position(), kind@),
            final(self).position() == (if r { adv(old(self).toks(), old(self).position()) } else { old(self).position() }),
    {
        let ghost k = kind@;
        let kinds = [kind];
        assert(kinds@[0]@ == k);
        let r = self.match_tok(&kinds);
        proof {
            if r {
                let i = choose|i: int| 0 <= i < kinds@.len() && check(old(self).toks(), old(self).position(), #[trigger] kinds@[i]@);
                assert(i == 0);
            } else {
                assert(!check(old(self).toks(), old(self).position(), kinds@[0]@));
            }
        }
        r
    }

    /// The error at the current token.
    fn err_here(&self, msg: &str) -> (r: QubeParseError)
        requires
            self.wf(),
        ensures
            err_view(r) == err_here(self.toks(), self.position(), msg@),
    {
        let tok = self.peek();
        self.err_at(msg, tok.line, tok.column)
    }

    /// An error at a position.
    fn err_at(&self, msg: &str, line: usize, column: usize) -> (r: QubeParseError)
        ensures
            r.message@ == msg@,
            r.line == line,
            r.column == column,
    {
        QubeParseError { message: owned(msg), line, column }
    }

    /// The kind of the current token.
    fn peek_kind(&self) -> (r: TokenKind)
        requires
            self.wf(),
        ensures
            r@ == self.toks()[self.position()].kind,
    {
        self.peek().kind.duplicate()
    }

    /// A name.
    fn consume_ident(&mut self, msg: &str) -> (r: Result<String, QubeParseError>)
        requires
            old(self).wf(),
        ensures
            final(self).wf(),
            final(self).toks() == old(self).toks(),
            match ident_at(old(self).toks(), old(self).position(), msg@) {
                Parsed::Done(n, q) => r matches Ok(x) && x@ == n && final(self).position() == q,
                Parsed::Fail(e) => r matches Err(x) && err_view(x) == e,
            },
    {
        match self.peek_kind() {
            TokenKind::Identifier(name) => {
                self.advance();
                Ok(name)
            },
            _ => Err(self.err_here(msg)),
        }
    }

    /// A token of a kind, else the error `msg` at the current token.
    fn expect_kind(&mut self, kind: TokenKind, msg: &str) -> (r: Result<(), QubeParseError>)
        requires
            old(self).wf(),
        ensures
            final(self).wf(),
            final(self).toks() == old(self).toks(),
            match expect(old(self).toks(), old(self).position(), kind@, msg@) {
                Parsed::Done(_, q) => r is Ok && final(self).position() == q,
                Parsed::Fail(e) => r matches Err(x) && err_view(x) == e,
            },
    {
        if self.check(&kind) {
            self.advance();
            Ok(())
        } else {
            Err(self.err_here(msg))
        }
    }

    /// An optional semicolon.
    fn skip_semicolon(&mut self)
        requires
            old(self).wf(),
        ensures
            final(self).wf(),
            final(self).toks() == old(self).toks(),
            final(self).position() == skip_semi(old(self).toks(), old(self).position()),
    {
        let _ = self.match_one(TokenKind::Semicolon);
    }

    fn consume_eq(&mut self, msg: &str) -> (r: Result<(), QubeParseError>)
        requires
            old(self).wf(),
        ensures
            final(self).wf(),
            final(self).toks() == old(self).toks(),
            match expect(old(self).toks(), old(self).position(), KindValue::Equals, msg@) {
                Parsed::Done(_, q) => r is Ok && final(self).position() == q,
                Parsed::Fail(e) => r matches Err(x) && err_view(x) == e,
            },
    {
        self.expect_kind(TokenKind::Equals, msg)
    }

    fn consume_arrow(&mut self, msg: &str) -> (r: Result<(), QubeParseError>)
        requires
            old(self).wf(),
        ensures
            final(self).wf(),
            final(self).toks() == old(self).toks(),
            match expect(old(self).toks(), old(self).position(), KindValue::Arrow, msg@) {
                Parsed::Done(_, q) => r is Ok && final(self).position() == q,
                Parsed::Fail(e) => r matches Err(x) && err_view(x) == e,
            },
    {
        self.expect_kind(TokenKind::Arrow, msg)
    }

    fn consume_close_paren(&mut self) -> (r: Result<(), QubeParseError>)
        requires
            old(self).wf(),
        ensures
            final(self).wf(),
            final(self).toks() == old(self).toks(),
            match expect(old(self).toks(), old(self).position(), KindValue::CloseParen, "Expected ')'"@) {
                Parsed::Done(_, q) => r is Ok && final(self).position() == q,
                Parsed::Fail(e) => r matches Err(x) && err_view(x) == e,
            },
    {
        self.expect_kind(TokenKind::CloseParen, "Expected ')'")
    }

    fn consume_open_brace(&mut self) -> (r: Result<(), QubeParseError>)
        requires
            old(self).wf(),
        ensures
            final(self).wf(),
            final(self).toks() == old(self).toks(),
            match expect(old(self).toks(), old(self).position(), KindValue::OpenBrace, "Expected '{'"@) {
                Parsed::Done(_, q) => r is Ok && final(self).position() == q,
                Parsed::Fail(e) => r matches Err(x) && err_view(x) == e,
            },
    {
        self.expect_kind(TokenKind::OpenBrace, "Expected '{'")
    }

    fn consume_close_brace(&mut self) -> (r: Result<(), QubeParseError>)
        requires
            old(self).wf(),
        ensures
            final(self).wf(),
            final(self).toks() == old(self).toks(),
            match expect(old(self).toks(), old(self).position(), KindValue::CloseBrace, "Expected '}'"@) {
                Parsed::Done(_, q) => r is Ok && final(self).position() == q,
                Parsed::Fail(e) => r matches Err(x) && err_view(x) == e,
            },
    {
        self.expect_kind(TokenKind::CloseBrace, "Expected '}'")
    }

    /// The terms `[number] qubit` joined by `+`, from a numeral (see `sup_list`).
    fn parse_superposition_expr(&mut self) -> (r: Result<QubeExpr, QubeParseError>)
        requires
            old(self).wf(),
        ensures
            final(self).wf(),
            final(self).toks() == old(self).toks(),
            r matches Ok(x) && x@ == QubeExprV::Superposition(sup_list(old(self).toks(), old(self).position(), Seq::empty()).0)
                && final(self).position() == sup_list(old(self).toks(), old(self).position(), Seq::empty()).1,
    {
        let ghost t = self.toks();
        let ghost p0 = self.position();
        let mut terms: Vec<SuperpositionTerm> = Vec::new();
        let mut done = false;
        assert(terms@.map_values(|x: SuperpositionTerm| x@) =~= Seq::<TermV>::empty());
        while !done
            invariant
                self.wf(),
                self.toks() == t,
                sup_list(t, p0, Seq::empty()) == (if done {
                    (terms@.map_values(|x: SuperpositionTerm| x@), self.position())
                } else {
                    sup_list(t, self.position(), terms@.map_values(|x: SuperpositionTerm| x@))
                }),
            decreases t.len() - self.position(), if done { 0int } else { 1int },
        {
            let ghost p = self.position();
            let ghost tv = terms@.map_values(|x: SuperpositionTerm| x@);
            let amp = match self.peek_kind() {
                TokenKind::NumberLiteral(n) => {
                    self.advance();
                    n
                },
                _ => {
                    proof {
                        reveal_strlit("1");
                    }
                    owned("1")
                },
            };
            match self.peek_kind() {
                TokenKind::QubitLiteral(st) => {
                    self.advance();
                    terms.push(SuperpositionTerm { amplitude: amp, state: st });
                    assert(terms@.map_values(|x: SuperpositionTerm| x@) =~= tv.push(TermV { amplitude: amp@, state: st@ }));
                    if !self.match_one(TokenKind::Plus) {
                        done = true;
                    }
                },
                _ => {
                    done = true;
                },
            }
        }
        Ok(QubeExpr::Superposition(terms))
    }

    /// The signed terms after a leading basis state (see `sup_tail`).
    fn parse_superposition_tail(&mut self, terms: &mut Vec<SuperpositionTerm>)
        requires
            old(self).wf(),
        ensures
            final(self).wf(),
            final(self).toks() == old(self).toks(),
            final(terms)@.map_values(|x: SuperpositionTerm| x@) == sup_tail(
                old(self).toks(),
                old(self).position(),
                old(terms)@.map_values(|x: SuperpositionTerm| x@),
            ).0,
            final(self).position() == sup_tail(
                old(self).toks(),
                old(self).position(),
                old(terms)@.map_values(|x: SuperpositionTerm| x@),
            ).1,
    {
        let ghost t = self.toks();
        let ghost p0 = self.position();
        let ghost tv0 = terms@.map_values(|x: SuperpositionTerm| x@);
        let mut done = false;
        while !done
            invariant
                self.wf(),
                self.toks() == t,
                sup_tail(t, p0, tv0) == (if done {
                    (terms@.map_values(|x: SuperpositionTerm| x@), self.position())
                } else {
                    sup_tail(t, self.position(), terms@.map_values(|x: SuperpositionTerm| x@))
                }),
            decreases t.len() - self.position(), if done { 0int } else { 1int },
        {
            let ghost p = self.position();
            let ghost tv = terms@.map_values(|x: SuperpositionTerm| x@);
            let plus = self.match_one(TokenKind::Plus);
            let matched = if plus {
                true
            } else {
                self.match_one(TokenKind::Minus)
            };
            if !matched {
                done = true;
            } else {
                let neg = self.previous().kind == TokenKind::Minus;
                proof {
                    reveal_strlit("1");
                    reveal_strlit("-1");
                    reveal_strlit("-");
                    assert(check(t, p, KindValue::Plus) || check(t, p, KindValue::Minus));
                    assert(self.position() == p + 1);
                    assert(neg == (t[p].kind == KindValue::Minus));
                }
                let ghost p1 = self.position();
                let amp = match self.peek_kind() {
                    TokenKind::NumberLiteral(n) => {
                        self.advance();
                        if neg {
                            concat("-", n.as_str())
                        } else {
                            n
                        }
                    },
                    _ => if neg {
                        owned("-1")
                    } else {
                        owned("1")
                    },
                };
                let ghost p2 = self.position();
                proof {
                    let (samp, sp2) = match t[p1].kind {
                        KindValue::NumberLiteral(n) => (if neg { seq!['-'] + n } else { n }, adv(t, p1)),
                        _ => (if neg { "-1"@ } else { "1"@ }, p1),
                    };
                    assert(samp == amp@);
                    assert(sp2 == p2);
                    assert(p2 >= p1);
                }
                match self.peek_kind() {
                    TokenKind::QubitLiteral(st) => {
                        self.advance();
                        terms.push(SuperpositionTerm { amplitude: amp, state: st });
                        assert(terms@.map_values(|x: SuperpositionTerm| x@) =~= tv.push(TermV { amplitude: amp@, state: st@ }));
                        assert(moves(t, p, self.position()));
                    },
                    _ => {
                        assert(moves(t, p, p2));
                    },
                }
            }
        }
    }

    /// An expression (see `expr`).
    fn parse_qube_expr(&mut self) -> (r: Result<QubeExpr, QubeParseError>)
        requires
            old(self).wf(),
        ensures
            final(self).wf(),
            final(self).toks() == old(self).toks(),
            match expr(old(self).toks(), old(self).position()) {
                Parsed::Done(v, q) => r matches Ok(x) && x@ == v && final(self).position() == q,
                Parsed::Fail(e) => r matches Err(x) && err_view(x) == e,
            },
    {
        let ghost t = self.toks();
        let ghost p = self.position();
        match self.peek_kind() {
            TokenKind::NumberLiteral(amp) => {
                assert(self.tokens@.len() == self.tokens.len());
                let next_pos = self.pos + 1;
                if next_pos < self.tokens.len() {
                    if let TokenKind::QubitLiteral(_) = &self.tokens[next_pos].kind {
                        return self.parse_superposition_expr();
                    }
                }
                self.advance();
                Ok(QubeExpr::Number(amp))
            },
            TokenKind::QubitLiteral(lit) => {
                self.advance();
                if self.check(&TokenKind::Plus) || self.check(&TokenKind::Minus) {
                    proof {
                        reveal_strlit("1");
                    }
                    let mut terms: Vec<SuperpositionTerm> = Vec::new();
                    terms.push(SuperpositionTerm { amplitude: owned("1"), state: lit });
                    assert(terms@.map_values(|x: SuperpositionTerm| x@) =~= seq![TermV { amplitude: "1"@, state: lit@ }]);
                    self.parse_superposition_tail(&mut terms);
                    Ok(QubeExpr::Superposition(terms))
                } else {
                    Ok(QubeExpr::QubitLiteral(lit))
                }
            },
            TokenKind::Identifier(name) => {
                self.advance();
                Ok(QubeExpr::Ident(name))
            },
            TokenKind::StringLiteral(st) => {
                self.advance();
                Ok(QubeExpr::Str(st))
            },
            other => {
                let message = concat("Expected QUBE expression, got ", other.debug_text().as_str());
                Err(self.err_here(message.as_str()))
            },
        }
    }

    /// `state name = expr` (see `state_decl`).
    fn parse_state_decl(&mut self) -> (r: Result<QubeNode, QubeParseError>)
        requires
            old(self).wf(),
        ensures
            final(self).wf(),
            final(self).toks() == old(self).toks(),
            match state_decl(old(self).toks(), old(self).position()) {
                Parsed::Done(v, q) => r matches Ok(x) && x@ == v && final(self).position() == q,
                Parsed::Fail(e) => r matches Err(x) && err_view(x) == e,
            },
    {
        let name = match self.consume_ident("Expected state name after 'state'") {
            Ok(n) => n,
            Err(e) => {
                return Err(e);
            },
        };
        match self.consume_eq("Expected '=' after state name") {
            Ok(()) => {},
            Err(e) => {
                return Err(e);
            },
        }
        let value = match self.parse_qube_expr() {
            Ok(v) => v,
            Err(e) => {
                return Err(e);
            },
        };
        self.skip_semicolon();
        Ok(QubeNode::StateDecl { name, value })
    }

    /// `apply Gate(args) -> target` (see `gate_apply`).
    fn parse_gate_apply(&mut self) -> (r: Result<QubeNode, QubeParseError>)
        requires
            old(self).wf(),
        ensures
            final(self).wf(),
            final(self).toks() == old(self).toks(),
            match gate_apply(old(self).toks(), old(self).position()) {
                Parsed::Done(v, q) => r matches Ok(x) && x@ == v && final(self).position() == q,
                Parsed::Fail(e) => r matches Err(x) && err_view(x) == e,
            },
    {
        let gate = match self.consume_ident("Expected gate name after 'apply'") {
            Ok(n) => n,
            Err(e) => {
                return Err(e);
            },
        };
        let mut angle: Option<String> = None;
        let mut targets: Vec<String> = Vec::new();
        if self.match_one(TokenKind::OpenParen) {
            let (tg, an) = self.parse_gate_args();
            targets = tg;
            angle = an;
            match self.consume_close_paren() {
                Ok(()) => {},
                Err(e) => {
                    return Err(e);
                },
            }
        } else {
            assert(targets@.map_values(|x: String| x@) =~= Seq::<Seq<char>>::empty());
        }
        if self.match_one(TokenKind::Arrow) {
            let target = match self.consume_ident("Expected target qubit after '->'") {
                Ok(n) => n,
                Err(e) => {
                    return Err(e);
                },
            };
            let ghost tv = targets@.map_values(|x: String| x@);
            targets.push(target);
            assert(targets@.map_values(|x: String| x@) =~= tv.push(target@));
        }
        self.skip_semicolon();
        Ok(QubeNode::GateApply { gate, targets, angle })
    }

    /// Gate arguments up to the first token that is neither a numeral nor a name
    /// (see `gate_args`).
    fn parse_gate_args(&mut self) -> (r: (Vec<String>, Option<String>))
        requires
            old(self).wf(),
        ensures
            final(self).wf(),
            final(self).toks() == old(self).toks(),
            (r.0@.map_values(|x: String| x@), opt_view(r.1), final(self).position()) == gate_args(
                old(self).toks(),
                old(self).position(),
                Seq::empty(),
                None,
            ),
    {
        let ghost t = self.toks();
        let ghost p0 = self.position();
        let mut angle: Option<String> = None;
        let mut targets: Vec<String> = Vec::new();
        let mut done = false;
        assert(targets@.map_values(|x: String| x@) =~= Seq::<Seq<char>>::empty());
        while !done
            invariant
                self.wf(),
                self.toks() == t,
                gate_args(t, p0, Seq::empty(), None) == (if done {
                    (targets@.map_values(|x: String| x@), opt_view(angle), self.position())
                } else {
                    gate_args(t, self.position(), targets@.map_values(|x: String| x@), opt_view(angle))
                }),
            decreases t.len() - self.position(), if done { 0int } else { 1int },
        {
            let ghost p = self.position();
            let ghost tv = targets@.map_values(|x: String| x@);
            match self.peek_kind() {
                TokenKind::NumberLiteral(n) => {
                    angle = Some(n);
                    self.advance();
                    if !self.match_one(TokenKind::Comma) {
                        done = true;
                    }
                },
                TokenKind::Identifier(name) => {
                    targets.push(name);
                    assert(targets@.map_values(|x: String| x@) =~= tv.push(name@));
                    self.advance();
                    if !self.match_one(TokenKind::Comma) {
                        done = true;
                    }
                },
                _ => {
                    done = true;
                },
            }
        }
        (targets, angle)
    }

    /// The values of a set assertion, up to the closing brace (see `assert_vals`).
    fn parse_assert_values(&mut self) -> (r: Result<Vec<QubeExpr>, QubeParseError>)
        requires
            old(self).wf(),
        ensures
            final(self).wf(),
            final(self).toks() == old(self).toks(),
            match assert_vals(old(self).toks(), old(self).position(), Seq::empty()) {
                Parsed::Done(v, q) => r matches Ok(x) && x@.map_values(|e: QubeExpr| e@) == v && final(self).position() == q,
                Parsed::Fail(e) => r matches Err(x) && err_view(x) == e,
            },
    {
        let ghost t = self.toks();
        let ghost p0 = self.position();
        let mut vals: Vec<QubeExpr> = Vec::new();
        let mut done = false;
        assert(vals@.map_values(|x: QubeExpr| x@) =~= Seq::<QubeExprV>::empty());
        while !done && !self.check(&TokenKind::CloseBrace) && !self.is_at_end()
            invariant
                self.wf(),
                self.toks() == t,
                t == old(self).toks(),
                p0 == old(self).position(),
                assert_vals(t, p0, Seq::empty()) == (if done {
                    Parsed::Done(vals@.map_values(|x: QubeExpr| x@), self.position())
                } else {
                    assert_vals(t, self.position(), vals@.map_values(|x: QubeExpr| x@))
                }),
            decreases t.len() - self.position(), if done { 0int } else { 1int },
        {
            let ghost p = self.position();
            let ghost vv = vals@.map_values(|x: QubeExpr| x@);
            proof {
                lemma_expr_advances(t, p);
            }
            let v = match self.parse_qube_expr() {
                Ok(v) => v,
                Err(e) => {
                    return Err(e);
                },
            };
            let ghost v_view = v@;
            vals.push(v);
            assert(vals@.map_values(|x: QubeExpr| x@) =~= vv.push(v_view));
            if !self.match_one(TokenKind::Comma) {
                done = true;
            }
        }
        Ok(vals)
    }

    /// `collapse state -> result` (see `collapse`).
    fn parse_collapse(&mut self) -> (r: Result<QubeNode, QubeParseError>)
        requires
            old(self).wf(),
        ensures
            final(self).wf(),
            final(self).toks() == old(self).toks(),
            match collapse(old(self).toks(), old(self).position()) {
                Parsed::Done(v, q) => r matches Ok(x) && x@ == v && final(self).position() == q,
                Parsed::Fail(e) => r matches Err(x) && err_view(x) == e,
            },
    {
        let state = match self.consume_ident("Expected state name after 'collapse'") {
            Ok(n) => n,
            Err(e) => {
                return Err(e);
            },
        };
        match self.consume_arrow("Expected '->' after state name in collapse") {
            Ok(()) => {},
            Err(e) => {
                return Err(e);
            },
        }
        let result = match self.consume_ident("Expected result variable name") {
            Ok(n) => n,
            Err(e) => {
                return Err(e);
            },
        };
        self.skip_semicolon();
        Ok(QubeNode::Collapse { state, result })
    }

    /// `assert state ∈ {..}` or `assert state == value` (see `assert_stmt`).
    fn parse_assert(&mut self) -> (r: Result<QubeNode, QubeParseError>)
        requires
            old(self).wf(),
        ensures
            final(self).wf(),
            final(self).toks() == old(self).toks(),
            match assert_stmt(old(self).toks(), old(self).position()) {
                Parsed::Done(v, q) => r matches Ok(x) && x@ == v && final(self).position() == q,
                Parsed::Fail(e) => r matches Err(x) && err_view(x) == e,
            },
    {
        let state = match self.consume_ident("Expected variable name after 'assert'") {
            Ok(n) => n,
            Err(e) => {
                return Err(e);
            },
        };
        let op = match self.peek_kind() {
            TokenKind::QuantumIn => {
                self.advance();
                AssertOp::In
            },
            TokenKind::DoubleEquals => {
                self.advance();
                AssertOp::Eq
            },
            other => {
                let message = concat("Expected '∈' or '==' in assert, got ", other.debug_text().as_str());
                return Err(self.err_here(message.as_str()));
            },
        };
        let values = match op {
            AssertOp::In => {
                match self.consume_open_brace() {
                    Ok(()) => {},
                    Err(e) => {
                        return Err(e);
                    },
                }
                let vals = match self.parse_assert_values() {
                    Ok(v) => v,
                    Err(e) => {
                        return Err(e);
                    },
                };
                match self.consume_close_brace() {
                    Ok(()) => {},
                    Err(e) => {
                        return Err(e);
                    },
                }
                vals
            },
            AssertOp::Eq => {
                let v = match self.parse_qube_expr() {
                    Ok(v) => v,
                    Err(e) => {
                        return Err(e);
                    },
                };
                let mut vals: Vec<QubeExpr> = Vec::new();
                vals.push(v);
                assert(vals@.map_values(|x: QubeExpr| x@) =~= seq![vals@[0]@]);
                vals
            },
        };
        self.skip_semicolon();
        Ok(QubeNode::Assert { state, op, values })
    }

    /// `log(expr)` or `log expr`, the keyword already passed (see `log_stmt`).
    fn parse_log(&mut self) -> (r: Result<QubeNode, QubeParseError>)
        requires
            old(self).wf(),
        ensures
            final(self).wf(),
            final(self).toks() == old(self).toks(),
            match log_stmt(old(self).toks(), old(self).position()) {
                Parsed::Done(v, q) => r matches Ok(x) && x@ == v && final(self).position() == q,
                Parsed::Fail(e) => r matches Err(x) && err_view(x) == e,
            },
    {
        if self.match_one(TokenKind::OpenParen) {
            let e = match self.parse_qube_expr() {
                Ok(v) => v,
                Err(e) => {
                    return Err(e);
                },
            };
            match self.consume_close_paren() {
                Ok(()) => {},
                Err(err) => {
                    return Err(err);
                },
            }
            self.skip_semicolon();
            Ok(QubeNode::Log(e))
        } else {
            let e = match self.parse_qube_expr() {
                Ok(v) => v,
                Err(e) => {
                    return Err(e);
                },
            };
            self.skip_semicolon();
            Ok(QubeNode::Log(e))
        }
    }

    /// A statement (see `statement`).
    fn parse_statement(&mut self) -> (r: Result<QubeNode, QubeParseError>)
        requires
            old(self).wf(),
            !at_end(old(self).toks(), old(self).position()),
        ensures
            final(self).wf(),
            final(self).toks() == old(self).toks(),
            match statement(old(self).toks(), old(self).position()) {
                Parsed::Done(v, q) => r matches Ok(x) && x@ == v && final(self).position() == q,
                Parsed::Fail(e) => r matches Err(x) && err_view(x) == e,
            },
    {
        proof {
            reveal_strlit("state");
            reveal_strlit("apply");
            reveal_strlit("collapse");
            reveal_strlit("assert");
        }
        match self.peek_kind() {
            TokenKind::Identifier(s) => {
                self.advance();
                if same_text(s.as_str(), "state") {
                    self.parse_state_decl()
                } else if same_text(s.as_str(), "apply") {
                    self.parse_gate_apply()
                } else if same_text(s.as_str(), "collapse") {
                    self.parse_collapse()
                } else if same_text(s.as_str(), "assert") {
                    self.parse_assert()
                } else {
                    self.parse_log()
                }
            },
            TokenKind::Log => {
                self.advance();
                self.parse_log()
            },
            _ => {
                self.advance();
                let tok = self.previous().duplicate();
                let message = concat("Unexpected token ", tok.kind.debug_text().as_str());
                Err(self.err_at(message.as_str(), tok.line, tok.column))
            },
        }
    }

    /// Parses the whole input into a program (see `program`).
    pub fn parse(&mut self) -> (r: Result<QubeNode, QubeParseError>)
        requires
            old(self).wf(),
        ensures
            final(self).wf(),
            final(self).toks() == old(self).toks(),
            match program(old(self).toks(), old(self).position(), Seq::empty()) {
                Parsed::Done(v, _) => r matches Ok(x) && x@ == QubeNodeV::Program(v),
                Parsed::Fail(e) => r matches Err(x) && err_view(x) == e,
            },
    {
        let ghost t = self.toks();
        let ghost p0 = self.position();
        let mut stmts: Vec<QubeNode> = Vec::new();
        assert(stmts@.map_values(|n: QubeNode| stmt_view(n)) =~= Seq::<QubeNodeV>::empty());
        while !self.is_at_end()
            invariant
                self.wf(),
                self.toks() == t,
                t == old(self).toks(),
                p0 == old(self).position(),
                program(t, p0, Seq::empty()) == program(t, self.position(), stmts@.map_values(|n: QubeNode| stmt_view(n))),
            decreases t.len() - self.position(),
        {
            let ghost p = self.position();
            let ghost sv = stmts@.map_values(|n: QubeNode| stmt_view(n));
            match self.peek().kind {
                TokenKind::QuantumComment | TokenKind::BecauseComment | TokenKind::NoteComment => {
                    self.advance();
                },
                _ => {
                    proof {
                        lemma_statement_advances(t, p);
                    }
                    let n = match self.parse_statement() {
                        Ok(n) => n,
                        Err(e) => {
                            return Err(e);
                        },
                    };
                    let ghost nv = stmt_view(n);
                    stmts.push(n);
                    assert(stmts@.map_values(|n: QubeNode| stmt_view(n)) =~= sv.push(nv));
                },
            }
        }
        let r = QubeNode::Program(stmts);
        proof {
            assert(r@ == QubeNodeV::Program(stmts@.map_values(|n: QubeNode| stmt_view(n))));
        }
        Ok(r)
    }
}

/// The model of an optional text.
pub open spec fn opt_view(o: Option<String>) -> Option<Seq<char>> {
    match o {
        Some(s) => Some(s@),
        None => None,
    }
}

} // verus!
