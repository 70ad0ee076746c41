//! What the operators of the language are, stated once over all inputs: how the
//! lexer reads each operator's spelling, how the JavaScript back end writes each
//! operator, how lowering maps each to the representation's operator, which type
//! the analyzer gives each, and how each built-in gate is named for devices.

use vstd::prelude::*;
use crate::lexer_spec::{next_char, next_token_spec, token_at, ErrValue, LexConfig, LexState};
use crate::token::{KindValue, TokenKind, TokenValue};
use crate::ast::ASTNode;
use crate::code_generator::{op_text, HelperSet};
use crate::js_text::js_expr;
use crate::lexer::LexerOptions;
use crate::lowering::{binop_of, lowered};
use crate::ir::{BinOp, Expr, UnOp};
use crate::semantic_model::{check_expr, infer, AView, TypeView};
use crate::circuit_builder::{gate_name, hardware_gate_of, QuantumGate, QuantumGateType, QubitId};
use crate::hardware_integration::QuantumGate as HwGate;

verus! {

/// A character outside ASCII (the lexer's configurable comment and block markers
/// are such glyphs).
pub open spec fn beyond_ascii(c: char) -> bool {
    (c as u32) > 0x7F
}

/// From position `p` of `s`, outside AI blocks, the lexer's next token is an
/// operator of kind `k` spelled with the `width` characters at `p`.
pub open spec fn lexes_as(s: Seq<char>, cfg: LexConfig, p: int, k: KindValue, width: int) -> bool {
    next_token_spec(s, cfg, LexState { pos: p, in_ai: false }) == (
        Ok::<TokenValue, ErrValue>(token_at(s, k, Seq::empty(), p)),
        LexState { pos: p + width, in_ai: false },
    )
}

/// The lexer reads each operator by its spelling: a two-character operator (`>=`,
/// `<=`, `==`, `!=`, `&&`, `||`, `->`, `=>`, `::`, `:=`) is one token of that
/// operator; `+ - * / % < > = ! & :` alone, and the punctuation `; , . ( ) { } [ ]`,
/// are one-character tokens of their own kind.
/// This holds at every position of every text, outside AI blocks, for every set of
/// lexing rules whose markers are not ASCII.
pub proof fn lemma_operators_lex_by_spelling(s: Seq<char>, cfg: LexConfig, p: int)
    requires
        0 <= p < s.len(),
        beyond_ascii(cfg.line_comment),
        beyond_ascii(cfg.block_start),
        beyond_ascii(cfg.ai_start),
    ensures
        (s[p] == '>' && next_char(s, p) == Some('=')) ==> lexes_as(s, cfg, p, KindValue::GreaterEqual, 2),
        (s[p] == '<' && next_char(s, p) == Some('=')) ==> lexes_as(s, cfg, p, KindValue::LessEqual, 2),
        (s[p] == '=' && next_char(s, p) == Some('=')) ==> lexes_as(s, cfg, p, KindValue::DoubleEquals, 2),
        (s[p] == '!' && next_char(s, p) == Some('=')) ==> lexes_as(s, cfg, p, KindValue::NotEquals, 2),
        (s[p] == '&' && next_char(s, p) == Some('&')) ==> lexes_as(s, cfg, p, KindValue::AndAnd, 2),
        (s[p] == '|' && next_char(s, p) == Some('|')) ==> lexes_as(s, cfg, p, KindValue::OrOr, 2),
        (s[p] == '-' && next_char(s, p) == Some('>')) ==> lexes_as(s, cfg, p, KindValue::Arrow, 2),
        (s[p] == '=' && next_char(s, p) == Some('>')) ==> lexes_as(s, cfg, p, KindValue::FatArrow, 2),
        (s[p] == ':' && next_char(s, p) == Some(':')) ==> lexes_as(s, cfg, p, KindValue::DoubleColon, 2),
        (s[p] == ':' && next_char(s, p) == Some('=')) ==> lexes_as(s, cfg, p, KindValue::ColonEquals, 2),
        (s[p] == '>' && next_char(s, p) != Some('=')) ==> lexes_as(s, cfg, p, KindValue::GreaterThan, 1),
        (s[p] == '<' && next_char(s, p) != Some('=')) ==> lexes_as(s, cfg, p, KindValue::LessThan, 1),
        s[p] == '+' ==> lexes_as(s, cfg, p, KindValue::Plus, 1),
        (s[p] == '-' && next_char(s, p) != Some('>')) ==> lexes_as(s, cfg, p, KindValue::Minus, 1),
        s[p] == '*' ==> lexes_as(s, cfg, p, KindValue::Star, 1),
        (s[p] == '/' && next_char(s, p) != Some('/')) ==> lexes_as(s, cfg, p, KindValue::Slash, 1),
        s[p] == '%' ==> lexes_as(s, cfg, p, KindValue::Percent, 1),
        (s[p] == '=' && next_char(s, p) != Some('=') && next_char(s, p) != Some('>')) ==> lexes_as(
            s,
            cfg,
            p,
            KindValue::Equals,
            1,
        ),
        (s[p] == '!' && next_char(s, p) != Some('=')) ==> lexes_as(s, cfg, p, KindValue::Exclamation, 1),
        (s[p] == '&' && next_char(s, p) != Some('&')) ==> lexes_as(s, cfg, p, KindValue::Ampersand, 1),
        (s[p] == ':' && next_char(s, p) != Some(':') && next_char(s, p) != Some('=')) ==> lexes_as(
            s,
            cfg,
            p,
            KindValue::Colon,
            1,
        ),
        s[p] == ';' ==> lexes_as(s, cfg, p, KindValue::Semicolon, 1),
        s[p] == ',' ==> lexes_as(s, cfg, p, KindValue::Comma, 1),
        s[p] == '.' ==> lexes_as(s, cfg, p, KindValue::Dot, 1),
        s[p] == '(' ==> lexes_as(s, cfg, p, KindValue::OpenParen, 1),
        s[p] == ')' ==> lexes_as(s, cfg, p, KindValue::CloseParen, 1),
        s[p] == '{' ==> lexes_as(s, cfg, p, KindValue::OpenBrace, 1),
        s[p] == '}' ==> lexes_as(s, cfg, p, KindValue::CloseBrace, 1),
        s[p] == '[' ==> lexes_as(s, cfg, p, KindValue::OpenBracket, 1),
        s[p] == ']' ==> lexes_as(s, cfg, p, KindValue::CloseBracket, 1),
{
}

/// The arithmetic and comparison operators.
pub open spec fn is_arith_or_comparison(t: TokenKind) -> bool {
    t is Plus || t is Minus || t is Star || t is Slash || t is Percent || t is DoubleEquals || t is NotEquals
        || t is LessThan || t is LessEqual || t is GreaterThan || t is GreaterEqual
}

/// The binary operators the JavaScript back end spells as JavaScript does: the
/// arithmetic and comparison operators and `&&`, `||`.
pub open spec fn is_js_binary_operator(t: TokenKind) -> bool {
    is_arith_or_comparison(t) || t is AndAnd || t is OrOr
}

/// A binary expression of `op` on `l` and `r`.
pub open spec fn binary(op: TokenKind, l: ASTNode, r: ASTNode) -> ASTNode {
    ASTNode::BinaryExpr { op, left: Box::new(l), right: Box::new(r) }
}

/// `text` is `(left sym right)`: the operands around the operator's symbol, spaced,
/// in parentheses.
pub open spec fn infix(text: Seq<char>, left: Seq<char>, sym: Seq<char>, right: Seq<char>) -> bool {
    text == seq!['('] + left + seq![' '] + sym + seq![' '] + right + seq![')']
}

/// The JavaScript spelling of each binary operator, character by character.
pub proof fn lemma_op_text_chars(op: TokenKind)
    ensures
        op is Plus ==> op_text(op) == seq!['+'],
        op is Minus ==> op_text(op) == seq!['-'],
        op is Star ==> op_text(op) == seq!['*'],
        op is Slash ==> op_text(op) == seq!['/'],
        op is Percent ==> op_text(op) == seq!['%'],
        op is DoubleEquals ==> op_text(op) == seq!['=', '='],
        op is NotEquals ==> op_text(op) == seq!['!', '='],
        op is LessThan ==> op_text(op) == seq!['<'],
        op is LessEqual ==> op_text(op) == seq!['<', '='],
        op is GreaterThan ==> op_text(op) == seq!['>'],
        op is GreaterEqual ==> op_text(op) == seq!['>', '='],
        op is AndAnd ==> op_text(op) == seq!['&', '&'],
        op is OrOr ==> op_text(op) == seq!['|', '|'],
        op is Equals ==> op_text(op) == seq!['='],
        op is Bang ==> op_text(op) == seq!['!'],
        !(is_js_binary_operator(op) || op is Equals || op is Bang) ==> op_text(op) == seq!['/', '*', 'o', 'p', '*', '/'],
{
    reveal_strlit("+");
    assert("+"@ =~= seq!['+']);
    reveal_strlit("-");
    assert("-"@ =~= seq!['-']);
    reveal_strlit("*");
    assert("*"@ =~= seq!['*']);
    reveal_strlit("/");
    assert("/"@ =~= seq!['/']);
    reveal_strlit("%");
    assert("%"@ =~= seq!['%']);
    reveal_strlit("==");
    assert("=="@ =~= seq!['=', '=']);
    reveal_strlit("!=");
    assert("!="@ =~= seq!['!', '=']);
    reveal_strlit("<");
    assert("<"@ =~= seq!['<']);
    reveal_strlit("<=");
    assert("<="@ =~= seq!['<', '=']);
    reveal_strlit(">");
    assert(">"@ =~= seq!['>']);
    reveal_strlit(">=");
    assert(">="@ =~= seq!['>', '=']);
    reveal_strlit("&&");
    assert("&&"@ =~= seq!['&', '&']);
    reveal_strlit("||");
    assert("||"@ =~= seq!['|', '|']);
    reveal_strlit("=");
    assert("="@ =~= seq!['=']);
    reveal_strlit("!");
    assert("!"@ =~= seq!['!']);
    reveal_strlit("/*op*/");
    assert("/*op*/"@ =~= seq!['/', '*', 'o', 'p', '*', '/']);
}

/// The JavaScript of a binary expression is its operands in parentheses around the
/// operator's own symbol: `-` for subtraction, `+` for addition, and so on for every
/// arithmetic, comparison and logical operator, whatever the operands.
pub proof fn lemma_js_binary_symbols(op: TokenKind, l: ASTNode, r: ASTNode, ind: nat, h: HelperSet)
    ensures
        ({
            let t = js_expr(binary(op, l, r), ind, h).0;
            let a = js_expr(l, ind, h);
            let b = js_expr(r, ind, a.1).0;
            &&& op is Plus ==> infix(t, a.0, seq!['+'], b)
            &&& op is Minus ==> infix(t, a.0, seq!['-'], b)
            &&& op is Star ==> infix(t, a.0, seq!['*'], b)
            &&& op is Slash ==> infix(t, a.0, seq!['/'], b)
            &&& op is Percent ==> infix(t, a.0, seq!['%'], b)
            &&& op is DoubleEquals ==> infix(t, a.0, seq!['=', '='], b)
            &&& op is NotEquals ==> infix(t, a.0, seq!['!', '='], b)
            &&& op is LessThan ==> infix(t, a.0, seq!['<'], b)
            &&& op is LessEqual ==> infix(t, a.0, seq!['<', '='], b)
            &&& op is GreaterThan ==> infix(t, a.0, seq!['>'], b)
            &&& op is GreaterEqual ==> infix(t, a.0, seq!['>', '='], b)
            &&& op is AndAnd ==> infix(t, a.0, seq!['&', '&'], b)
            &&& op is OrOr ==> infix(t, a.0, seq!['|', '|'], b)
        }),
{
    let t = js_expr(binary(op, l, r), ind, h).0;
    let a = js_expr(l, ind, h);
    let b = js_expr(r, ind, a.1).0;
    reveal_strlit("(");
    assert("("@ =~= seq!['(']);
    reveal_strlit(")");
    assert(")"@ =~= seq![')']);
    reveal_strlit(" ");
    assert(" "@ =~= seq![' ']);
    reveal_strlit("+");
    assert("+"@ =~= seq!['+']);
    reveal_strlit("-");
    assert("-"@ =~= seq!['-']);
    reveal_strlit("*");
    assert("*"@ =~= seq!['*']);
    reveal_strlit("/");
    assert("/"@ =~= seq!['/']);
    reveal_strlit("%");
    assert("%"@ =~= seq!['%']);
    reveal_strlit("==");
    assert("=="@ =~= seq!['=', '=']);
    reveal_strlit("!=");
    assert("!="@ =~= seq!['!', '=']);
    reveal_strlit("<");
    assert("<"@ =~= seq!['<']);
    reveal_strlit("<=");
    assert("<="@ =~= seq!['<', '=']);
    reveal_strlit(">");
    assert(">"@ =~= seq!['>']);
    reveal_strlit(">=");
    assert(">="@ =~= seq!['>', '=']);
    reveal_strlit("&&");
    assert("&&"@ =~= seq!['&', '&']);
    reveal_strlit("||");
    assert("||"@ =~= seq!['|', '|']);
    reveal_strlit("=");
    assert("="@ =~= seq!['=']);
    reveal_strlit("!");
    assert("!"@ =~= seq!['!']);
    reveal_strlit("/*op*/");
    assert("/*op*/"@ =~= seq!['/', '*', 'o', 'p', '*', '/']);
    assert(t == "("@ + a.0 + " "@ + op_text(op) + " "@ + b + ")"@);
}

/// The JavaScript of a negation is `-` before its operand, of a logical not `!`
/// before its operand, whatever the operand.
pub proof fn lemma_js_unary_symbols(op: TokenKind, e: ASTNode, ind: nat, h: HelperSet)
    ensures
        op is Minus ==> js_expr(ASTNode::UnaryExpr { op, expr: Box::new(e) }, ind, h).0 == seq!['-'] + js_expr(
            e,
            ind,
            h,
        ).0,
        op is Bang ==> js_expr(ASTNode::UnaryExpr { op, expr: Box::new(e) }, ind, h).0 == seq!['!'] + js_expr(
            e,
            ind,
            h,
        ).0,
{
    reveal_strlit("+");
    assert("+"@ =~= seq!['+']);
    reveal_strlit("-");
    assert("-"@ =~= seq!['-']);
    reveal_strlit("*");
    assert("*"@ =~= seq!['*']);
    reveal_strlit("/");
    assert("/"@ =~= seq!['/']);
    reveal_strlit("%");
    assert("%"@ =~= seq!['%']);
    reveal_strlit("==");
    assert("=="@ =~= seq!['=', '=']);
    reveal_strlit("!=");
    assert("!="@ =~= seq!['!', '=']);
    reveal_strlit("<");
    assert("<"@ =~= seq!['<']);
    reveal_strlit("<=");
    assert("<="@ =~= seq!['<', '=']);
    reveal_strlit(">");
    assert(">"@ =~= seq!['>']);
    reveal_strlit(">=");
    assert(">="@ =~= seq!['>', '=']);
    reveal_strlit("&&");
    assert("&&"@ =~= seq!['&', '&']);
    reveal_strlit("||");
    assert("||"@ =~= seq!['|', '|']);
    reveal_strlit("=");
    assert("="@ =~= seq!['=']);
    reveal_strlit("!");
    assert("!"@ =~= seq!['!']);
    reveal_strlit("/*op*/");
    assert("/*op*/"@ =~= seq!['/', '*', 'o', 'p', '*', '/']);
}

/// The JavaScript spelling of every binary operator is the language's own: read back
/// by the lexer (with the standard rules), it is one token of that same operator.
pub proof fn lemma_js_operators_lex_back(op: TokenKind)
    requires
        is_js_binary_operator(op),
    ensures
        lexes_as(op_text(op), LexerOptions::standard_config(), 0, op@, op_text(op).len() as int),
{
    reveal_strlit("+");
    assert("+"@ =~= seq!['+']);
    reveal_strlit("-");
    assert("-"@ =~= seq!['-']);
    reveal_strlit("*");
    assert("*"@ =~= seq!['*']);
    reveal_strlit("/");
    assert("/"@ =~= seq!['/']);
    reveal_strlit("%");
    assert("%"@ =~= seq!['%']);
    reveal_strlit("==");
    assert("=="@ =~= seq!['=', '=']);
    reveal_strlit("!=");
    assert("!="@ =~= seq!['!', '=']);
    reveal_strlit("<");
    assert("<"@ =~= seq!['<']);
    reveal_strlit("<=");
    assert("<="@ =~= seq!['<', '=']);
    reveal_strlit(">");
    assert(">"@ =~= seq!['>']);
    reveal_strlit(">=");
    assert(">="@ =~= seq!['>', '=']);
    reveal_strlit("&&");
    assert("&&"@ =~= seq!['&', '&']);
    reveal_strlit("||");
    assert("||"@ =~= seq!['|', '|']);
    reveal_strlit("=");
    assert("="@ =~= seq!['=']);
    reveal_strlit("!");
    assert("!"@ =~= seq!['!']);
    reveal_strlit("/*op*/");
    assert("/*op*/"@ =~= seq!['/', '*', 'o', 'p', '*', '/']);
    let s = op_text(op);
    lemma_operators_lex_by_spelling(s, LexerOptions::standard_config(), 0);
}

/// Lowering maps each arithmetic and comparison operator to the representation's
/// operator of the same meaning, whatever the operands.
pub proof fn lemma_lowered_operators(op: TokenKind, l: ASTNode, r: ASTNode, e: Expr)
    requires
        lowered(binary(op, l, r), e),
    ensures
        e matches Expr::Binary { op: o, .. } && {
            &&& op is Plus ==> o == BinOp::Add
            &&& op is Minus ==> o == BinOp::Sub
            &&& op is Star ==> o == BinOp::Mul
            &&& op is Slash ==> o == BinOp::Div
            &&& op is Percent ==> o == BinOp::Mod
            &&& op is DoubleEquals ==> o == BinOp::Eq
            &&& op is NotEquals ==> o == BinOp::Ne
            &&& op is LessThan ==> o == BinOp::Lt
            &&& op is LessEqual ==> o == BinOp::Le
            &&& op is GreaterThan ==> o == BinOp::Gt
            &&& op is GreaterEqual ==> o == BinOp::Ge
            &&& op is Bind ==> o == BinOp::Add
            &&& op is Caret ==> o == BinOp::Mod
            &&& !(is_arith_or_comparison(op) || op is Bind || op is Caret) ==> o == BinOp::Eq
        },
{
}

/// Lowering a negation gives `Neg` of the lowered operand, and any other unary
/// operator `Not`.
pub proof fn lemma_lowered_unary(op: TokenKind, x: ASTNode, e: Expr)
    requires
        lowered(ASTNode::UnaryExpr { op, expr: Box::new(x) }, e),
    ensures
        e matches Expr::Unary { op: o, expr: y } && lowered(x, *y) && (op is Minus ==> o == UnOp::Neg) && (
        !(op is Minus) ==> o == UnOp::Not),
{
}

/// Distinct arithmetic and comparison operators stay distinct through lowering and
/// through JavaScript generation, and the two agree on which operators are the same.
pub proof fn lemma_operators_kept_apart(a: TokenKind, b: TokenKind)
    requires
        is_arith_or_comparison(a),
        is_arith_or_comparison(b),
    ensures
        binop_of(a) == binop_of(b) <==> a == b,
        op_text(a) == op_text(b) <==> a == b,
        binop_of(a) == binop_of(b) <==> op_text(a) == op_text(b),
{
    reveal_strlit("+");
    assert("+"@ =~= seq!['+']);
    reveal_strlit("-");
    assert("-"@ =~= seq!['-']);
    reveal_strlit("*");
    assert("*"@ =~= seq!['*']);
    reveal_strlit("/");
    assert("/"@ =~= seq!['/']);
    reveal_strlit("%");
    assert("%"@ =~= seq!['%']);
    reveal_strlit("==");
    assert("=="@ =~= seq!['=', '=']);
    reveal_strlit("!=");
    assert("!="@ =~= seq!['!', '=']);
    reveal_strlit("<");
    assert("<"@ =~= seq!['<']);
    reveal_strlit("<=");
    assert("<="@ =~= seq!['<', '=']);
    reveal_strlit(">");
    assert(">"@ =~= seq!['>']);
    reveal_strlit(">=");
    assert(">="@ =~= seq!['>', '=']);
    reveal_strlit("&&");
    assert("&&"@ =~= seq!['&', '&']);
    reveal_strlit("||");
    assert("||"@ =~= seq!['|', '|']);
    reveal_strlit("=");
    assert("="@ =~= seq!['=']);
    reveal_strlit("!");
    assert("!"@ =~= seq!['!']);
    reveal_strlit("/*op*/");
    assert("/*op*/"@ =~= seq!['/', '*', 'o', 'p', '*', '/']);
    if op_text(a) == op_text(b) {
        assert(op_text(a).len() == op_text(b).len());
        assert(op_text(a)[0] == op_text(b)[0]);
        if op_text(a).len() == 2 {
            assert(op_text(a)[1] == op_text(b)[1]);
        }
    }
}

/// Every comparison has the type of a boolean literal and every arithmetic operation
/// that of a number literal, whatever the operands and the scopes; so a comparison
/// is accepted, with no diagnostic, wherever a boolean is expected.
pub proof fn lemma_operator_types(st: AView, op: TokenKind, l: ASTNode, r: ASTNode, num: String)
    ensures
        (op is DoubleEquals || op is NotEquals || op is LessThan || op is LessEqual || op is GreaterThan
            || op is GreaterEqual) ==> infer(st, binary(op, l, r)) == infer(st, ASTNode::BooleanLiteral(true))
            && infer(st, binary(op, l, r)) == TypeView::Boolean && check_expr(st, binary(op, l, r), TypeView::Boolean)
            == st,
        (op is Plus || op is Minus || op is Star || op is Slash) ==> infer(st, binary(op, l, r)) == infer(
            st,
            ASTNode::NumberLiteral(num),
        ) && infer(st, binary(op, l, r)) == TypeView::Number,
        !(op is Plus || op is Minus || op is Star || op is Slash || op is DoubleEquals || op is NotEquals
            || op is LessThan || op is LessEqual || op is GreaterThan || op is GreaterEqual) ==> infer(
            st,
            binary(op, l, r),
        ) == TypeView::Unknown,
{
}

/// Two gates of the same kind (up to their angles or names).
pub open spec fn same_gate_kind(a: QuantumGateType, b: QuantumGateType) -> bool {
    &&& a is Hadamard <==> b is Hadamard
    &&& a is PauliX <==> b is PauliX
    &&& a is PauliY <==> b is PauliY
    &&& a is PauliZ <==> b is PauliZ
    &&& a is Phase <==> b is Phase
    &&& a is RotationX <==> b is RotationX
    &&& a is RotationY <==> b is RotationY
    &&& a is RotationZ <==> b is RotationZ
    &&& a is S <==> b is S
    &&& a is T <==> b is T
    &&& a is SDagger <==> b is SDagger
    &&& a is TDagger <==> b is TDagger
    &&& a is CNOT <==> b is CNOT
    &&& a is CZ <==> b is CZ
    &&& a is CY <==> b is CY
    &&& a is SWAP <==> b is SWAP
    &&& a is Toffoli <==> b is Toffoli
    &&& a is Fredkin <==> b is Fredkin
    &&& a is Measure <==> b is Measure
}

/// The device name of each built-in gate kind, character by character.
pub proof fn lemma_gate_name_chars(t: QuantumGateType)
    ensures
        t is Hadamard ==> gate_name(t) == seq!['h'],
        t is PauliX ==> gate_name(t) == seq!['x'],
        t is PauliY ==> gate_name(t) == seq!['y'],
        t is PauliZ ==> gate_name(t) == seq!['z'],
        t is Phase ==> gate_name(t) == seq!['p'],
        t is RotationX ==> gate_name(t) == seq!['r', 'x'],
        t is RotationY ==> gate_name(t) == seq!['r', 'y'],
        t is RotationZ ==> gate_name(t) == seq!['r', 'z'],
        t is S ==> gate_name(t) == seq!['s'],
        t is T ==> gate_name(t) == seq!['t'],
        t is SDagger ==> gate_name(t) == seq!['s', 'd', 'g'],
        t is TDagger ==> gate_name(t) == seq!['t', 'd', 'g'],
        t is CNOT ==> gate_name(t) == seq!['c', 'x'],
        t is CZ ==> gate_name(t) == seq!['c', 'z'],
        t is CY ==> gate_name(t) == seq!['c', 'y'],
        t is SWAP ==> gate_name(t) == seq!['s', 'w', 'a', 'p'],
        t is Toffoli ==> gate_name(t) == seq!['c', 'c', 'x'],
        t is Fredkin ==> gate_name(t) == seq!['c', 's', 'w', 'a', 'p'],
        t is Measure ==> gate_name(t) == seq!['m', 'e', 'a', 's', 'u', 'r', 'e'],
{
    reveal_strlit("h");
    assert("h"@ =~= seq!['h']);
    reveal_strlit("x");
    assert("x"@ =~= seq!['x']);
    reveal_strlit("y");
    assert("y"@ =~= seq!['y']);
    reveal_strlit("z");
    assert("z"@ =~= seq!['z']);
    reveal_strlit("p");
    assert("p"@ =~= seq!['p']);
    reveal_strlit("rx");
    assert("rx"@ =~= seq!['r', 'x']);
    reveal_strlit("ry");
    assert("ry"@ =~= seq!['r', 'y']);
    reveal_strlit("rz");
    assert("rz"@ =~= seq!['r', 'z']);
    reveal_strlit("s");
    assert("s"@ =~= seq!['s']);
    reveal_strlit("t");
    assert("t"@ =~= seq!['t']);
    reveal_strlit("sdg");
    assert("sdg"@ =~= seq!['s', 'd', 'g']);
    reveal_strlit("tdg");
    assert("tdg"@ =~= seq!['t', 'd', 'g']);
    reveal_strlit("cx");
    assert("cx"@ =~= seq!['c', 'x']);
    reveal_strlit("cz");
    assert("cz"@ =~= seq!['c', 'z']);
    reveal_strlit("cy");
    assert("cy"@ =~= seq!['c', 'y']);
    reveal_strlit("swap");
    assert("swap"@ =~= seq!['s', 'w', 'a', 'p']);
    reveal_strlit("ccx");
    assert("ccx"@ =~= seq!['c', 'c', 'x']);
    reveal_strlit("cswap");
    assert("cswap"@ =~= seq!['c', 's', 'w', 'a', 'p']);
    reveal_strlit("measure");
    assert("measure"@ =~= seq!['m', 'e', 'a', 's', 'u', 'r', 'e']);
}

/// A gate sent to a device carries the standard name of its kind (`h`, `x`, `y`,
/// `z`, `p`, `rx`, `ry`, `rz`, `s`, `t`, `sdg`, `tdg`, `cx`, `cz`, `cy`, `swap`,
/// `ccx`, `cswap`, `measure`), for every gate of every circuit.
pub proof fn lemma_hardware_gate_names(g: QuantumGate, circuit: Seq<QubitId>, hw: HwGate)
    requires
        hardware_gate_of(g, circuit, hw),
    ensures
        ({
            let n = hw.gate_type@;
            let t = g.gate_type;
            &&& t is Hadamard ==> n == seq!['h']
            &&& t is PauliX ==> n == seq!['x']
            &&& t is PauliY ==> n == seq!['y']
            &&& t is PauliZ ==> n == seq!['z']
            &&& t is Phase ==> n == seq!['p']
            &&& t is RotationX ==> n == seq!['r', 'x']
            &&& t is RotationY ==> n == seq!['r', 'y']
            &&& t is RotationZ ==> n == seq!['r', 'z']
            &&& t is S ==> n == seq!['s']
            &&& t is T ==> n == seq!['t']
            &&& t is SDagger ==> n == seq!['s', 'd', 'g']
            &&& t is TDagger ==> n == seq!['t', 'd', 'g']
            &&& t is CNOT ==> n == seq!['c', 'x']
            &&& t is CZ ==> n == seq!['c', 'z']
            &&& t is CY ==> n == seq!['c', 'y']
            &&& t is SWAP ==> n == seq!['s', 'w', 'a', 'p']
            &&& t is Toffoli ==> n == seq!['c', 'c', 'x']
            &&& t is Fredkin ==> n == seq!['c', 's', 'w', 'a', 'p']
            &&& t is Measure ==> n == seq!['m', 'e', 'a', 's', 'u', 'r', 'e']
            &&& t matches QuantumGateType::Custom(name, _) ==> n == name@
        }),
{
    reveal_strlit("h");
    assert("h"@ =~= seq!['h']);
    reveal_strlit("x");
    assert("x"@ =~= seq!['x']);
    reveal_strlit("y");
    assert("y"@ =~= seq!['y']);
    reveal_strlit("z");
    assert("z"@ =~= seq!['z']);
    reveal_strlit("p");
    assert("p"@ =~= seq!['p']);
    reveal_strlit("rx");
    assert("rx"@ =~= seq!['r', 'x']);
    reveal_strlit("ry");
    assert("ry"@ =~= seq!['r', 'y']);
    reveal_strlit("rz");
    assert("rz"@ =~= seq!['r', 'z']);
    reveal_strlit("s");
    assert("s"@ =~= seq!['s']);
    reveal_strlit("t");
    assert("t"@ =~= seq!['t']);
    reveal_strlit("sdg");
    assert("sdg"@ =~= seq!['s', 'd', 'g']);
    reveal_strlit("tdg");
    assert("tdg"@ =~= seq!['t', 'd', 'g']);
    reveal_strlit("cx");
    assert("cx"@ =~= seq!['c', 'x']);
    reveal_strlit("cz");
    assert("cz"@ =~= seq!['c', 'z']);
    reveal_strlit("cy");
    assert("cy"@ =~= seq!['c', 'y']);
    reveal_strlit("swap");
    assert("swap"@ =~= seq!['s', 'w', 'a', 'p']);
    reveal_strlit("ccx");
    assert("ccx"@ =~= seq!['c', 'c', 'x']);
    reveal_strlit("cswap");
    assert("cswap"@ =~= seq!['c', 's', 'w', 'a', 'p']);
    reveal_strlit("measure");
    assert("measure"@ =~= seq!['m', 'e', 'a', 's', 'u', 'r', 'e']);
}

/// Built-in gates of different kinds are sent to devices under different names.
pub proof fn lemma_gate_names_distinct(a: QuantumGateType, b: QuantumGateType)
    requires
        !(a is Custom),
        !(b is Custom),
        gate_name(a) == gate_name(b),
    ensures
        same_gate_kind(a, b),
{
    reveal_strlit("h");
    assert("h"@ =~= seq!['h']);
    reveal_strlit("x");
    assert("x"@ =~= seq!['x']);
    reveal_strlit("y");
    assert("y"@ =~= seq!['y']);
    reveal_strlit("z");
    assert("z"@ =~= seq!['z']);
    reveal_strlit("p");
    assert("p"@ =~= seq!['p']);
    reveal_strlit("rx");
    assert("rx"@ =~= seq!['r', 'x']);
    reveal_strlit("ry");
    assert("ry"@ =~= seq!['r', 'y']);
    reveal_strlit("rz");
    assert("rz"@ =~= seq!['r', 'z']);
    reveal_strlit("s");
    assert("s"@ =~= seq!['s']);
    reveal_strlit("t");
    assert("t"@ =~= seq!['t']);
    reveal_strlit("sdg");
    assert("sdg"@ =~= seq!['s', 'd', 'g']);
    reveal_strlit("tdg");
    assert("tdg"@ =~= seq!['t', 'd', 'g']);
    reveal_strlit("cx");
    assert("cx"@ =~= seq!['c', 'x']);
    reveal_strlit("cz");
    assert("cz"@ =~= seq!['c', 'z']);
    reveal_strlit("cy");
    assert("cy"@ =~= seq!['c', 'y']);
    reveal_strlit("swap");
    assert("swap"@ =~= seq!['s', 'w', 'a', 'p']);
    reveal_strlit("ccx");
    assert("ccx"@ =~= seq!['c', 'c', 'x']);
    reveal_strlit("cswap");
    assert("cswap"@ =~= seq!['c', 's', 'w', 'a', 'p']);
    reveal_strlit("measure");
    assert("measure"@ =~= seq!['m', 'e', 'a', 's', 'u', 'r', 'e']);
    let (x, y) = (gate_name(a), gate_name(b));
    assert(x.len() == y.len());
    assert(x[0] == y[0]);
    if x.len() > 1 {
        assert(x[1] == y[1]);
    }
    if x.len() > 2 {
        assert(x[2] == y[2]);
    }
}

} // verus!
