//! The lexical grammar of Aeonmi source, stated over character sequences.
//!
//! A lexer state is the index of the current character together with the
//! "inside an AI-only block" flag; line and column are functions of the index.

use vstd::prelude::*;
use crate::text::{spec_is_ascii_digit, spec_is_ascii_hexdigit, spec_is_ascii_whitespace, spec_is_unicode_whitespace, spec_hex_value, spec_utf8_len, spec_is_scalar, decimal_text};
use crate::token::KindValue;
use crate::token::TokenValue;
use crate::unicode::xid_start;
use crate::unicode::xid_continue;

verus! {

/// The settings of a lexer that decide how text is split into tokens.
pub ghost struct LexConfig {
    pub ai_start: char,
    pub ai_end: char,
    pub line_comment: char,
    pub block_start: char,
    pub block_end: char,
    pub mixed_numerals: bool,
    pub max_ai_bytes: int,
    pub authorized: bool,
}

/// The value of a lexer error.
pub ghost enum ErrValue {
    UnexpectedCharacter(char, int, int),
    UnterminatedString(int, int),
    InvalidNumber(Seq<char>, int, int),
    InvalidGlyph(Seq<char>, int, int),
    UnterminatedComment(int, int),
    UnauthorizedAIAccess(int, int),
    AIContentTooLarge(int, int),
    PluginError(Seq<char>, int, int),
    Diagnostic(Seq<char>, int, int, Option<Seq<char>>),
    InvalidQubitLiteral(Seq<char>, int, int),
}

/// Where the lexer stands: the index of its current character and whether it is
/// inside an AI-only block.
pub ghost struct LexState {
    pub pos: int,
    pub in_ai: bool,
}

/// (line, column) after reading the first `n` characters of `s`: lines count from 1,
/// a line feed starts a new line at column 0, any other character moves one column on.
pub open spec fn line_col_after(s: Seq<char>, n: int) -> (int, int)
    decreases n,
{
    if n <= 0 {
        (1, 0)
    } else {
        let (l, c) = line_col_after(s, n - 1);
        if s[n - 1] == '\n' {
            (l + 1, 0)
        } else {
            (l, c + 1)
        }
    }
}

/// The number of characters read when the current character is at index `p`
/// (the current character counts as read).
pub open spec fn read_count(s: Seq<char>, p: int) -> int {
    if p + 1 < s.len() {
        p + 1
    } else {
        s.len() as int
    }
}

/// Line of the current character at index `p`.
pub open spec fn line_at(s: Seq<char>, p: int) -> int {
    line_col_after(s, read_count(s, p)).0
}

/// Column of the current character at index `p`.
pub open spec fn col_at(s: Seq<char>, p: int) -> int {
    line_col_after(s, read_count(s, p)).1
}

/// After `n` characters the line is between 1 and `n + 1`, the column at most `n`.
pub proof fn lemma_line_col_bounds(s: Seq<char>, n: int)
    requires
        0 <= n <= s.len(),
    ensures
        1 <= line_col_after(s, n).0 <= n + 1,
        0 <= line_col_after(s, n).1 <= n,
    decreases n,
{
    if n > 0 {
        lemma_line_col_bounds(s, n - 1);
    }
}

/// The first index at or after `i` whose character does not satisfy `p`
/// (the length when there is none).
pub open spec fn run_end(s: Seq<char>, i: int, p: spec_fn(char) -> bool) -> int
    decreases s.len() - i,
{
    if i < 0 || i >= s.len() {
        s.len() as int
    } else if p(s[i]) {
        run_end(s, i + 1, p)
    } else {
        i
    }
}

/// A run that starts at `i` ends within the text, every character in it has the
/// property, and the character that ends it does not.
pub proof fn lemma_run_end(s: Seq<char>, i: int, p: spec_fn(char) -> bool)
    requires
        0 <= i <= s.len(),
    ensures
        i <= run_end(s, i, p) <= s.len(),
        forall|k: int| i <= k < run_end(s, i, p) ==> #[trigger] p(s[k]),
        run_end(s, i, p) < s.len() ==> !p(s[run_end(s, i, p)]),
    decreases s.len() - i,
{
    if i < s.len() && p(s[i]) {
        lemma_run_end(s, i + 1, p);
    }
}

/// The characters of the numeral glyph block U+1D360..U+1D369.
pub open spec fn spec_is_numeric_glyph(c: char) -> bool {
    0x1D360 <= (c as u32) && (c as u32) <= 0x1D369
}

/// Characters above ASCII, read as hieroglyphic operators.
pub open spec fn spec_is_hieroglyphic(c: char) -> bool {
    (c as u32) > 0x7F
}

/// The whitespace the lexer skips between tokens.
pub open spec fn spec_is_safe_whitespace(c: char) -> bool {
    c == ' ' || c == '\t' || c == '\r' || c == '\n' || c == '\u{FEFF}'
}

pub open spec fn spec_is_identifier_start(c: char) -> bool {
    c == '_' || xid_start(c)
}

pub open spec fn spec_is_identifier_part(c: char) -> bool {
    c == '_' || xid_continue(c)
}

/// Predicates the lexer scans with.
pub open spec fn ident_part_pred() -> spec_fn(char) -> bool {
    |c: char| spec_is_identifier_part(c)
}

pub open spec fn glyph_pred() -> spec_fn(char) -> bool {
    |c: char| spec_is_numeric_glyph(c)
}

pub open spec fn hex_pred() -> spec_fn(char) -> bool {
    |c: char| spec_is_ascii_hexdigit(c)
}

/// The closing marks of a ket.
pub open spec fn ket_close_pred() -> spec_fn(char) -> bool {
    |c: char| c == '>' || c == '⟩'
}

/// The pipe character.
pub open spec fn pipe_pred() -> spec_fn(char) -> bool {
    |c: char| c == '|'
}

/// Any character other than `stop`.
pub open spec fn other_than(stop: char) -> spec_fn(char) -> bool {
    |c: char| c != stop
}

/// The ASCII digit that a numeral glyph stands for; other characters are kept.
pub open spec fn digit_char(c: char) -> char {
    if spec_is_numeric_glyph(c) {
        (('0' as u32) + ((c as u32) - 0x1D360)) as char
    } else {
        c
    }
}

pub open spec fn digit_char_fn() -> spec_fn(char) -> char {
    |c: char| digit_char(c)
}

/// Characters allowed inside a ket label.
pub open spec fn spec_is_ket_char(c: char) -> bool {
    spec_is_identifier_part(c) || spec_is_ascii_digit(c) || spec_is_numeric_glyph(c) || c == '+'
        || c == '-'
}

/// A ket label is valid when it is not all whitespace and every character is a
/// sign, a digit, an identifier character, a numeral glyph or whitespace.
pub open spec fn spec_is_valid_qubit_inner(content: Seq<char>) -> bool {
    (exists|i: int| 0 <= i < content.len() && !spec_is_unicode_whitespace(#[trigger] content[i]))
        && (forall|i: int|
        0 <= i < content.len() ==> (#[trigger] content[i] == '+' || content[i] == '-'
            || spec_is_ascii_digit(content[i]) || spec_is_identifier_part(content[i])
            || spec_is_numeric_glyph(content[i]) || spec_is_unicode_whitespace(content[i])))
}

/// Operator and delimiter glyphs that form a token on their own.
pub open spec fn glyph_kind(c: char) -> Option<KindValue> {
    if c == '≤' { Some(KindValue::LessEqual) }
    else if c == '≥' { Some(KindValue::GreaterEqual) }
    else if c == '≠' { Some(KindValue::NotEquals) }
    else if c == '＝' { Some(KindValue::DoubleEquals) }
    else if c == '≔' { Some(KindValue::ColonEquals) }
    else if c == '←' { Some(KindValue::QuantumBind) }
    else if c == '∈' { Some(KindValue::QuantumIn) }
    else if c == '⊗' { Some(KindValue::QuantumTensor) }
    else if c == '≈' { Some(KindValue::QuantumApprox) }
    else if c == '⊕' { Some(KindValue::QuantumXor) }
    else if c == '⊖' { Some(KindValue::QuantumOr) }
    else if c == '⊄' { Some(KindValue::QuantumNot) }
    else if c == '∇' { Some(KindValue::QuantumGradient) }
    else if c == '⪰' { Some(KindValue::QuantumGeq) }
    else if c == '⪯' { Some(KindValue::QuantumLeq) }
    else if c == '⇒' { Some(KindValue::QuantumImplies) }
    else if c == '⟲' { Some(KindValue::QuantumLoop) }
    else if c == '◊' { Some(KindValue::QuantumModulo) }
    else if c == '𓁁' { Some(KindValue::Entangle) }
    else if c == '⟨' { Some(KindValue::QuantumBracketOpen) }
    else if c == '⟩' { Some(KindValue::QuantumBracketClose) }
    else if c == '⟦' { Some(KindValue::QuantumIndexOpen) }
    else if c == '⟧' { Some(KindValue::QuantumIndexClose) }
    else if c == '◯' { Some(KindValue::ClassicalFunc) }
    else if c == '⊙' { Some(KindValue::QuantumFunc) }
    else if c == '∴' { Some(KindValue::QuantumComment) }
    else if c == '∵' { Some(KindValue::BecauseComment) }
    else if c == '※' { Some(KindValue::NoteComment) }
    else if c == '⚡' { Some(KindValue::Attempt) }
    else if c == '⚠' { Some(KindValue::Warning) }
    else if c == '✓' { Some(KindValue::Success) }
    else if c == '⏰' || c == '⏱' { Some(KindValue::TimeBlock) }
    else { None }
}

/// Two-character operators, from the current and the next character.
pub open spec fn multi_char_kind(c: char, next: Option<char>) -> Option<KindValue> {
    match next {
        Some(n) => {
            if c == '=' && n == '=' { Some(KindValue::DoubleEquals) }
            else if c == '!' && n == '=' { Some(KindValue::NotEquals) }
            else if c == '<' && n == '=' { Some(KindValue::LessEqual) }
            else if c == '>' && n == '=' { Some(KindValue::GreaterEqual) }
            else if c == ':' && n == ':' { Some(KindValue::DoubleColon) }
            else if c == ':' && n == '=' { Some(KindValue::ColonEquals) }
            else if c == '-' && n == '>' { Some(KindValue::Arrow) }
            else if c == '=' && n == '>' { Some(KindValue::FatArrow) }
            else if c == '&' && n == '&' { Some(KindValue::AndAnd) }
            else if c == '|' && n == '|' { Some(KindValue::OrOr) }
            else { None }
        },
        None => None,
    }
}

/// One-character tokens; other characters above ASCII become hieroglyphic operators.
pub open spec fn single_char_kind(c: char) -> Option<KindValue> {
    if c == '+' { Some(KindValue::Plus) }
    else if c == '-' { Some(KindValue::Minus) }
    else if c == '*' { Some(KindValue::Star) }
    else if c == '/' { Some(KindValue::Slash) }
    else if c == '%' { Some(KindValue::Percent) }
    else if c == '=' { Some(KindValue::Equals) }
    else if c == ';' { Some(KindValue::Semicolon) }
    else if c == ',' { Some(KindValue::Comma) }
    else if c == ':' { Some(KindValue::Colon) }
    else if c == '.' { Some(KindValue::Dot) }
    else if c == '(' { Some(KindValue::OpenParen) }
    else if c == ')' { Some(KindValue::CloseParen) }
    else if c == '{' { Some(KindValue::OpenBrace) }
    else if c == '}' { Some(KindValue::CloseBrace) }
    else if c == '[' { Some(KindValue::OpenBracket) }
    else if c == ']' { Some(KindValue::CloseBracket) }
    else if c == '<' { Some(KindValue::LessThan) }
    else if c == '>' { Some(KindValue::GreaterThan) }
    else if c == '|' { Some(KindValue::Pipe) }
    else if c == '&' { Some(KindValue::Ampersand) }
    else if c == '!' { Some(KindValue::Exclamation) }
    else if c == '🧠' { Some(KindValue::AIFunc) }
    else if spec_is_hieroglyphic(c) { Some(KindValue::HieroglyphicOp(seq![c])) }
    else { None }
}

/// The kind of a word: a keyword, a boolean literal, or an identifier.
pub open spec fn keyword_kind(w: Seq<char>) -> KindValue {
    if w == "let"@ { KindValue::Let }
    else if w == "fn"@ { KindValue::Fn }
    else if w == "function"@ { KindValue::Function }
    else if w == "return"@ { KindValue::Return }
    else if w == "log"@ { KindValue::Log }
    else if w == "qubit"@ { KindValue::Qubit }
    else if w == "class"@ { KindValue::Class }
    else if w == "struct"@ { KindValue::Struct }
    else if w == "trait"@ { KindValue::Trait }
    else if w == "impl"@ { KindValue::Impl }
    else if w == "match"@ { KindValue::Match }
    else if w == "superpose"@ { KindValue::Superpose }
    else if w == "entangle"@ { KindValue::Entangle }
    else if w == "measure"@ { KindValue::Measure }
    else if w == "dod"@ { KindValue::Dod }
    else if w == "if"@ { KindValue::If }
    else if w == "else"@ { KindValue::Else }
    else if w == "for"@ { KindValue::For }
    else if w == "while"@ { KindValue::While }
    else if w == "in"@ { KindValue::In }
    else if w == "module"@ { KindValue::Module }
    else if w == "import"@ { KindValue::Import }
    else if w == "record"@ { KindValue::Record }
    else if w == "enum"@ { KindValue::Enum }
    else if w == "use"@ { KindValue::Use }
    else if w == "pub"@ { KindValue::Pub }
    else if w == "mut"@ { KindValue::Mut }
    else if w == "as"@ { KindValue::As }
    else if w == "type"@ { KindValue::Type }
    else if w == "where"@ { KindValue::Where }
    else if w == "self"@ { KindValue::Self_ }
    else if w == "const"@ { KindValue::Const }
    else if w == "static"@ { KindValue::Static }
    else if w == "async"@ { KindValue::Async }
    else if w == "await"@ { KindValue::Await }
    else if w == "learn"@ { KindValue::Learn }
    else if w == "true"@ { KindValue::BooleanLiteral(true) }
    else if w == "false"@ { KindValue::BooleanLiteral(false) }
    else { KindValue::Identifier(w) }
}

/// A token at the position of index `p`.
pub open spec fn token_at(s: Seq<char>, kind: KindValue, lexeme: Seq<char>, p: int) -> TokenValue {
    TokenValue { kind, lexeme, line: line_at(s, p), column: col_at(s, p) }
}

/// End of an ASCII numeral: digits with at most one `.`.
pub open spec fn ascii_number_end(s: Seq<char>, i: int, seen_dot: bool) -> int
    decreases s.len() - i,
{
    if i < 0 || i >= s.len() {
        s.len() as int
    } else if spec_is_ascii_digit(s[i]) {
        ascii_number_end(s, i + 1, seen_dot)
    } else if s[i] == '.' && !seen_dot {
        ascii_number_end(s, i + 1, true)
    } else {
        i
    }
}

/// End of a mixed numeral: ASCII digits and numeral glyphs with at most one `.`.
pub open spec fn mixed_number_end(s: Seq<char>, i: int, seen_dot: bool) -> int
    decreases s.len() - i,
{
    if i < 0 || i >= s.len() {
        s.len() as int
    } else if spec_is_ascii_digit(s[i]) || spec_is_numeric_glyph(s[i]) {
        mixed_number_end(s, i + 1, seen_dot)
    } else if s[i] == '.' && !seen_dot {
        mixed_number_end(s, i + 1, true)
    } else {
        i
    }
}

/// The outcome of one lexing routine: a token or an error, and the index where it stopped.
pub type Lexed = (Result<TokenValue, ErrValue>, int);

/// A number starting at `p`.
pub open spec fn lex_number_spec(s: Seq<char>, cfg: LexConfig, p: int) -> Lexed {
    if cfg.mixed_numerals {
        let e = mixed_number_end(s, p, false);
        let text = s.subrange(p, e).map_values(digit_char_fn());
        (Ok(token_at(s, KindValue::NumberLiteral(text), text, p)), e)
    } else if spec_is_ascii_digit(s[p]) {
        let e = ascii_number_end(s, p, false);
        let text = s.subrange(p, e);
        (Ok(token_at(s, KindValue::NumberLiteral(text), text, p)), e)
    } else {
        let e = run_end(s, p, glyph_pred());
        let glyphs = s.subrange(p, e);
        (Ok(token_at(s, KindValue::NumberLiteral(glyphs.map_values(digit_char_fn())), glyphs, p)), e)
    }
}

/// A word starting at `p`: the longest run of identifier characters.
pub open spec fn lex_identifier_spec(s: Seq<char>, p: int) -> Lexed {
    let e = run_end(s, p, ident_part_pred());
    let w = s.subrange(p, e);
    (Ok(token_at(s, keyword_kind(w), w, p)), e)
}

/// The value of a sequence of hexadecimal digits.
pub open spec fn hex_number(d: Seq<char>) -> int
    decreases d.len(),
{
    if d.len() == 0 {
        0
    } else {
        hex_number(d.drop_last()) * 16 + spec_hex_value(d.last())
    }
}

/// A `\u{...}` escape whose `{` is expected at index `k`: the character and the index after it.
pub open spec fn unicode_escape_spec(s: Seq<char>, k: int) -> (Result<char, ErrValue>, int) {
    if k >= s.len() || s[k] != '{' {
        (Err(ErrValue::UnexpectedCharacter(if k < s.len() { s[k] } else { ' ' }, line_at(s, k), col_at(s, k))), k)
    } else {
        let e = run_end(s, k + 1, hex_pred());
        let digits = s.subrange(k + 1, e);
        if e < s.len() && s[e] != '}' {
            (Err(ErrValue::UnexpectedCharacter(s[e], line_at(s, e), col_at(s, e))), e)
        } else {
            let end = if e < s.len() { e + 1 } else { e };
            let v = hex_number(digits);
            if digits.len() == 0 || v >= 0x1_0000_0000 {
                (Err(ErrValue::InvalidGlyph(digits, line_at(s, end), col_at(s, end))), end)
            } else if !spec_is_scalar(v) {
                (Err(ErrValue::InvalidGlyph("\\u{"@ + decimal_text(v as nat) + "}"@, line_at(s, end), col_at(s, end))), end)
            } else {
                (Ok(v as char), end)
            }
        }
    }
}

/// What an escape letter stands for in a string literal (other than `u`).
pub open spec fn escaped_char(c: char) -> char {
    if c == 'n' { '\n' }
    else if c == 't' { '\t' }
    else if c == 'r' { '\r' }
    else { c }
}

/// The body of a string literal from index `i` on, with `acc` read so far:
/// the contents and the index after the closing quote, or an error and where it stopped.
pub open spec fn string_body(s: Seq<char>, i: int, acc: Seq<char>) -> (Result<Seq<char>, Option<ErrValue>>, int)
    decreases s.len() - i,
{
    if i < 0 || i >= s.len() {
        (Err(None), s.len() as int)
    } else if s[i] == '"' {
        (Ok(acc), i + 1)
    } else if s[i] == '\\' {
        if i + 1 >= s.len() {
            (Err(None), s.len() as int)
        } else if s[i + 1] == 'u' {
            let (r, j) = unicode_escape_spec(s, i + 2);
            match r {
                Ok(ch) => if i < j && j <= s.len() { string_body(s, j, acc.push(ch)) } else { (Err(None), j) },
                Err(e) => (Err(Some(e)), j),
            }
        } else {
            string_body(s, i + 2, acc.push(escaped_char(s[i + 1])))
        }
    } else {
        string_body(s, i + 1, acc.push(s[i]))
    }
}

/// A string literal whose opening quote is at `p`.
pub open spec fn lex_string_spec(s: Seq<char>, p: int) -> Lexed {
    let (r, e) = string_body(s, p + 1, Seq::empty());
    match r {
        Ok(content) => (Ok(token_at(s, KindValue::StringLiteral(content), content, p)), e),
        Err(None) => (Err(ErrValue::UnterminatedString(line_at(s, p), col_at(s, p))), e),
        Err(Some(err)) => (Err(err), e),
    }
}

/// The label of a ket from index `i` on, with `content` read so far: the label and
/// the index after the closing `>` or `⟩`, or the label read so far and where it stopped.
pub open spec fn ket_body(s: Seq<char>, i: int, content: Seq<char>) -> (Result<Seq<char>, Seq<char>>, int)
    decreases s.len() - i,
{
    if i < 0 || i >= s.len() {
        (Err(content), s.len() as int)
    } else if s[i] == '>' || s[i] == '⟩' {
        if content.len() == 0 || !spec_is_valid_qubit_inner(content) {
            (Err(content), i)
        } else {
            (Ok(content), i + 1)
        }
    } else if spec_is_ascii_whitespace(s[i]) {
        ket_body(s, i + 1, content)
    } else if spec_is_ket_char(s[i]) {
        ket_body(s, i + 1, content.push(s[i]))
    } else {
        (Err(content), i)
    }
}

/// A qubit literal whose `|` is at `p`; it is written back as `|label⟩`.
pub open spec fn lex_qubit_spec(s: Seq<char>, p: int) -> Lexed {
    let (r, e) = ket_body(s, p + 1, Seq::empty());
    match r {
        Ok(label) => {
            let lit = seq!['|'] + label + seq!['⟩'];
            (Ok(token_at(s, KindValue::QubitLiteral(lit), lit, p)), e)
        },
        Err(label) => (Err(ErrValue::InvalidQubitLiteral(label, line_at(s, p), col_at(s, p))), e),
    }
}

/// Index after the line comment whose text starts at `i` (after its line feed, or the end).
pub open spec fn line_comment_end(s: Seq<char>, i: int) -> int {
    let e = run_end(s, i, other_than('\n'));
    if e < s.len() { e + 1 } else { e }
}

/// Index after a nested block comment, reading from `i` at nesting `depth`;
/// `None` when the text ends first.
pub open spec fn block_comment_end(s: Seq<char>, cfg: LexConfig, i: int, depth: int) -> Option<int>
    decreases s.len() - i,
{
    if i < 0 || i >= s.len() {
        None
    } else if s[i] == cfg.block_start {
        block_comment_end(s, cfg, i + 1, depth + 1)
    } else if s[i] == cfg.block_end {
        if depth - 1 == 0 {
            Some(i + 1)
        } else {
            block_comment_end(s, cfg, i + 1, depth - 1)
        }
    } else {
        block_comment_end(s, cfg, i + 1, depth)
    }
}

/// The content of an AI-only block starting at `p`: everything up to its end marker,
/// refused when it is longer than the configured number of UTF-8 bytes.
pub open spec fn lex_ai_block_spec(s: Seq<char>, cfg: LexConfig, p: int) -> Lexed {
    let e = run_end(s, p, other_than(cfg.ai_end));
    let content = s.subrange(p, e);
    let k = ai_overflow_at(s, p, e, 0, cfg.max_ai_bytes);
    if k < e {
        (Err(ErrValue::AIContentTooLarge(line_at(s, p), col_at(s, p))), k)
    } else if e >= s.len() {
        (Err(ErrValue::UnterminatedComment(line_at(s, p), col_at(s, p))), e)
    } else {
        (Ok(token_at(s, KindValue::StringLiteral(content), Seq::empty(), p)), e)
    }
}

/// The first index `k` in `i..e` at which the UTF-8 size of the block read so far
/// (`used` bytes before `i`, then the characters up to and including `k`) passes `max`;
/// `e` when there is none.
pub open spec fn ai_overflow_at(s: Seq<char>, i: int, e: int, used: int, max: int) -> int
    decreases e - i,
{
    if i < 0 || i >= e || i >= s.len() {
        e
    } else if used + spec_utf8_len(s[i]) > max {
        i
    } else {
        ai_overflow_at(s, i + 1, e, used + spec_utf8_len(s[i]), max)
    }
}

/// Whether a `|` at `p` opens a ket: the next character may start a label, and a `>` or `⟩`
/// comes (within `max` further characters) before any `|` or statement boundary.
pub open spec fn looks_like_qubit_spec(s: Seq<char>, p: int, max: int) -> bool {
    if p + 1 >= s.len() {
        false
    } else {
        let next = s[p + 1];
        let plausible = spec_is_identifier_start(next) || spec_is_ascii_digit(next) || spec_is_numeric_glyph(next)
            || next == '+' || next == '-' || next == '>' || next == '⟩';
        plausible && ket_ahead(s, p + 2, p + 1 + max, false)
    }
}

pub open spec fn ket_ahead(s: Seq<char>, j: int, limit: int, saw: bool) -> bool
    decreases s.len() - j,
{
    if j < 0 || j >= s.len() {
        saw
    } else if j > limit {
        false
    } else if s[j] == '|' {
        false
    } else if s[j] == '>' || s[j] == '⟩' {
        true
    } else if s[j] == '\n' || s[j] == ';' || s[j] == '{' || s[j] == '}' || s[j] == '(' || s[j] == ')' {
        false
    } else {
        ket_ahead(s, j + 1, limit, true)
    }
}

/// Whether, among the next characters from `j` up to (not including) `stop`, `target`
/// comes before a line feed, `;`, `{`, `}` or `)`.
pub open spec fn found_before_boundary(s: Seq<char>, j: int, stop: int, target: spec_fn(char) -> bool) -> bool
    decreases s.len() - j,
{
    if j < 0 || j >= s.len() || j >= stop {
        false
    } else if target(s[j]) {
        true
    } else if s[j] == '\n' || s[j] == ';' || s[j] == '{' || s[j] == '}' || s[j] == ')' {
        false
    } else {
        found_before_boundary(s, j + 1, stop, target)
    }
}

/// One round of the lexer loop at a current character: a token or error to emit, or
/// text skipped (whitespace, comments, block markers), with the next state.
pub ghost enum Step {
    Emit(Result<TokenValue, ErrValue>, LexState),
    Skip(LexState),
}

pub open spec fn emit(r: Lexed, in_ai: bool) -> Step {
    Step::Emit(r.0, LexState { pos: r.1, in_ai })
}

pub open spec fn next_char(s: Seq<char>, p: int) -> Option<char> {
    if p + 1 < s.len() { Some(s[p + 1]) } else { None }
}

pub open spec fn step_spec(s: Seq<char>, cfg: LexConfig, st: LexState) -> Step {
    let p = st.pos;
    let c = s[p];
    if glyph_kind(c) is Some {
        Step::Emit(Ok(token_at(s, glyph_kind(c)->0, seq![c], p)), LexState { pos: p + 1, in_ai: st.in_ai })
    } else if st.in_ai {
        if c == cfg.ai_end {
            Step::Skip(LexState { pos: p + 1, in_ai: false })
        } else if !cfg.authorized {
            Step::Emit(Err(ErrValue::UnauthorizedAIAccess(line_at(s, p), col_at(s, p))), st)
        } else {
            emit(lex_ai_block_spec(s, cfg, p), true)
        }
    } else if c == '/' && next_char(s, p) == Some('/') {
        Step::Skip(LexState { pos: line_comment_end(s, p + 1), in_ai: false })
    } else if c == cfg.line_comment {
        Step::Skip(LexState { pos: line_comment_end(s, p), in_ai: false })
    } else if c == cfg.block_start {
        match block_comment_end(s, cfg, p + 1, 1) {
            Some(e) => Step::Skip(LexState { pos: e, in_ai: false }),
            None => Step::Emit(Err(ErrValue::UnterminatedComment(line_at(s, p), col_at(s, p))),
                LexState { pos: s.len() as int, in_ai: false }),
        }
    } else if spec_is_safe_whitespace(c) {
        Step::Skip(LexState { pos: p + 1, in_ai: false })
    } else if c == cfg.ai_start {
        if !cfg.authorized {
            Step::Emit(Err(ErrValue::UnauthorizedAIAccess(line_at(s, p), col_at(s, p))), st)
        } else {
            Step::Skip(LexState { pos: p + 1, in_ai: true })
        }
    } else if multi_char_kind(c, next_char(s, p)) is Some {
        Step::Emit(Ok(token_at(s, multi_char_kind(c, next_char(s, p))->0, Seq::empty(), p)),
            LexState { pos: p + 2, in_ai: false })
    } else if c == '|' {
        if looks_like_qubit_spec(s, p, 48) {
            emit(lex_qubit_spec(s, p), false)
        } else {
            Step::Emit(Ok(token_at(s, KindValue::Pipe, seq!['|'], p)), LexState { pos: p + 1, in_ai: false })
        }
    } else if single_char_kind(c) is Some {
        Step::Emit(Ok(token_at(s, single_char_kind(c)->0, Seq::empty(), p)), LexState { pos: p + 1, in_ai: false })
    } else if spec_is_ascii_digit(c) || spec_is_numeric_glyph(c) {
        emit(lex_number_spec(s, cfg, p), false)
    } else if c == '"' {
        emit(lex_string_spec(s, p), false)
    } else if spec_is_identifier_start(c) {
        emit(lex_identifier_spec(s, p), false)
    } else {
        Step::Emit(Err(ErrValue::UnexpectedCharacter(c, line_at(s, p), col_at(s, p))), st)
    }
}

/// The next token of the text from a state, and the state after it: the end-of-input
/// token when no character is left, else the first token or error after whatever the
/// lexer skips.
pub open spec fn next_token_spec(s: Seq<char>, cfg: LexConfig, st: LexState) -> (Result<TokenValue, ErrValue>, LexState)
    decreases s.len() - st.pos,
{
    if st.pos < 0 || st.pos >= s.len() {
        (Ok(token_at(s, KindValue::EOF, Seq::empty(), st.pos)), st)
    } else {
        match step_spec(s, cfg, st) {
            Step::Emit(r, next) => (r, next),
            Step::Skip(next) => if st.pos < next.pos && next.pos <= s.len() {
                next_token_spec(s, cfg, next)
            } else {
                (Ok(token_at(s, KindValue::EOF, Seq::empty(), st.pos)), st)
            },
        }
    }
}

} // verus!

verus! {

/// A line comment that starts inside the text ends after its start and within the text.
pub proof fn lemma_line_comment_end(s: Seq<char>, i: int)
    requires
        0 <= i < s.len(),
    ensures
        i < line_comment_end(s, i) <= s.len(),
{
    lemma_run_end(s, i, other_than('\n'));
}

/// A block comment that closes does so after its start and within the text.
pub proof fn lemma_block_comment_end(s: Seq<char>, cfg: LexConfig, i: int, depth: int)
    requires
        0 <= i,
    ensures
        block_comment_end(s, cfg, i, depth) matches Some(e) ==> i < e <= s.len(),
    decreases s.len() - i,
{
    if i < s.len() {
        lemma_block_comment_end(s, cfg, i + 1, depth + 1);
        lemma_block_comment_end(s, cfg, i + 1, depth - 1);
        lemma_block_comment_end(s, cfg, i + 1, depth);
    }
}

/// Every round that skips text moves the cursor forward, and never past the end.
pub proof fn lemma_skip_advances(s: Seq<char>, cfg: LexConfig, st: LexState)
    requires
        0 <= st.pos < s.len(),
    ensures
        step_spec(s, cfg, st) matches Step::Skip(next) ==> st.pos < next.pos <= s.len(),
{
    let p = st.pos;
    if p + 1 < s.len() {
        lemma_line_comment_end(s, p + 1);
    }
    lemma_line_comment_end(s, p);
    lemma_block_comment_end(s, cfg, p + 1, 1);
}

} // verus!

verus! {

/// Appends `vs` in front of the tokens of an outcome.
pub open spec fn prepend_tokens(vs: Seq<TokenValue>, o: (Result<Seq<TokenValue>, ErrValue>, LexState)) -> (Result<Seq<TokenValue>, ErrValue>, LexState) {
    (match o.0 {
        Ok(ts) => Ok(vs + ts),
        Err(e) => Err(e),
    }, o.1)
}

/// All tokens from a state up to and including the end-of-input token, or the first error;
/// with the state where lexing stopped.
pub open spec fn tokenize_spec(s: Seq<char>, cfg: LexConfig, st: LexState) -> (Result<Seq<TokenValue>, ErrValue>, LexState)
    decreases s.len() - st.pos,
{
    let (r, next) = next_token_spec(s, cfg, st);
    match r {
        Err(e) => (Err(e), next),
        Ok(t) => if t.kind == KindValue::EOF || !(st.pos < next.pos <= s.len()) {
            (Ok(seq![t]), next)
        } else {
            prepend_tokens(seq![t], tokenize_spec(s, cfg, next))
        },
    }
}

/// An ASCII number ends within the text, not before it starts.
pub proof fn lemma_ascii_number_end(s: Seq<char>, i: int, d: bool)
    requires
        0 <= i <= s.len(),
    ensures
        i <= ascii_number_end(s, i, d) <= s.len(),
    decreases s.len() - i,
{
    if i < s.len() {
        lemma_ascii_number_end(s, i + 1, d);
        lemma_ascii_number_end(s, i + 1, true);
    }
}

/// A number that may hold non-ASCII digits ends within the text, not before it starts.
pub proof fn lemma_mixed_number_end(s: Seq<char>, i: int, d: bool)
    requires
        0 <= i <= s.len(),
    ensures
        i <= mixed_number_end(s, i, d) <= s.len(),
    decreases s.len() - i,
{
    if i < s.len() {
        lemma_mixed_number_end(s, i + 1, d);
        lemma_mixed_number_end(s, i + 1, true);
    }
}

} // verus!
