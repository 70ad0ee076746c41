//! The Aeonmi lexer: splits NFC-normalised source text into tokens.

use vstd::prelude::*;
use std::sync::Arc;
use std::sync::Mutex;
use crate::lexer_spec::{
    LexConfig, ErrValue, LexState, line_col_after, read_count, line_at, col_at, lemma_line_col_bounds, run_end, lemma_run_end, spec_is_numeric_glyph, spec_is_hieroglyphic, spec_is_safe_whitespace, spec_is_identifier_start, spec_is_identifier_part, ident_part_pred, glyph_pred, hex_pred, other_than, digit_char, digit_char_fn, spec_is_ket_char, spec_is_valid_qubit_inner, glyph_kind, multi_char_kind, single_char_kind, keyword_kind, token_at, ascii_number_end, mixed_number_end, Lexed, lex_number_spec, lex_identifier_spec, hex_number, unicode_escape_spec, escaped_char, string_body, lex_string_spec, ket_body, lex_qubit_spec, line_comment_end, block_comment_end, lex_ai_block_spec, ai_overflow_at, looks_like_qubit_spec, ket_ahead, found_before_boundary, ket_close_pred, pipe_pred, Step, tokenize_spec, prepend_tokens, lemma_skip_advances, lemma_ascii_number_end, lemma_mixed_number_end, emit, next_char, step_spec, next_token_spec,
};
use crate::text::{
    spec_is_ascii_digit, spec_is_ascii_hexdigit, spec_is_ascii_whitespace, spec_is_unicode_whitespace,
    spec_hex_value, spec_utf8_len, spec_is_scalar, is_ascii_digit, is_ascii_hexdigit,
    is_ascii_whitespace, is_unicode_whitespace, hex_value, utf8_len, push_char, string_from_chars,
    chars_of, char_from_u32, concat, decimal_text, push_decimal, push_str_chars, push_string_chars,
};
use crate::token::{Token, TokenKind, KindValue, TokenValue, kind_debug_text};
use crate::unicode::{is_xid_start, is_xid_continue, nfc_chars, wipe, xid_start, xid_continue};

verus! {

#[verifier::external_type_specification]
#[verifier::external_body]
#[verifier::reject_recursive_types(T)]
pub struct ExMutex<T: ?Sized>(Mutex<T>);

/// Configurable source markers of Aeonmi text.
#[derive(Debug, Clone)]
pub struct Markers {
    pub ai_start: char,
    pub ai_end: char,
    pub line_comment: char,
    pub block_comment_start: char,
    pub block_comment_end: char,
    pub extra: Vec<char>,
}

impl Markers {
    /// The standard markers: `⚡` … `⛓` for AI-only blocks, `⍝` line comments,
    /// `⦅` … `⦆` block comments.
    pub fn standard() -> (r: Markers)
        ensures
            r.ai_start == '⚡',
            r.ai_end == '⛓',
            r.line_comment == '⍝',
            r.block_comment_start == '⦅',
            r.block_comment_end == '⦆',
            r.extra@.len() == 0,
    {
        Markers {
            ai_start: '⚡',
            ai_end: '⛓',
            line_comment: '⍝',
            block_comment_start: '⦅',
            block_comment_end: '⦆',
            extra: Vec::new(),
        }
    }
}

impl Default for Markers {
    fn default() -> (r: Markers)
        ensures
            r.ai_start == '⚡',
            r.ai_end == '⛓',
            r.line_comment == '⍝',
            r.block_comment_start == '⦅',
            r.block_comment_end == '⦆',
            r.extra@.len() == 0,
    {
        Markers::standard()
    }
}

/// Plugin told of every token a lexer emits and of security events.
pub trait DlpPlugin: Send + Sync {
    fn before_emit_token(&self, token: &Token);

    fn after_emit_token(&self, token: &Token);

    fn on_security_event(&self, event: &str, token: Option<&Token>);
}

/// Hot-reloadable lexing configuration.
#[derive(Debug, Clone)]
pub struct LexerDynamicConfig {
    pub enabled_plugins: Vec<String>,
}

/// Options of a lexer: numerals, AI-only blocks, markers and observers.
#[derive(Clone)]
pub struct LexerOptions {
    pub allow_mixed_numerals: bool,
    pub max_ai_block_size: usize,
    pub markers: Markers,
    pub ai_access_authorized: bool,
    pub language_mode: Option<String>,
    pub dynamic_config: Option<Arc<Mutex<LexerDynamicConfig>>>,
    pub dlp_plugins: Vec<Arc<dyn DlpPlugin>>,
    pub cli_mode: bool,
}

impl LexerOptions {
    /// The lexing rules these options select.
    pub open spec fn config(&self) -> LexConfig {
        LexConfig {
            ai_start: self.markers.ai_start,
            ai_end: self.markers.ai_end,
            line_comment: self.markers.line_comment,
            block_start: self.markers.block_comment_start,
            block_end: self.markers.block_comment_end,
            mixed_numerals: self.allow_mixed_numerals,
            max_ai_bytes: self.max_ai_block_size as int,
            authorized: self.ai_access_authorized,
        }
    }

    /// The default options: standard markers, no mixed numerals, AI blocks of at most
    /// 1 MiB and not authorised, no observers.
    pub fn standard() -> (r: LexerOptions)
        ensures
            r.config() == (LexConfig {
                ai_start: '⚡',
                ai_end: '⛓',
                line_comment: '⍝',
                block_start: '⦅',
                block_end: '⦆',
                mixed_numerals: false,
                max_ai_bytes: 1048576int,
                authorized: false,
            }),
            !r.cli_mode,
            r.language_mode is None,
            r.dlp_plugins@.len() == 0,
    {
        LexerOptions {
            allow_mixed_numerals: false,
            max_ai_block_size: 1024 * 1024,
            markers: Markers::standard(),
            ai_access_authorized: false,
            language_mode: None,
            dynamic_config: None,
            dlp_plugins: Vec::new(),
            cli_mode: false,
        }
    }
}

impl Default for LexerOptions {
    fn default() -> (r: LexerOptions)
        ensures
            r.config() == (LexConfig {
                ai_start: '⚡',
                ai_end: '⛓',
                line_comment: '⍝',
                block_start: '⦅',
                block_end: '⦆',
                mixed_numerals: false,
                max_ai_bytes: 1048576int,
                authorized: false,
            }),
            !r.cli_mode,
            r.dlp_plugins@.len() == 0,
    {
        LexerOptions::standard()
    }
}

/// A read-only snapshot of a lexer for plugins.
#[derive(Debug, Clone, Copy)]
pub struct LexerView {
    pub line: usize,
    pub col: usize,
    pub in_ai_block: bool,
}

/// Lexer errors, with the line and column they refer to.
#[derive(Debug)]
pub enum LexerError {
    UnexpectedCharacter(char, usize, usize),
    UnterminatedString(usize, usize),
    InvalidNumber(String, usize, usize),
    InvalidGlyph(String, usize, usize),
    UnterminatedComment(usize, usize),
    UnauthorizedAIAccess(usize, usize),
    AIContentTooLarge(usize, usize),
    PluginError(String, usize, usize),
    Diagnostic(String, usize, usize, Option<String>),
    InvalidQubitLiteral(String, usize, usize),
}

impl View for LexerError {
    type V = ErrValue;

    open spec fn view(&self) -> ErrValue {
        match self {
            LexerError::UnexpectedCharacter(c, l, k) => ErrValue::UnexpectedCharacter(*c, *l as int, *k as int),
            LexerError::UnterminatedString(l, k) => ErrValue::UnterminatedString(*l as int, *k as int),
            LexerError::InvalidNumber(t, l, k) => ErrValue::InvalidNumber(t@, *l as int, *k as int),
            LexerError::InvalidGlyph(t, l, k) => ErrValue::InvalidGlyph(t@, *l as int, *k as int),
            LexerError::UnterminatedComment(l, k) => ErrValue::UnterminatedComment(*l as int, *k as int),
            LexerError::UnauthorizedAIAccess(l, k) => ErrValue::UnauthorizedAIAccess(*l as int, *k as int),
            LexerError::AIContentTooLarge(l, k) => ErrValue::AIContentTooLarge(*l as int, *k as int),
            LexerError::PluginError(t, l, k) => ErrValue::PluginError(t@, *l as int, *k as int),
            LexerError::Diagnostic(t, l, k, h) => ErrValue::Diagnostic(
                t@,
                *l as int,
                *k as int,
                match h {
                    Some(x) => Some(x@),
                    None => None,
                },
            ),
            LexerError::InvalidQubitLiteral(t, l, k) => ErrValue::InvalidQubitLiteral(t@, *l as int, *k as int),
        }
    }
}

/// A matcher that users register to recognise tokens of their own. It sees what a
/// lexer shows to the outside: its public token cache.
pub trait CustomTokenKind: Send + Sync {
    fn try_match(&self, token_cache: &[Token]) -> Option<TokenKind>;

    fn name(&self) -> String;
}

/// A plugin told before each token, after each token and of each error.
pub trait LexerPlugin: Send + Sync {
    fn before_token(&mut self, view: LexerView);

    fn after_token(&mut self, view: LexerView, token: &Token);

    fn on_error(&mut self, view: LexerView, error: &LexerError);
}

/// The lexer: the normalised source characters and a cursor over them.
pub struct Lexer {
    chars: Vec<char>,
    pos: usize,
    line: usize,
    col: usize,
    options: LexerOptions,
    in_ai_block: bool,
    plugins: Vec<Box<dyn LexerPlugin>>,
    custom_token_kinds: Vec<Box<dyn CustomTokenKind>>,
    pub token_cache: Vec<Token>,
    pub event_bus: Option<Arc<Mutex<Vec<String>>>>,
}

} // verus!

verus! {

/// Whether `ch` may start an identifier.
pub fn is_identifier_start(ch: char) -> (r: bool)
    ensures
        r == spec_is_identifier_start(ch),
        (ch as u32) < 128 ==> (r <==> (crate::text::spec_is_ascii_alpha(ch) || ch == '_')),
{
    ch == '_' || is_xid_start(ch)
}

/// Whether `ch` may continue an identifier.
pub fn is_identifier_part(ch: char) -> (r: bool)
    ensures
        r == spec_is_identifier_part(ch),
        (ch as u32) < 128 ==> (r <==> (crate::text::spec_is_ascii_alpha(ch) || spec_is_ascii_digit(ch) || ch == '_')),
{
    ch == '_' || is_xid_continue(ch)
}

/// Whitespace skipped between tokens: space, tab, carriage return, line feed, BOM.
pub fn is_safe_whitespace(ch: char) -> (r: bool)
    ensures
        r == spec_is_safe_whitespace(ch),
{
    ch == ' ' || ch == '\t' || ch == '\r' || ch == '\n' || ch == '\u{FEFF}'
}

/// Whether `ch` is one of the numeral glyphs U+1D360..U+1D369.
pub fn is_numeric_glyph(ch: char) -> (r: bool)
    ensures
        r == spec_is_numeric_glyph(ch),
{
    let u = ch as u32;
    0x1D360 <= u && u <= 0x1D369
}

/// The digit a numeral glyph stands for.
pub fn glyph_to_digit(ch: char) -> (r: Option<u8>)
    ensures
        spec_is_numeric_glyph(ch) ==> r == Some(((ch as u32) - 0x1D360) as u8),
        !spec_is_numeric_glyph(ch) ==> r is None,
        r matches Some(d) ==> d < 10,
{
    let u = ch as u32;
    if 0x1D360 <= u && u <= 0x1D369 {
        Some((u - 0x1D360) as u8)
    } else {
        None
    }
}

/// Characters above ASCII count as hieroglyphic markers.
pub fn is_hieroglyphic(ch: char) -> (r: bool)
    ensures
        r == spec_is_hieroglyphic(ch),
{
    (ch as u32) > 0x7F
}

/// Whether a ket label is valid: not all whitespace, and made only of signs, digits,
/// identifier characters, numeral glyphs and whitespace.
pub fn is_valid_qubit_inner(content: &str) -> (r: bool)
    ensures
        r == spec_is_valid_qubit_inner(content@),
{
    let cs = chars_of(content);
    let n = cs.len();
    let mut all_space = true;
    let mut i: usize = 0;
    while i < n
        invariant
            n == cs@.len(),
            cs@ == content@,
            i <= n,
            all_space <==> (forall|k: int| 0 <= k < i ==> spec_is_unicode_whitespace(#[trigger] cs@[k])),
        decreases n - i,
    {
        if !is_unicode_whitespace(cs[i]) {
            all_space = false;
        }
        i += 1;
    }
    if all_space {
        assert(!(exists|k: int| 0 <= k < cs@.len() && !spec_is_unicode_whitespace(#[trigger] cs@[k])));
        return false;
    }
    let mut j: usize = 0;
    while j < n
        invariant
            n == cs@.len(),
            cs@ == content@,
            j <= n,
            exists|k: int| 0 <= k < cs@.len() && !spec_is_unicode_whitespace(#[trigger] cs@[k]),
            forall|k: int| 0 <= k < j ==> (#[trigger] cs@[k] == '+' || cs@[k] == '-'
                || spec_is_ascii_digit(cs@[k]) || spec_is_identifier_part(cs@[k])
                || spec_is_numeric_glyph(cs@[k]) || spec_is_unicode_whitespace(cs@[k])),
        decreases n - j,
    {
        let ch = cs[j];
        if !(ch == '+' || ch == '-' || is_ascii_digit(ch) || is_identifier_part(ch) || is_numeric_glyph(ch)
            || is_unicode_whitespace(ch)) {
            return false;
        }
        j += 1;
    }
    true
}

/// Whether the characters of `v` spell `lit`.
fn chars_eq_str(v: &Vec<char>, lit: &str) -> (r: bool)
    ensures
        r == (v@ == lit@),
{
    let n = lit.unicode_len();
    if v.len() != n {
        return false;
    }
    let mut i: usize = 0;
    while i < n
        invariant
            n == lit@.len(),
            v@.len() == n,
            i <= n,
            forall|k: int| 0 <= k < i ==> v@[k] == lit@[k],
        decreases n - i,
    {
        if v[i] != lit.get_char(i) {
            return false;
        }
        i += 1;
    }
    assert(v@ =~= lit@);
    true
}

/// The token kind of a word.
fn keyword_token_kind(w: &Vec<char>) -> (r: TokenKind)
    ensures
        r@ == keyword_kind(w@),
{
    if chars_eq_str(w, "let") { TokenKind::Let }
    else if chars_eq_str(w, "fn") { TokenKind::Fn }
    else if chars_eq_str(w, "function") { TokenKind::Function }
    else if chars_eq_str(w, "return") { TokenKind::Return }
    else if chars_eq_str(w, "log") { TokenKind::Log }
    else if chars_eq_str(w, "qubit") { TokenKind::Qubit }
    else if chars_eq_str(w, "class") { TokenKind::Class }
    else if chars_eq_str(w, "struct") { TokenKind::Struct }
    else if chars_eq_str(w, "trait") { TokenKind::Trait }
    else if chars_eq_str(w, "impl") { TokenKind::Impl }
    else if chars_eq_str(w, "match") { TokenKind::Match }
    else if chars_eq_str(w, "superpose") { TokenKind::Superpose }
    else if chars_eq_str(w, "entangle") { TokenKind::Entangle }
    else if chars_eq_str(w, "measure") { TokenKind::Measure }
    else if chars_eq_str(w, "dod") { TokenKind::Dod }
    else if chars_eq_str(w, "if") { TokenKind::If }
    else if chars_eq_str(w, "else") { TokenKind::Else }
    else if chars_eq_str(w, "for") { TokenKind::For }
    else if chars_eq_str(w, "while") { TokenKind::While }
    else if chars_eq_str(w, "in") { TokenKind::In }
    else if chars_eq_str(w, "module") { TokenKind::Module }
    else if chars_eq_str(w, "import") { TokenKind::Import }
    else if chars_eq_str(w, "record") { TokenKind::Record }
    else if chars_eq_str(w, "enum") { TokenKind::Enum }
    else if chars_eq_str(w, "use") { TokenKind::Use }
    else if chars_eq_str(w, "pub") { TokenKind::Pub }
    else if chars_eq_str(w, "mut") { TokenKind::Mut }
    else if chars_eq_str(w, "as") { TokenKind::As }
    else if chars_eq_str(w, "type") { TokenKind::Type }
    else if chars_eq_str(w, "where") { TokenKind::Where }
    else if chars_eq_str(w, "self") { TokenKind::Self_ }
    else if chars_eq_str(w, "const") { TokenKind::Const }
    else if chars_eq_str(w, "static") { TokenKind::Static }
    else if chars_eq_str(w, "async") { TokenKind::Async }
    else if chars_eq_str(w, "await") { TokenKind::Await }
    else if chars_eq_str(w, "learn") { TokenKind::Learn }
    else if chars_eq_str(w, "true") { TokenKind::BooleanLiteral(true) }
    else if chars_eq_str(w, "false") { TokenKind::BooleanLiteral(false) }
    else { TokenKind::Identifier(string_from_chars(w.as_slice())) }
}

pub open spec fn opt_kind_value(k: Option<TokenKind>) -> Option<KindValue> {
    match k {
        Some(x) => Some(x@),
        None => None,
    }
}

/// Operator and delimiter glyphs that form a token on their own.
fn glyph_token_kind(c: char) -> (r: Option<TokenKind>)
    ensures
        opt_kind_value(r) == glyph_kind(c),
{
    if c == '≤' { Some(TokenKind::LessEqual) }
    else if c == '≥' { Some(TokenKind::GreaterEqual) }
    else if c == '≠' { Some(TokenKind::NotEquals) }
    else if c == '＝' { Some(TokenKind::DoubleEquals) }
    else if c == '≔' { Some(TokenKind::ColonEquals) }
    else if c == '←' { Some(TokenKind::QuantumBind) }
    else if c == '∈' { Some(TokenKind::QuantumIn) }
    else if c == '⊗' { Some(TokenKind::QuantumTensor) }
    else if c == '≈' { Some(TokenKind::QuantumApprox) }
    else if c == '⊕' { Some(TokenKind::QuantumXor) }
    else if c == '⊖' { Some(TokenKind::QuantumOr) }
    else if c == '⊄' { Some(TokenKind::QuantumNot) }
    else if c == '∇' { Some(TokenKind::QuantumGradient) }
    else if c == '⪰' { Some(TokenKind::QuantumGeq) }
    else if c == '⪯' { Some(TokenKind::QuantumLeq) }
    else if c == '⇒' { Some(TokenKind::QuantumImplies) }
    else if c == '⟲' { Some(TokenKind::QuantumLoop) }
    else if c == '◊' { Some(TokenKind::QuantumModulo) }
    else if c == '𓁁' { Some(TokenKind::Entangle) }
    else if c == '⟨' { Some(TokenKind::QuantumBracketOpen) }
    else if c == '⟩' { Some(TokenKind::QuantumBracketClose) }
    else if c == '⟦' { Some(TokenKind::QuantumIndexOpen) }
    else if c == '⟧' { Some(TokenKind::QuantumIndexClose) }
    else if c == '◯' { Some(TokenKind::ClassicalFunc) }
    else if c == '⊙' { Some(TokenKind::QuantumFunc) }
    else if c == '∴' { Some(TokenKind::QuantumComment) }
    else if c == '∵' { Some(TokenKind::BecauseComment) }
    else if c == '※' { Some(TokenKind::NoteComment) }
    else if c == '⚡' { Some(TokenKind::Attempt) }
    else if c == '⚠' { Some(TokenKind::Warning) }
    else if c == '✓' { Some(TokenKind::Success) }
    else if c == '⏰' || c == '⏱' { Some(TokenKind::TimeBlock) }
    else { None }
}

/// ` at {line}:{col}`
pub open spec fn at_text(line: int, col: int) -> Seq<char> {
    " at "@ + decimal_text(line as nat) + ":"@ + decimal_text(col as nat)
}

/// The text of a lexer error, as `Display` writes it.
pub open spec fn error_message(e: ErrValue) -> Seq<char> {
    match e {
        ErrValue::UnexpectedCharacter(c, l, k) => "Unexpected character '"@ + seq![c] + "'"@ + at_text(l, k),
        ErrValue::UnterminatedString(l, k) => "Unterminated string starting"@ + at_text(l, k),
        ErrValue::InvalidNumber(t, l, k) => "Invalid number literal '"@ + t + "'"@ + at_text(l, k),
        ErrValue::InvalidGlyph(t, l, k) => "Invalid or unrecognized glyph \""@ + t + "\""@ + at_text(l, k),
        ErrValue::UnterminatedComment(l, k) => "Unterminated comment or block starting"@ + at_text(l, k),
        ErrValue::UnauthorizedAIAccess(l, k) => "Unauthorized access to AI-only block"@ + at_text(l, k),
        ErrValue::AIContentTooLarge(l, k) => "AI-only block exceeds configured size limit"@ + at_text(l, k),
        ErrValue::PluginError(t, l, k) => "Plugin error '"@ + t + "'"@ + at_text(l, k),
        ErrValue::Diagnostic(t, l, k, h) => "Diagnostic"@ + at_text(l, k) + ": "@ + t + match h {
            Some(x) => "\nHint: "@ + x,
            None => Seq::empty(),
        },
        ErrValue::InvalidQubitLiteral(t, l, k) => "Invalid qubit literal '"@ + t + "'"@ + at_text(l, k),
    }
}

fn push_at(out: &mut Vec<char>, line: usize, col: usize)
    ensures
        final(out)@ == old(out)@ + at_text(line as int, col as int),
{
    let ghost o = out@;
    push_str_chars(out, " at ");
    push_decimal(line as u64, out);
    push_str_chars(out, ":");
    push_decimal(col as u64, out);
    assert(out@ =~= o + at_text(line as int, col as int));
}

impl LexerError {
    /// The text of this error (what `Display` shows for it).
    pub fn message(&self) -> (r: String)
        ensures
            r@ == error_message(self@),
    {
        let mut out: Vec<char> = Vec::new();
        match self {
            LexerError::UnexpectedCharacter(c, l, k) => {
                push_str_chars(&mut out, "Unexpected character '");
                out.push(*c);
                push_str_chars(&mut out, "'");
                push_at(&mut out, *l, *k);
                assert(out@ =~= error_message(self@));
            },
            LexerError::UnterminatedString(l, k) => {
                push_str_chars(&mut out, "Unterminated string starting");
                push_at(&mut out, *l, *k);
                assert(out@ =~= error_message(self@));
            },
            LexerError::InvalidNumber(t, l, k) => {
                push_str_chars(&mut out, "Invalid number literal '");
                push_string_chars(&mut out, t);
                push_str_chars(&mut out, "'");
                push_at(&mut out, *l, *k);
                assert(out@ =~= error_message(self@));
            },
            LexerError::InvalidGlyph(t, l, k) => {
                push_str_chars(&mut out, "Invalid or unrecognized glyph \"");
                push_string_chars(&mut out, t);
                push_str_chars(&mut out, "\"");
                push_at(&mut out, *l, *k);
                assert(out@ =~= error_message(self@));
            },
            LexerError::UnterminatedComment(l, k) => {
                push_str_chars(&mut out, "Unterminated comment or block starting");
                push_at(&mut out, *l, *k);
                assert(out@ =~= error_message(self@));
            },
            LexerError::UnauthorizedAIAccess(l, k) => {
                push_str_chars(&mut out, "Unauthorized access to AI-only block");
                push_at(&mut out, *l, *k);
                assert(out@ =~= error_message(self@));
            },
            LexerError::AIContentTooLarge(l, k) => {
                push_str_chars(&mut out, "AI-only block exceeds configured size limit");
                push_at(&mut out, *l, *k);
                assert(out@ =~= error_message(self@));
            },
            LexerError::PluginError(t, l, k) => {
                push_str_chars(&mut out, "Plugin error '");
                push_string_chars(&mut out, t);
                push_str_chars(&mut out, "'");
                push_at(&mut out, *l, *k);
                assert(out@ =~= error_message(self@));
            },
            LexerError::Diagnostic(t, l, k, h) => {
                push_str_chars(&mut out, "Diagnostic");
                push_at(&mut out, *l, *k);
                push_str_chars(&mut out, ": ");
                push_string_chars(&mut out, t);
                match h {
                    Some(x) => {
                        push_str_chars(&mut out, "\nHint: ");
                        push_string_chars(&mut out, x);
                    },
                    None => {},
                }
                assert(out@ =~= error_message(self@));
            },
            LexerError::InvalidQubitLiteral(t, l, k) => {
                push_str_chars(&mut out, "Invalid qubit literal '");
                push_string_chars(&mut out, t);
                push_str_chars(&mut out, "'");
                push_at(&mut out, *l, *k);
                assert(out@ =~= error_message(self@));
            },
        }
        string_from_chars(out.as_slice())
    }
}

} // verus!

verus! {

/// Pushing an item onto a sequence adds one to its length and keeps what was there.
proof fn lemma_push_keeps_prefix<A>(s: Seq<A>, a: A)
    ensures
        s.push(a).len() == s.len() + 1,
        s.push(a).take(s.len() as int) == s,
{
    assert(s.push(a).take(s.len() as int) =~= s);
}

impl Lexer {
    /// The cursor stands on a character of the source (or just past it), and the line
    /// and column are those of that character.
    pub closed spec fn wf(&self) -> bool {
        &&& self.chars@.len() * 4 <= isize::MAX
        &&& self.pos <= self.chars@.len()
        &&& self.line == line_at(self.chars@, self.pos as int)
        &&& self.col == col_at(self.chars@, self.pos as int)
    }

    /// The normalised source text.
    pub closed spec fn source(&self) -> Seq<char> {
        self.chars@
    }

    /// The lexing rules of this lexer.
    pub closed spec fn config(&self) -> LexConfig {
        self.options.config()
    }

    /// Index of the current character and whether the lexer is inside an AI-only block.
    pub closed spec fn state(&self) -> LexState {
        LexState { pos: self.pos as int, in_ai: self.in_ai_block }
    }

    /// Everything but the cursor (index, line, column) is as in `other`.
    pub closed spec fn cursor_moved_from(&self, other: &Lexer) -> bool {
        &&& self.chars == other.chars
        &&& self.options == other.options
        &&& self.in_ai_block == other.in_ai_block
        &&& self.custom_token_kinds == other.custom_token_kinds
        &&& self.plugins == other.plugins
        &&& self.token_cache == other.token_cache
        &&& self.event_bus == other.event_bus
    }

    /// Number of registered custom token kinds.
    pub closed spec fn custom_kind_count(&self) -> nat {
        self.custom_token_kinds@.len()
    }

    /// Number of registered plugins.
    pub closed spec fn plugin_count(&self) -> nat {
        self.plugins@.len()
    }

    /// The plugins are those of `other`, in order, with one more after them.
    pub closed spec fn one_plugin_added_to(&self, other: &Lexer) -> bool {
        &&& self.plugins@.len() == other.plugins@.len() + 1
        &&& self.plugins@.take(other.plugins@.len() as int) == other.plugins@
    }

    /// The custom token kinds are those of `other`, in order, with one more after them.
    pub closed spec fn one_kind_added_to(&self, other: &Lexer) -> bool {
        &&& self.custom_token_kinds@.len() == other.custom_token_kinds@.len() + 1
        &&& self.custom_token_kinds@.take(other.custom_token_kinds@.len() as int) == other.custom_token_kinds@
    }

    /// The bus to which tokens and errors are reported, if one is set.
    pub closed spec fn bus(&self) -> Option<Arc<Mutex<Vec<String>>>> {
        self.event_bus
    }

    /// Everything but the plugins is as in `other`.
    pub closed spec fn same_but_plugins_as(&self, other: &Lexer) -> bool {
        &&& self.chars == other.chars
        &&& self.pos == other.pos
        &&& self.line == other.line
        &&& self.col == other.col
        &&& self.options == other.options
        &&& self.in_ai_block == other.in_ai_block
        &&& self.custom_token_kinds == other.custom_token_kinds
        &&& self.token_cache == other.token_cache
        &&& self.event_bus == other.event_bus
    }

    /// The plugins are those of `other`.
    pub closed spec fn same_plugins_as(&self, other: &Lexer) -> bool {
        self.plugins == other.plugins
    }

    /// The custom token kinds are those of `other`.
    pub closed spec fn same_kinds_as(&self, other: &Lexer) -> bool {
        self.custom_token_kinds == other.custom_token_kinds
    }

    /// The same source, options and observers; only the cursor may differ.
    pub closed spec fn same_setup(&self, other: &Lexer) -> bool {
        &&& self.chars@ == other.chars@
        &&& self.options.config() == other.options.config()
        &&& self.options.cli_mode == other.options.cli_mode
        &&& self.custom_token_kinds@.len() == other.custom_token_kinds@.len()
        &&& self.plugins@.len() == other.plugins@.len()
    }

    /// The tokens kept for custom kinds to look back on.
    pub closed spec fn cached_tokens(&self) -> Seq<Token> {
        self.token_cache@
    }

    /// The registered plugins, in the order they are told of events.
    pub closed spec fn plugins(&self) -> Seq<Box<dyn LexerPlugin>> {
        self.plugins@
    }

    /// What `same_setup` keeps: the source, the lexing rules, and how many custom
    /// kinds and plugins are registered.
    pub proof fn lemma_same_setup(&self, other: &Lexer)
        requires
            self.same_setup(other),
        ensures
            self.source() == other.source(),
            self.config() == other.config(),
            self.custom_kind_count() == other.custom_kind_count(),
            self.plugin_count() == other.plugin_count(),
    {
    }

    /// What `same_but_plugins_as` keeps: everything but the plugins.
    pub proof fn lemma_same_but_plugins(&self, other: &Lexer)
        requires
            self.same_but_plugins_as(other),
        ensures
            self.source() == other.source(),
            self.state() == other.state(),
            self.config() == other.config(),
            self.custom_kind_count() == other.custom_kind_count(),
            self.same_kinds_as(other),
            self.cached_tokens() == other.cached_tokens(),
            self.bus() == other.bus(),
            self.wf() == other.wf(),
    {
    }

    /// What `one_plugin_added_to` says: the plugins of `other`, in order, then one more.
    pub proof fn lemma_one_plugin_added(&self, other: &Lexer)
        requires
            self.one_plugin_added_to(other),
        ensures
            self.plugins().len() == other.plugins().len() + 1,
            self.plugins().take(other.plugins().len() as int) == other.plugins(),
    {
    }

    /// A lexer for `input` whose AI-only blocks are authorised or not.
    pub fn new(input: &str, ai_access_authorized: bool) -> (r: Lexer)
        ensures
            r.wf(),
            r.source() == crate::unicode::nfc(input@),
            r.state() == (LexState { pos: 0, in_ai: false }),
            r.config() == (LexConfig {
                ai_start: '⚡',
                ai_end: '⛓',
                line_comment: '⍝',
                block_start: '⦅',
                block_end: '⦆',
                mixed_numerals: false,
                max_ai_bytes: 1048576int,
                authorized: ai_access_authorized,
            }),
            r.custom_kind_count() == 0,
            r.plugin_count() == 0,
    {
        let mut options = LexerOptions::standard();
        options.ai_access_authorized = ai_access_authorized;
        Self::with_options(input, options)
    }

    /// A lexer for `input` with AI-only blocks not authorised.
    pub fn from_str(input: &str) -> (r: Lexer)
        ensures
            r.wf(),
            r.source() == crate::unicode::nfc(input@),
            r.state() == (LexState { pos: 0, in_ai: false }),
            r.config() == LexerOptions::standard_config(),
            r.custom_kind_count() == 0,
            r.plugin_count() == 0,
    {
        Self::new(input, false)
    }

    /// A lexer for the NFC normalisation of `input` with the given options.
    pub fn with_options(input: &str, options: LexerOptions) -> (r: Lexer)
        ensures
            r.wf(),
            r.source() == crate::unicode::nfc(input@),
            r.state() == (LexState { pos: 0, in_ai: false }),
            r.config() == options.config(),
            r.custom_kind_count() == 0,
            r.plugin_count() == 0,
    {
        let chars = nfc_chars(input);
        let (line, col) = if chars.len() > 0 {
            if chars[0] == '\n' {
                (2usize, 0usize)
            } else {
                (1usize, 1usize)
            }
        } else {
            (1usize, 0usize)
        };
        proof {
            assert(line_col_after(chars@, 0) == (1int, 0int));
            if chars@.len() > 0 {
                assert(line_col_after(chars@, 1) == line_col_after(chars@, read_count(chars@, 0)));
            }
        }
        Lexer {
            chars,
            pos: 0,
            line,
            col,
            options,
            in_ai_block: false,
            plugins: Vec::new(),
            custom_token_kinds: Vec::new(),
            token_cache: Vec::new(),
            event_bus: None,
        }
    }

    /// Adds a plugin that is told of every token and error.
    pub fn add_plugin<P: LexerPlugin + 'static>(&mut self, plugin: P)
        ensures
            final(self).wf() == old(self).wf(),
            final(self).source() == old(self).source(),
            final(self).state() == old(self).state(),
            final(self).config() == old(self).config(),
            final(self).custom_kind_count() == old(self).custom_kind_count(),
            final(self).plugin_count() == old(self).plugin_count() + 1,
            final(self).one_plugin_added_to(old(self)),
            final(self).same_kinds_as(old(self)),
            final(self).bus() == old(self).bus(),
            final(self).same_but_plugins_as(old(self)),
            final(self).cached_tokens() == old(self).cached_tokens(),
            final(self).plugins().take(old(self).plugin_count() as int) == old(self).plugins(),
    {
        let b: Box<dyn LexerPlugin> = Box::new(plugin);
        let ghost bg = b;
        self.plugins.push(b);
        proof {
            lemma_push_keeps_prefix(old(self).plugins@, bg);
        }
    }

    /// Registers a custom token kind, tried before the built-in rules.
    pub fn register_custom_token_kind(&mut self, kind: Box<dyn CustomTokenKind>)
        ensures
            final(self).wf() == old(self).wf(),
            final(self).source() == old(self).source(),
            final(self).state() == old(self).state(),
            final(self).config() == old(self).config(),
            final(self).plugin_count() == old(self).plugin_count(),
            final(self).custom_kind_count() == old(self).custom_kind_count() + 1,
            final(self).one_kind_added_to(old(self)),
            final(self).same_plugins_as(old(self)),
            final(self).bus() == old(self).bus(),
    {
        let ghost kg = kind;
        self.custom_token_kinds.push(kind);
        proof {
            lemma_push_keeps_prefix(old(self).custom_token_kinds@, kg);
        }
    }

    /// Sets the bus to which, in CLI mode, tokens and errors are reported.
    pub fn set_event_bus(&mut self, bus: Arc<Mutex<Vec<String>>>)
        ensures
            final(self).wf() == old(self).wf(),
            final(self).source() == old(self).source(),
            final(self).state() == old(self).state(),
            final(self).config() == old(self).config(),
            final(self).custom_kind_count() == old(self).custom_kind_count(),
            final(self).plugin_count() == old(self).plugin_count(),
            final(self).bus() == Some(bus),
            final(self).same_plugins_as(old(self)),
            final(self).same_kinds_as(old(self)),
    {
        self.event_bus = Some(bus);
    }

    /// A snapshot of line, column and block state for plugins.
    fn view(&self) -> (r: LexerView)
        ensures
            r.line == self.line,
            r.col == self.col,
            r.in_ai_block == self.in_ai_block,
    {
        LexerView { line: self.line, col: self.col, in_ai_block: self.in_ai_block }
    }

    /// Line and column of the current character.
    fn pos(&self) -> (r: (usize, usize))
        requires
            self.wf(),
        ensures
            r.0 == line_at(self.chars@, self.pos as int),
            r.1 == col_at(self.chars@, self.pos as int),
    {
        (self.line, self.col)
    }

    /// Moves to the next character, keeping line and column up to date.
    fn advance_char(&mut self)
        requires
            old(self).wf(),
        ensures
            final(self).wf(),
            final(self).cursor_moved_from(old(self)),
            final(self).pos == (if old(self).pos < old(self).chars@.len() { old(self).pos + 1 } else { old(self).pos as int }),
    {
        if self.pos < self.chars.len() {
            let np = self.pos + 1;
            proof {
                lemma_line_col_bounds(self.chars@, read_count(self.chars@, np as int));
            }
            if np < self.chars.len() {
                let ch = self.chars[np];
                assert(read_count(self.chars@, np as int) == np + 1);
                assert(read_count(self.chars@, self.pos as int) == np);
                if ch == '\n' {
                    self.line = self.line + 1;
                    self.col = 0;
                } else {
                    self.col = self.col + 1;
                }
            }
            self.pos = np;
        }
    }

    /// The character after the current one.
    fn peek_char(&self) -> (r: Option<char>)
        requires
            self.wf(),
        ensures
            r == next_char(self.chars@, self.pos as int),
    {
        if self.pos + 1 < self.chars.len() {
            Some(self.chars[self.pos + 1])
        } else {
            None
        }
    }
}

impl LexerOptions {
    pub open spec fn standard_config() -> LexConfig {
        LexConfig {
            ai_start: '⚡',
            ai_end: '⛓',
            line_comment: '⍝',
            block_start: '⦅',
            block_end: '⦆',
            mixed_numerals: false,
            max_ai_bytes: 1048576int,
            authorized: false,
        }
    }
}

} // verus!

verus! {

impl Lexer {
    /// A word: the longest run of identifier characters, as keyword, boolean or identifier.
    fn lex_identifier(&mut self) -> (r: Token)
        requires
            old(self).wf(),
            old(self).pos < old(self).chars@.len(),
        ensures
            final(self).wf(),
            final(self).cursor_moved_from(old(self)),
            lex_identifier_spec(old(self).chars@, old(self).pos as int) == (Ok::<TokenValue, ErrValue>(r@), final(self).pos as int),
            spec_is_identifier_part(old(self).chars@[old(self).pos as int]) ==> final(self).pos > old(self).pos,
    {
        let ghost s = self.chars@;
        let ghost start = self.pos as int;
        let (line, col) = self.pos();
        let mut ident: Vec<char> = Vec::new();
        let mut done = false;
        while !done && self.pos < self.chars.len()
            invariant
                self.wf(),
                self.cursor_moved_from(old(self)),
                s == self.chars@,
                0 <= start <= self.pos <= s.len(),
                ident@ == s.subrange(start, self.pos as int),
                run_end(s, start, ident_part_pred()) == run_end(s, self.pos as int, ident_part_pred()),
                done ==> run_end(s, self.pos as int, ident_part_pred()) == self.pos,
            decreases s.len() - self.pos, if done { 0int } else { 1int },
        {
            let ch = self.chars[self.pos];
            if is_identifier_part(ch) {
                ident.push(ch);
                self.advance_char();
                assert(ident@ =~= s.subrange(start, self.pos as int));
            } else {
                done = true;
            }
        }
        proof {
            lemma_run_end(s, start, ident_part_pred());
            if spec_is_identifier_part(s[start]) {
                lemma_run_end(s, start + 1, ident_part_pred());
                assert(ident_part_pred()(s[start]));
            }
        }
        let kind = keyword_token_kind(&ident);
        let lexeme = string_from_chars(ident.as_slice());
        Token::new(kind, lexeme, line, col)
    }

    /// An ASCII numeral: digits with at most one `.`.
    fn lex_ascii_number(&mut self) -> (r: Token)
        requires
            old(self).wf(),
            old(self).pos < old(self).chars@.len(),
        ensures
            final(self).wf(),
            final(self).cursor_moved_from(old(self)),
            ({
                let s = old(self).chars@;
                let p = old(self).pos as int;
                let e = ascii_number_end(s, p, false);
                &&& final(self).pos == e
                &&& r@ == token_at(s, KindValue::NumberLiteral(s.subrange(p, e)), s.subrange(p, e), p)
            }),
    {
        let ghost s = self.chars@;
        let ghost start = self.pos as int;
        let (line, col) = self.pos();
        let mut num: Vec<char> = Vec::new();
        let mut has_decimal = false;
        let mut done = false;
        while !done && self.pos < self.chars.len()
            invariant
                self.wf(),
                self.cursor_moved_from(old(self)),
                s == self.chars@,
                0 <= start <= self.pos <= s.len(),
                num@ == s.subrange(start, self.pos as int),
                ascii_number_end(s, start, false) == ascii_number_end(s, self.pos as int, has_decimal),
                done ==> ascii_number_end(s, self.pos as int, has_decimal) == self.pos,
            decreases s.len() - self.pos, if done { 0int } else { 1int },
        {
            let ch = self.chars[self.pos];
            if is_ascii_digit(ch) {
                num.push(ch);
                self.advance_char();
            } else if ch == '.' && !has_decimal {
                has_decimal = true;
                num.push(ch);
                self.advance_char();
            } else {
                done = true;
            }
            assert(num@ =~= s.subrange(start, self.pos as int));
        }
        let text = string_from_chars(num.as_slice());
        let lexeme = string_from_chars(num.as_slice());
        Token::new(TokenKind::NumberLiteral(text), lexeme, line, col)
    }

    /// A numeral of glyph digits.
    fn lex_glyph_number(&mut self) -> (r: Token)
        requires
            old(self).wf(),
            old(self).pos < old(self).chars@.len(),
        ensures
            final(self).wf(),
            final(self).cursor_moved_from(old(self)),
            ({
                let s = old(self).chars@;
                let p = old(self).pos as int;
                let e = run_end(s, p, glyph_pred());
                &&& final(self).pos == e
                &&& r@ == token_at(s, KindValue::NumberLiteral(s.subrange(p, e).map_values(digit_char_fn())), s.subrange(p, e), p)
            }),
    {
        let ghost s = self.chars@;
        let ghost start = self.pos as int;
        let (line, col) = self.pos();
        let mut glyphs: Vec<char> = Vec::new();
        let mut digits: Vec<char> = Vec::new();
        let mut done = false;
        while !done && self.pos < self.chars.len()
            invariant
                self.wf(),
                self.cursor_moved_from(old(self)),
                s == self.chars@,
                0 <= start <= self.pos <= s.len(),
                glyphs@ == s.subrange(start, self.pos as int),
                digits@ == s.subrange(start, self.pos as int).map_values(digit_char_fn()),
                run_end(s, start, glyph_pred()) == run_end(s, self.pos as int, glyph_pred()),
                done ==> run_end(s, self.pos as int, glyph_pred()) == self.pos,
            decreases s.len() - self.pos, if done { 0int } else { 1int },
        {
            let ch = self.chars[self.pos];
            if is_numeric_glyph(ch) {
                glyphs.push(ch);
                digits.push(to_ascii_digit(ch));
                self.advance_char();
                assert(glyphs@ =~= s.subrange(start, self.pos as int));
                assert(digits@ =~= s.subrange(start, self.pos as int).map_values(digit_char_fn()));
            } else {
                done = true;
            }
        }
        let text = string_from_chars(digits.as_slice());
        let lexeme = string_from_chars(glyphs.as_slice());
        Token::new(TokenKind::NumberLiteral(text), lexeme, line, col)
    }

    /// A numeral mixing ASCII digits and glyph digits, with at most one `.`; glyphs are
    /// written as ASCII digits.
    fn lex_number_mixed(&mut self) -> (r: Token)
        requires
            old(self).wf(),
            old(self).pos < old(self).chars@.len(),
        ensures
            final(self).wf(),
            final(self).cursor_moved_from(old(self)),
            ({
                let s = old(self).chars@;
                let p = old(self).pos as int;
                let e = mixed_number_end(s, p, false);
                let text = s.subrange(p, e).map_values(digit_char_fn());
                &&& final(self).pos == e
                &&& r@ == token_at(s, KindValue::NumberLiteral(text), text, p)
            }),
    {
        let ghost s = self.chars@;
        let ghost start = self.pos as int;
        let (line, col) = self.pos();
        let mut digits: Vec<char> = Vec::new();
        let mut has_decimal = false;
        let mut done = false;
        while !done && self.pos < self.chars.len()
            invariant
                self.wf(),
                self.cursor_moved_from(old(self)),
                s == self.chars@,
                0 <= start <= self.pos <= s.len(),
                digits@ == s.subrange(start, self.pos as int).map_values(digit_char_fn()),
                mixed_number_end(s, start, false) == mixed_number_end(s, self.pos as int, has_decimal),
                done ==> mixed_number_end(s, self.pos as int, has_decimal) == self.pos,
            decreases s.len() - self.pos, if done { 0int } else { 1int },
        {
            let ch = self.chars[self.pos];
            if is_ascii_digit(ch) || is_numeric_glyph(ch) {
                digits.push(to_ascii_digit(ch));
                self.advance_char();
            } else if ch == '.' && !has_decimal {
                has_decimal = true;
                digits.push(to_ascii_digit(ch));
                self.advance_char();
            } else {
                done = true;
            }
            assert(digits@ =~= s.subrange(start, self.pos as int).map_values(digit_char_fn()));
        }
        let text = string_from_chars(digits.as_slice());
        let lexeme = string_from_chars(digits.as_slice());
        Token::new(TokenKind::NumberLiteral(text), lexeme, line, col)
    }
}

/// A numeral glyph as its ASCII digit; any other character unchanged.
fn to_ascii_digit(c: char) -> (r: char)
    ensures
        r == digit_char(c),
{
    match glyph_to_digit(c) {
        Some(d) => {
            let r = (48u8 + d) as char;
            assert(r == (('0' as u32) + ((c as u32) - 0x1D360)) as char);
            r
        },
        None => c,
    }
}

} // verus!

verus! {

impl Lexer {
    /// A number at the current (digit) character.
    fn lex_number(&mut self) -> (r: Result<Option<Token>, LexerError>)
        requires
            old(self).wf(),
            old(self).pos < old(self).chars@.len(),
        ensures
            final(self).wf(),
            final(self).cursor_moved_from(old(self)),
            r matches Ok(Some(t)) && lex_number_spec(old(self).chars@, old(self).config(), old(self).pos as int)
                == (Ok::<TokenValue, ErrValue>(t@), final(self).pos as int),
            spec_is_ascii_digit(old(self).chars@[old(self).pos as int]) ==> final(self).pos > old(self).pos,
    {
        let ghost s = self.chars@;
        let ghost p = self.pos as int;
        proof {
            if spec_is_ascii_digit(s[p]) {
                lemma_ascii_number_end(s, p + 1, false);
                lemma_mixed_number_end(s, p + 1, false);
            }
        }
        if self.options.allow_mixed_numerals {
            Ok(Some(self.lex_number_mixed()))
        } else if is_ascii_digit(self.chars[self.pos]) {
            Ok(Some(self.lex_ascii_number()))
        } else {
            Ok(Some(self.lex_glyph_number()))
        }
    }

    /// A `\u{...}` escape; the cursor is on the expected `{`.
    fn parse_unicode_escape(&mut self) -> (r: Result<char, LexerError>)
        requires
            old(self).wf(),
        ensures
            final(self).wf(),
            final(self).cursor_moved_from(old(self)),
            ({
                let (res, e) = unicode_escape_spec(old(self).chars@, old(self).pos as int);
                &&& final(self).pos == e
                &&& match res {
                    Ok(c) => r == Ok::<char, LexerError>(c),
                    Err(err) => r matches Err(x) && x@ == err,
                }
            }),
    {
        let ghost s = self.chars@;
        let ghost k = self.pos as int;
        if !(self.pos < self.chars.len() && self.chars[self.pos] == '{') {
            let c = if self.pos < self.chars.len() { self.chars[self.pos] } else { ' ' };
            return Err(LexerError::UnexpectedCharacter(c, self.line, self.col));
        }
        self.advance_char();
        let mut digits: Vec<char> = Vec::new();
        let mut value: u64 = 0;
        let mut overflow = false;
        let mut closed = false;
        while !closed && self.pos < self.chars.len()
            invariant
                self.wf(),
                self.cursor_moved_from(old(self)),
                s == self.chars@,
                0 <= k < s.len(),
                k == old(self).pos,
                s[k] == '{',
                k + 1 <= self.pos <= s.len(),
                !closed ==> digits@ == s.subrange(k + 1, self.pos as int),
                !closed ==> run_end(s, k + 1, hex_pred()) == run_end(s, self.pos as int, hex_pred()),
                closed ==> ({
                    let e = run_end(s, k + 1, hex_pred());
                    &&& e < s.len()
                    &&& s[e] == '}'
                    &&& self.pos == e + 1
                    &&& digits@ == s.subrange(k + 1, e)
                }),
                !overflow ==> value == hex_number(digits@) && value < 0x1_0000_0000,
                overflow ==> hex_number(digits@) >= 0x1_0000_0000,
            decreases s.len() - self.pos, if closed { 0int } else { 1int },
        {
            let ch = self.chars[self.pos];
            if ch == '}' {
                self.advance_char();
                closed = true;
            } else if is_ascii_hexdigit(ch) {
                let ghost before = digits@;
                digits.push(ch);
                let h = hex_value(ch);
                proof {
                    assert(digits@.drop_last() == before);
                    lemma_hex_number_grows(before, ch);
                }
                if !overflow {
                    let nv = value * 16 + (h as u64);
                    if nv >= 0x1_0000_0000 {
                        overflow = true;
                    } else {
                        value = nv;
                    }
                }
                self.advance_char();
                assert(digits@ =~= s.subrange(k + 1, self.pos as int));
            } else {
                assert(!hex_pred()(ch));
                return Err(LexerError::UnexpectedCharacter(ch, self.line, self.col));
            }
        }
        if digits.len() == 0 || overflow {
            let t = string_from_chars(digits.as_slice());
            return Err(LexerError::InvalidGlyph(t, self.line, self.col));
        }
        let v = value as u32;
        match char_from_u32(v) {
            Some(c) => {
                assert(v as int == hex_number(digits@));
                Ok(c)
            },
            None => {
                let mut t: Vec<char> = Vec::new();
                t.push('\\');
                t.push('u');
                t.push('{');
                push_decimal(v as u64, &mut t);
                t.push('}');
                proof {
                    reveal_strlit("\\u{");
                    reveal_strlit("}");
                    assert(t@ =~= "\\u{"@ + decimal_text(v as nat) + "}"@);
                }
                Err(LexerError::InvalidGlyph(string_from_chars(t.as_slice()), self.line, self.col))
            },
        }
    }
}

proof fn lemma_hex_number_grows(d: Seq<char>, c: char)
    requires
        spec_is_ascii_hexdigit(c),
    ensures
        hex_number(d.push(c)) == hex_number(d) * 16 + spec_hex_value(c),
        hex_number(d.push(c)) >= hex_number(d),
        0 <= spec_hex_value(c) < 16,
{
    assert(d.push(c).drop_last() == d);
    lemma_hex_number_nonneg(d);
}

proof fn lemma_hex_number_nonneg(d: Seq<char>)
    ensures
        hex_number(d) >= 0,
    decreases d.len(),
{
    if d.len() > 0 {
        lemma_hex_number_nonneg(d.drop_last());
    }
}

} // verus!

verus! {

pub open spec fn lexed_value(r: Result<Token, LexerError>) -> Result<TokenValue, ErrValue> {
    match r {
        Ok(t) => Ok(t@),
        Err(e) => Err(e@),
    }
}

impl Lexer {
    /// A string literal; the cursor is on the opening quote.
    fn lex_string(&mut self) -> (r: Result<Token, LexerError>)
        requires
            old(self).wf(),
            old(self).pos < old(self).chars@.len(),
        ensures
            final(self).wf(),
            final(self).cursor_moved_from(old(self)),
            lex_string_spec(old(self).chars@, old(self).pos as int) == (lexed_value(r), final(self).pos as int),
            r is Ok ==> final(self).pos > old(self).pos,
    {
        let ghost s = self.chars@;
        let ghost p = self.pos as int;
        let (line, col) = self.pos();
        self.advance_char();
        let mut content: Vec<char> = Vec::new();
        while self.pos < self.chars.len()
            invariant
                self.wf(),
                self.cursor_moved_from(old(self)),
                s == self.chars@,
                0 <= p < s.len(),
                p == old(self).pos,
                line == line_at(s, p),
                col == col_at(s, p),
                p + 1 <= self.pos <= s.len(),
                string_body(s, p + 1, Seq::empty()) == string_body(s, self.pos as int, content@),
            decreases s.len() - self.pos,
        {
            let ch = self.chars[self.pos];
            if ch == '"' {
                self.advance_char();
                let text = string_from_chars(content.as_slice());
                let lexeme = string_from_chars(content.as_slice());
                return Ok(Token::new(TokenKind::StringLiteral(text), lexeme, line, col));
            } else if ch == '\\' {
                let ghost i = self.pos as int;
                self.advance_char();
                if self.pos < self.chars.len() {
                    let e = self.chars[self.pos];
                    if e == 'u' {
                        self.advance_char();
                        let ghost k = self.pos as int;
                        match self.parse_unicode_escape() {
                            Ok(c) => {
                                proof {
                                    lemma_run_end(s, k + 1, hex_pred());
                                }
                                content.push(c);
                            },
                            Err(err) => {
                                return Err(err);
                            },
                        }
                    } else {
                        let m = if e == 'n' {
                            '\n'
                        } else if e == 't' {
                            '\t'
                        } else if e == 'r' {
                            '\r'
                        } else {
                            e
                        };
                        content.push(m);
                        self.advance_char();
                    }
                }
            } else {
                content.push(ch);
                self.advance_char();
            }
        }
        Err(LexerError::UnterminatedString(line, col))
    }

    /// A qubit literal `|label>` or `|label⟩`; the cursor is on the `|`.
    fn lex_qubit_literal(&mut self) -> (r: Result<Token, LexerError>)
        requires
            old(self).wf(),
            old(self).pos < old(self).chars@.len(),
        ensures
            final(self).wf(),
            final(self).cursor_moved_from(old(self)),
            lex_qubit_spec(old(self).chars@, old(self).pos as int) == (lexed_value(r), final(self).pos as int),
            r is Ok ==> final(self).pos > old(self).pos,
    {
        let ghost s = self.chars@;
        let ghost p = self.pos as int;
        let (line, col) = self.pos();
        self.advance_char();
        let mut content: Vec<char> = Vec::new();
        while self.pos < self.chars.len()
            invariant
                self.wf(),
                self.cursor_moved_from(old(self)),
                s == self.chars@,
                0 <= p < s.len(),
                p == old(self).pos,
                line == line_at(s, p),
                col == col_at(s, p),
                p + 1 <= self.pos <= s.len(),
                ket_body(s, p + 1, Seq::empty()) == ket_body(s, self.pos as int, content@),
            decreases s.len() - self.pos,
        {
            let ch = self.chars[self.pos];
            if ch == '>' || ch == '⟩' {
                if content.len() == 0 {
                    assert(content@ =~= Seq::<char>::empty());
                    return Err(LexerError::InvalidQubitLiteral(String::new(), line, col));
                }
                let label = string_from_chars(content.as_slice());
                if !is_valid_qubit_inner(label.as_str()) {
                    return Err(LexerError::InvalidQubitLiteral(label, line, col));
                }
                self.advance_char();
                let mut lit: Vec<char> = Vec::new();
                lit.push('|');
                let mut i: usize = 0;
                while i < content.len()
                    invariant
                        i <= content@.len(),
                        lit@ == seq!['|'] + content@.subrange(0, i as int),
                    decreases content@.len() - i,
                {
                    lit.push(content[i]);
                    i += 1;
                    assert(lit@ =~= seq!['|'] + content@.subrange(0, i as int));
                }
                lit.push('⟩');
                assert(lit@ =~= seq!['|'] + content@ + seq!['⟩']);
                let text = string_from_chars(lit.as_slice());
                let lexeme = string_from_chars(lit.as_slice());
                return Ok(Token::new(TokenKind::QubitLiteral(text), lexeme, line, col));
            }
            if is_ascii_whitespace(ch) {
                self.advance_char();
            } else if is_identifier_part(ch) || is_ascii_digit(ch) || is_numeric_glyph(ch) || ch == '+' || ch == '-' {
                content.push(ch);
                self.advance_char();
            } else {
                return Err(LexerError::InvalidQubitLiteral(string_from_chars(content.as_slice()), line, col));
            }
        }
        Err(LexerError::InvalidQubitLiteral(string_from_chars(content.as_slice()), line, col))
    }

    /// Skips a line comment: up to and including the next line feed.
    fn lex_line_comment(&mut self)
        requires
            old(self).wf(),
        ensures
            final(self).wf(),
            final(self).cursor_moved_from(old(self)),
            final(self).pos == line_comment_end(old(self).chars@, old(self).pos as int),
    {
        let ghost s = self.chars@;
        let ghost p = self.pos as int;
        let mut done = false;
        while !done && self.pos < self.chars.len()
            invariant
                self.wf(),
                self.cursor_moved_from(old(self)),
                s == self.chars@,
                0 <= p <= self.pos <= s.len(),
                p == old(self).pos,
                !done ==> run_end(s, p, other_than('\n')) == run_end(s, self.pos as int, other_than('\n')),
                done ==> self.pos == line_comment_end(s, p),
            decreases s.len() - self.pos, if done { 0int } else { 1int },
        {
            let ch = self.chars[self.pos];
            if ch == '\n' {
                assert(run_end(s, self.pos as int, other_than('\n')) == self.pos);
                self.advance_char();
                done = true;
            } else {
                self.advance_char();
            }
        }
    }

    /// Skips a nested block comment; the cursor is on its opening marker.
    fn lex_block_comment(&mut self) -> (r: Result<Option<Token>, LexerError>)
        requires
            old(self).wf(),
            old(self).pos < old(self).chars@.len(),
        ensures
            final(self).wf(),
            final(self).cursor_moved_from(old(self)),
            ({
                let s = old(self).chars@;
                let p = old(self).pos as int;
                match block_comment_end(s, old(self).config(), p + 1, 1) {
                    Some(e) => r matches Ok(None) && final(self).pos == e,
                    None => r matches Err(x) && x@ == ErrValue::UnterminatedComment(line_at(s, p), col_at(s, p))
                        && final(self).pos == s.len(),
                }
            }),
    {
        let ghost s = self.chars@;
        let ghost p = self.pos as int;
        let ghost cfg = self.config();
        let (start_line, start_col) = self.pos();
        self.advance_char();
        let mut depth: usize = 1;
        while self.pos < self.chars.len()
            invariant
                self.wf(),
                self.cursor_moved_from(old(self)),
                s == self.chars@,
                cfg == self.config(),
                0 <= p < s.len(),
                p == old(self).pos,
                p + 1 <= self.pos <= s.len(),
                1 <= depth <= self.pos - p,
                block_comment_end(s, cfg, p + 1, 1) == block_comment_end(s, cfg, self.pos as int, depth as int),
            decreases s.len() - self.pos,
        {
            let ch = self.chars[self.pos];
            if ch == self.options.markers.block_comment_start {
                depth = depth + 1;
            } else if ch == self.options.markers.block_comment_end {
                depth = depth - 1;
                self.advance_char();
                if depth == 0 {
                    return Ok(None);
                }
                continue;
            }
            self.advance_char();
        }
        Err(LexerError::UnterminatedComment(start_line, start_col))
    }

    /// The content of an AI-only block, up to (not including) its end marker.
    fn lex_ai_block(&mut self) -> (r: Result<Token, LexerError>)
        requires
            old(self).wf(),
            old(self).pos < old(self).chars@.len(),
        ensures
            final(self).wf(),
            final(self).cursor_moved_from(old(self)),
            lex_ai_block_spec(old(self).chars@, old(self).config(), old(self).pos as int)
                == (lexed_value(r), final(self).pos as int),
    {
        let ghost s = self.chars@;
        let ghost p = self.pos as int;
        let ghost cfg = self.config();
        let ghost end = run_end(s, p, other_than(cfg.ai_end));
        proof {
            lemma_run_end(s, p, other_than(cfg.ai_end));
        }
        let (line, col) = self.pos();
        let mut content = String::new();
        let mut size: usize = 0;
        let mut done = false;
        while !done && self.pos < self.chars.len()
            invariant
                self.wf(),
                self.cursor_moved_from(old(self)),
                s == self.chars@,
                cfg == self.config(),
                s.len() * 4 <= isize::MAX,
                0 <= p <= self.pos <= s.len(),
                p == old(self).pos,
                line == line_at(s, p),
                col == col_at(s, p),
                end == run_end(s, p, other_than(cfg.ai_end)),
                !done ==> run_end(s, self.pos as int, other_than(cfg.ai_end)) == end,
                done ==> self.pos == end,
                self.pos <= end,
                content@ == s.subrange(p, self.pos as int),
                size <= cfg.max_ai_bytes,
                size <= 4 * (self.pos - p),
                ai_overflow_at(s, p, end, 0, cfg.max_ai_bytes) == ai_overflow_at(s, self.pos as int, end, size as int, cfg.max_ai_bytes),
            decreases s.len() - self.pos, if done { 0int } else { 1int },
        {
            let ch = self.chars[self.pos];
            if ch == self.options.markers.ai_end {
                done = true;
            } else {
                proof {
                    lemma_run_end(s, self.pos + 1, other_than(cfg.ai_end));
                    assert(other_than(cfg.ai_end)(ch));
                    assert(run_end(s, self.pos as int, other_than(cfg.ai_end)) == run_end(s, self.pos + 1, other_than(cfg.ai_end)));
                }
                let ghost old_size = size as int;
                size = size + utf8_len(ch);
                if size > self.options.max_ai_block_size {
                    assert(ai_overflow_at(s, self.pos as int, end, old_size, cfg.max_ai_bytes) == self.pos);
                    wipe(&mut content);
                    return Err(LexerError::AIContentTooLarge(line, col));
                }
                push_char(&mut content, ch);
                self.advance_char();
                assert(content@ =~= s.subrange(p, self.pos as int));
            }
        }
        if self.pos >= self.chars.len() {
            wipe(&mut content);
            return Err(LexerError::UnterminatedComment(line, col));
        }
        Ok(Token::new(TokenKind::StringLiteral(content), String::new(), line, col))
    }

    /// Entering an AI-only block; refused unless AI access is authorised.
    fn enter_ai_block(&mut self) -> (r: Result<Option<Token>, LexerError>)
        requires
            old(self).wf(),
            old(self).pos < old(self).chars@.len(),
        ensures
            final(self).wf(),
            final(self).chars == old(self).chars,
            final(self).options == old(self).options,
            final(self).custom_token_kinds == old(self).custom_token_kinds,
            final(self).plugins == old(self).plugins,
            final(self).token_cache == old(self).token_cache,
            final(self).event_bus == old(self).event_bus,
            !old(self).options.ai_access_authorized ==> (r matches Err(x) && x@ == ErrValue::UnauthorizedAIAccess(
                line_at(old(self).chars@, old(self).pos as int), col_at(old(self).chars@, old(self).pos as int))
                && final(self).pos == old(self).pos && final(self).in_ai_block == old(self).in_ai_block),
            old(self).options.ai_access_authorized ==> (r matches Ok(None) && final(self).pos == old(self).pos + 1
                && final(self).in_ai_block),
    {
        if !self.options.ai_access_authorized {
            let (line, col) = self.pos();
            return Err(LexerError::UnauthorizedAIAccess(line, col));
        }
        self.in_ai_block = true;
        self.advance_char();
        Ok(None)
    }

    /// One round inside an AI-only block: its end marker leaves the block, anything else
    /// is the block's content (refused unless AI access is authorised).
    fn lex_in_ai_block(&mut self, ch: char) -> (r: Result<Option<Token>, LexerError>)
        requires
            old(self).wf(),
            old(self).pos < old(self).chars@.len(),
            ch == old(self).chars@[old(self).pos as int],
            old(self).in_ai_block,
        ensures
            final(self).wf(),
            final(self).chars == old(self).chars,
            final(self).options == old(self).options,
            final(self).custom_token_kinds == old(self).custom_token_kinds,
            final(self).plugins == old(self).plugins,
            final(self).token_cache == old(self).token_cache,
            final(self).event_bus == old(self).event_bus,
            ({
                let s = old(self).chars@;
                let p = old(self).pos as int;
                let cfg = old(self).config();
                if ch == cfg.ai_end {
                    r matches Ok(None) && final(self).pos == p + 1 && !final(self).in_ai_block
                } else if !cfg.authorized {
                    r matches Err(x) && x@ == ErrValue::UnauthorizedAIAccess(line_at(s, p), col_at(s, p))
                        && final(self).pos == p && final(self).in_ai_block
                } else {
                    true
                }
            }),
            ({
                let s = old(self).chars@;
                let p = old(self).pos as int;
                let cfg = old(self).config();
                (ch != cfg.ai_end && cfg.authorized) ==> (
                    match r {
                        Ok(Some(t)) => lex_ai_block_spec(s, cfg, p) == (Ok::<TokenValue, ErrValue>(t@), final(self).pos as int),
                        Err(x) => lex_ai_block_spec(s, cfg, p) == (Err::<TokenValue, ErrValue>(x@), final(self).pos as int),
                        Ok(None) => false,
                    } && final(self).in_ai_block)
            }),
            r matches Ok(Some(_)) ==> final(self).pos > old(self).pos,
    {
        if ch == self.options.markers.ai_end {
            self.in_ai_block = false;
            self.advance_char();
            return Ok(None);
        }
        if !self.options.ai_access_authorized {
            let (line, col) = self.pos();
            return Err(LexerError::UnauthorizedAIAccess(line, col));
        }
        proof {
            let s = self.chars@;
            let p = self.pos as int;
            lemma_run_end(s, p + 1, other_than(self.options.markers.ai_end));
            assert(other_than(self.options.markers.ai_end)(ch));
        }
        match self.lex_ai_block() {
            Ok(t) => Ok(Some(t)),
            Err(e) => Err(e),
        }
    }
}

} // verus!

verus! {

impl Lexer {
    /// Whether a `>` or `⟩` comes within the next `max_lookahead` characters, before a
    /// line feed, `;`, `{`, `}` or `)`.
    fn has_quantum_closing_bracket_ahead(&self, max_lookahead: usize) -> (r: bool)
        requires
            self.wf(),
        ensures
            r == found_before_boundary(self.chars@, self.pos + 1, self.pos + 1 + max_lookahead, ket_close_pred()),
    {
        let ghost s = self.chars@;
        let ghost target = ket_close_pred();
        let ghost stop = self.pos + 1 + max_lookahead;
        let mut j = self.pos + 1;
        let mut k: usize = 0;
        while k < max_lookahead && j < self.chars.len()
            invariant
                s == self.chars@,
                j == self.pos + 1 + k,
                k <= max_lookahead,
                self.pos + 1 + max_lookahead == stop,
                target == ket_close_pred(),
                found_before_boundary(s, self.pos + 1, stop, target) == found_before_boundary(s, j as int, stop, target),
            decreases max_lookahead - k,
        {
            let ch = self.chars[j];
            if ch == '>' || ch == '⟩' {
                assert(target(ch));
                assert(found_before_boundary(s, j as int, stop, target));
                return true;
            }
            if ch == '\n' || ch == ';' || ch == '{' || ch == '}' || ch == ')' {
                assert(!target(ch));
                assert(!found_before_boundary(s, j as int, stop, target));
                return false;
            }
            assert(!target(ch));
            j += 1;
            k += 1;
        }
        false
    }

    /// Whether a `|` comes within the next `max_lookahead` characters, before a line feed,
    /// `;`, `{`, `}` or `)`.
    fn has_closure_pipe_ahead(&self, max_lookahead: usize) -> (r: bool)
        requires
            self.wf(),
        ensures
            r == found_before_boundary(self.chars@, self.pos + 1, self.pos + 1 + max_lookahead, pipe_pred()),
    {
        let ghost s = self.chars@;
        let ghost target = pipe_pred();
        let ghost stop = self.pos + 1 + max_lookahead;
        let mut j = self.pos + 1;
        let mut k: usize = 0;
        while k < max_lookahead && j < self.chars.len()
            invariant
                s == self.chars@,
                j == self.pos + 1 + k,
                k <= max_lookahead,
                self.pos + 1 + max_lookahead == stop,
                target == pipe_pred(),
                found_before_boundary(s, self.pos + 1, stop, target) == found_before_boundary(s, j as int, stop, target),
            decreases max_lookahead - k,
        {
            let ch = self.chars[j];
            if ch == '|' {
                assert(target(ch));
                assert(found_before_boundary(s, j as int, stop, target));
                return true;
            }
            if ch == '\n' || ch == ';' || ch == '{' || ch == '}' || ch == ')' {
                assert(!target(ch));
                assert(!found_before_boundary(s, j as int, stop, target));
                return false;
            }
            assert(!target(ch));
            j += 1;
            k += 1;
        }
        false
    }

    /// Whether the `|` at the cursor opens a qubit literal rather than a closure or pipe.
    fn looks_like_qubit_after_pipe(&self, max_lookahead: usize) -> (r: bool)
        requires
            self.wf(),
            self.pos < self.chars@.len(),
        ensures
            r == looks_like_qubit_spec(self.chars@, self.pos as int, max_lookahead as int),
    {
        let ghost s = self.chars@;
        let n = self.chars.len();
        if self.pos + 1 >= n {
            return false;
        }
        let next = self.chars[self.pos + 1];
        let plausible = is_identifier_start(next) || is_ascii_digit(next) || is_numeric_glyph(next)
            || next == '+' || next == '-' || next == '>' || next == '⟩';
        if !plausible {
            return false;
        }
        let ghost limit = self.pos + 1 + max_lookahead;
        let mut j = self.pos + 2;
        let mut saw_content = false;
        while j < n
            invariant
                s == self.chars@,
                n == s.len(),
                self.pos + 2 <= j <= n,
                limit == self.pos + 1 + max_lookahead,
                ket_ahead(s, self.pos + 2, limit, false) == ket_ahead(s, j as int, limit, saw_content),
                looks_like_qubit_spec(s, self.pos as int, max_lookahead as int) == ket_ahead(s, self.pos + 2, limit, false),
            decreases n - j,
        {
            if j - (self.pos + 1) > max_lookahead {
                return false;
            }
            let c = self.chars[j];
            if c == '|' {
                return false;
            }
            if c == '>' || c == '⟩' {
                assert(ket_ahead(s, j as int, limit, saw_content));
                return true;
            }
            if c == '\n' || c == ';' || c == '{' || c == '}' || c == '(' || c == ')' {
                return false;
            }
            saw_content = true;
            j += 1;
        }
        saw_content
    }

    /// Two-character operators starting at the cursor.
    fn match_multi_char_operator(&self, ch: char) -> (r: Option<TokenKind>)
        requires
            self.wf(),
        ensures
            opt_kind_value(r) == multi_char_kind(ch, next_char(self.chars@, self.pos as int)),
    {
        match self.peek_char() {
            Some(n) => {
                if ch == '=' && n == '=' { Some(TokenKind::DoubleEquals) }
                else if ch == '!' && n == '=' { Some(TokenKind::NotEquals) }
                else if ch == '<' && n == '=' { Some(TokenKind::LessEqual) }
                else if ch == '>' && n == '=' { Some(TokenKind::GreaterEqual) }
                else if ch == ':' && n == ':' { Some(TokenKind::DoubleColon) }
                else if ch == ':' && n == '=' { Some(TokenKind::ColonEquals) }
                else if ch == '-' && n == '>' { Some(TokenKind::Arrow) }
                else if ch == '=' && n == '>' { Some(TokenKind::FatArrow) }
                else if ch == '&' && n == '&' { Some(TokenKind::AndAnd) }
                else if ch == '|' && n == '|' { Some(TokenKind::OrOr) }
                else { None }
            },
            None => None,
        }
    }

    /// One-character tokens.
    fn match_single_char_token(&self, ch: char) -> (r: Option<TokenKind>)
        ensures
            opt_kind_value(r) == single_char_kind(ch),
    {
        if ch == '+' { Some(TokenKind::Plus) }
        else if ch == '-' { Some(TokenKind::Minus) }
        else if ch == '*' { Some(TokenKind::Star) }
        else if ch == '/' { Some(TokenKind::Slash) }
        else if ch == '%' { Some(TokenKind::Percent) }
        else if ch == '=' { Some(TokenKind::Equals) }
        else if ch == ';' { Some(TokenKind::Semicolon) }
        else if ch == ',' { Some(TokenKind::Comma) }
        else if ch == ':' { Some(TokenKind::Colon) }
        else if ch == '.' { Some(TokenKind::Dot) }
        else if ch == '(' { Some(TokenKind::OpenParen) }
        else if ch == ')' { Some(TokenKind::CloseParen) }
        else if ch == '{' { Some(TokenKind::OpenBrace) }
        else if ch == '}' { Some(TokenKind::CloseBrace) }
        else if ch == '[' { Some(TokenKind::OpenBracket) }
        else if ch == ']' { Some(TokenKind::CloseBracket) }
        else if ch == '<' { Some(TokenKind::LessThan) }
        else if ch == '>' { Some(TokenKind::GreaterThan) }
        else if ch == '|' { Some(TokenKind::Pipe) }
        else if ch == '&' { Some(TokenKind::Ampersand) }
        else if ch == '!' { Some(TokenKind::Exclamation) }
        else if ch == '🧠' { Some(TokenKind::AIFunc) }
        else if is_hieroglyphic(ch) {
            let mut t = String::new();
            push_char(&mut t, ch);
            assert(t@ =~= seq![ch]);
            Some(TokenKind::HieroglyphicOp(t))
        } else { None }
    }
}

} // verus!

verus! {

/// Appends a message to an event bus (`Mutex::lock` and `Vec::push`). Nothing is
/// claimed: the bus is only written to. A poisoned lock is left alone.
#[verifier::external_body]
fn publish_event(bus: &Arc<Mutex<Vec<String>>>, message: String) {
    if let Ok(mut guard) = bus.lock() {
        guard.push(message);
    }
}

/// The event reported for a token: its kind as `Debug` writes it, and its line and
/// column.
pub open spec fn token_event_text(t: Token) -> Seq<char> {
    "Token: "@ + kind_debug_text(t.kind@) + " at "@ + decimal_text(t.line as nat) + ":"@ + decimal_text(
        t.column as nat,
    )
}

fn token_event_message(t: &Token) -> (r: String)
    ensures
        r@ == token_event_text(*t),
{
    let kind = t.kind.debug_text();
    let mut out: Vec<char> = Vec::new();
    push_str_chars(&mut out, "Token: ");
    push_string_chars(&mut out, &kind);
    push_str_chars(&mut out, " at ");
    push_decimal(t.line as u64, &mut out);
    push_str_chars(&mut out, ":");
    push_decimal(t.column as u64, &mut out);
    string_from_chars(out.as_slice())
}

impl Lexer {
    /// All but the plugins are as in `other`; the plugins are as many.
    pub closed spec fn plugins_touched_from(&self, other: &Lexer) -> bool {
        &&& self.chars == other.chars
        &&& self.pos == other.pos
        &&& self.line == other.line
        &&& self.col == other.col
        &&& self.options == other.options
        &&& self.in_ai_block == other.in_ai_block
        &&& self.custom_token_kinds == other.custom_token_kinds
        &&& self.plugins@.len() == other.plugins@.len()
        &&& self.token_cache == other.token_cache
        &&& self.event_bus == other.event_bus
    }

    fn notify_before(&mut self)
        ensures
            final(self).plugins_touched_from(old(self)),
    {
        let view = self.view();
        let n = self.plugins.len();
        let mut i: usize = 0;
        while i < n
            invariant
                self.plugins_touched_from(old(self)),
                n == self.plugins@.len(),
                i <= n,
            decreases n - i,
        {
            self.plugins[i].before_token(view);
            i += 1;
        }
    }

    fn notify_after(&mut self, token: &Token)
        ensures
            final(self).plugins_touched_from(old(self)),
    {
        let view = self.view();
        let n = self.plugins.len();
        let mut i: usize = 0;
        while i < n
            invariant
                self.plugins_touched_from(old(self)),
                n == self.plugins@.len(),
                i <= n,
            decreases n - i,
        {
            self.plugins[i].after_token(view, token);
            i += 1;
        }
    }

    fn notify_error(&mut self, error: &LexerError)
        ensures
            final(self).plugins_touched_from(old(self)),
    {
        let view = self.view();
        let n = self.plugins.len();
        let mut i: usize = 0;
        while i < n
            invariant
                self.plugins_touched_from(old(self)),
                n == self.plugins@.len(),
                i <= n,
            decreases n - i,
        {
            self.plugins[i].on_error(view, error);
            i += 1;
        }
    }

    fn dlp_before(&self, token: &Token) {
        let n = self.options.dlp_plugins.len();
        let mut i: usize = 0;
        while i < n
            invariant
                n == self.options.dlp_plugins@.len(),
                i <= n,
            decreases n - i,
        {
            self.options.dlp_plugins[i].before_emit_token(token);
            i += 1;
        }
    }

    fn dlp_after(&self, token: &Token) {
        let n = self.options.dlp_plugins.len();
        let mut i: usize = 0;
        while i < n
            invariant
                n == self.options.dlp_plugins@.len(),
                i <= n,
            decreases n - i,
        {
            self.options.dlp_plugins[i].after_emit_token(token);
            i += 1;
        }
    }

    /// One round of the built-in rules at a current character that is not a glyph
    /// operator: `None` when text was skipped.
    fn lex_step(&mut self, ch: char) -> (r: Option<Result<Token, LexerError>>)
        requires
            old(self).wf(),
            old(self).pos < old(self).chars@.len(),
            ch == old(self).chars@[old(self).pos as int],
            glyph_kind(ch) is None,
        ensures
            final(self).wf(),
            final(self).chars == old(self).chars,
            final(self).options == old(self).options,
            final(self).custom_token_kinds == old(self).custom_token_kinds,
            final(self).plugins == old(self).plugins,
            final(self).token_cache == old(self).token_cache,
            final(self).event_bus == old(self).event_bus,
            match step_spec(old(self).chars@, old(self).config(), old(self).state()) {
                Step::Emit(res, next) => r matches Some(x) && lexed_value(x) == res && final(self).state() == next,
                Step::Skip(next) => r is None && final(self).state() == next,
            },
            r matches Some(Ok(_)) ==> final(self).pos > old(self).pos,
    {
        let ghost s = self.chars@;
        let ghost p = self.pos as int;
        if self.in_ai_block {
            return match self.lex_in_ai_block(ch) {
                Ok(None) => None,
                Ok(Some(t)) => Some(Ok(t)),
                Err(e) => Some(Err(e)),
            };
        }
        let next = self.peek_char();
        let slash_slash = match next {
            Some(n) => ch == '/' && n == '/',
            None => false,
        };
        if slash_slash {
            self.advance_char();
            self.lex_line_comment();
            return None;
        }
        if ch == self.options.markers.line_comment {
            self.lex_line_comment();
            return None;
        }
        if ch == self.options.markers.block_comment_start {
            return match self.lex_block_comment() {
                Ok(_) => None,
                Err(e) => Some(Err(e)),
            };
        }
        if is_safe_whitespace(ch) {
            self.advance_char();
            return None;
        }
        if ch == self.options.markers.ai_start {
            return match self.enter_ai_block() {
                Ok(_) => None,
                Err(e) => Some(Err(e)),
            };
        }
        match self.match_multi_char_operator(ch) {
            Some(tok) => {
                let (line, col) = self.pos();
                self.advance_char();
                self.advance_char();
                return Some(Ok(Token::new(tok, String::new(), line, col)));
            },
            None => {},
        }
        if ch == '|' {
            let (line, col) = self.pos();
            let is_qubit = self.looks_like_qubit_after_pipe(48);
            if is_qubit {
                return Some(self.lex_qubit_literal());
            } else {
                self.advance_char();
                let mut bar = String::new();
                push_char(&mut bar, '|');
                assert(bar@ =~= seq!['|']);
                return Some(Ok(Token::new(TokenKind::Pipe, bar, line, col)));
            }
        }
        match self.match_single_char_token(ch) {
            Some(tok) => {
                let (line, col) = self.pos();
                self.advance_char();
                return Some(Ok(Token::new(tok, String::new(), line, col)));
            },
            None => {},
        }
        if is_ascii_digit(ch) || is_numeric_glyph(ch) {
            return match self.lex_number() {
                Ok(Some(t)) => Some(Ok(t)),
                Ok(None) => None,
                Err(e) => Some(Err(e)),
            };
        }
        if ch == '"' {
            return Some(self.lex_string());
        }
        if is_identifier_start(ch) {
            let part = is_identifier_part(ch);
            assert(part);
            return Some(Ok(self.lex_identifier()));
        }
        let (line, col) = self.pos();
        Some(Err(LexerError::UnexpectedCharacter(ch, line, col)))
    }
}

} // verus!

verus! {

/// The result of `next_token` agrees with an outcome of the grammar.
pub open spec fn agrees(r: Result<Option<Token>, LexerError>, expected: Result<TokenValue, ErrValue>) -> bool {
    match expected {
        Ok(t) => r matches Ok(Some(x)) && x@ == t,
        Err(e) => r matches Err(x) && x@ == e,
    }
}

impl Lexer {
    /// The next token: the end-of-input token once the text is used up, else the first
    /// token or error after skipped whitespace and comments. Registered custom kinds are
    /// tried first at each character; without them the result is the one the grammar gives.
    pub fn next_token(&mut self) -> (r: Result<Option<Token>, LexerError>)
        requires
            old(self).wf(),
        ensures
            final(self).wf(),
            final(self).same_setup(old(self)),
            final(self).source() == old(self).source(),
            final(self).config() == old(self).config(),
            final(self).custom_kind_count() == old(self).custom_kind_count(),
            final(self).plugin_count() == old(self).plugin_count(),
            r is Ok ==> r->Ok_0 is Some,
            r matches Ok(Some(t)) ==> (old(self).state().pos < final(self).state().pos || t.kind is EOF),
            old(self).state().pos >= old(self).source().len() ==> (r matches Ok(Some(t)) && t.kind is EOF
                && final(self).state() == old(self).state() && t.lexeme@.len() == 0 && t.line == line_at(
                old(self).source(),
                old(self).state().pos,
            ) && t.column == col_at(old(self).source(), old(self).state().pos) && *final(self) == *old(self)),
            old(self).custom_kind_count() == 0 ==> ({
                let (expected, next) = next_token_spec(old(self).source(), old(self).config(), old(self).state());
                &&& agrees(r, expected)
                &&& final(self).state() == next
            }),
    {
        let ghost s = self.chars@;
        let ghost cfg = self.config();
        loop
            invariant
                self.wf(),
                self.same_setup(old(self)),
                s == self.chars@,
                cfg == self.config(),
                old(self).custom_kind_count() == 0 ==> next_token_spec(s, cfg, self.state())
                    == next_token_spec(s, cfg, old(self).state()),
                old(self).pos <= self.pos,
                old(self).pos >= s.len() ==> self.state() == old(self).state() && *self == *old(self),
            decreases s.len() - self.pos,
        {
            if self.pos >= self.chars.len() {
                let (line, col) = self.pos();
                return Ok(Some(Token::new(TokenKind::EOF, String::new(), line, col)));
            }
            let ch = self.chars[self.pos];
            self.notify_before();
            let start_pos = self.pos;
            let ghost start_in_ai = self.in_ai_block;
            let nk = self.custom_token_kinds.len();
            let mut k: usize = 0;
            while k < nk
                invariant
                    self.wf(),
                    self.same_setup(old(self)),
                    s == self.chars@,
                    cfg == self.config(),
                    nk == self.custom_token_kinds@.len(),
                    k <= nk,
                    self.pos < s.len(),
                    old(self).pos <= self.pos,
                    self.pos == start_pos,
                    self.in_ai_block == start_in_ai,
                    ch == s[self.pos as int],
                    old(self).custom_kind_count() == 0 ==> next_token_spec(s, cfg, self.state())
                        == next_token_spec(s, cfg, old(self).state()),
                decreases nk - k,
            {
                let m = self.custom_token_kinds[k].try_match(self.token_cache.as_slice());
                match m {
                    Some(tok) => {
                        let (line, col) = self.pos();
                        self.advance_char();
                        let token = Token::new(tok, String::new(), line, col);
                        self.notify_after(&token);
                        return Ok(Some(token));
                    },
                    None => {},
                }
                k += 1;
            }
            match glyph_token_kind(ch) {
                Some(kind) => {
                    let (line, col) = self.pos();
                    self.advance_char();
                    let mut lexeme = String::new();
                    push_char(&mut lexeme, ch);
                    assert(lexeme@ =~= seq![ch]);
                    let token = Token::new(kind, lexeme, line, col);
                    self.notify_after(&token);
                    return Ok(Some(token));
                },
                None => {},
            }
            let ghost before = self.state();
            proof {
                lemma_skip_advances(s, cfg, before);
            }
            match self.lex_step(ch) {
                None => {},
                Some(Ok(token)) => {
                    self.dlp_before(&token);
                    self.notify_after(&token);
                    self.dlp_after(&token);
                    if self.options.cli_mode {
                        match &self.event_bus {
                            Some(bus) => publish_event(bus, token_event_message(&token)),
                            None => {},
                        }
                    }
                    return Ok(Some(token));
                },
                Some(Err(e)) => {
                    self.notify_error(&e);
                    if self.options.cli_mode {
                        match &self.event_bus {
                            Some(bus) => publish_event(bus, concat("LexerError: ", e.message().as_str())),
                            None => {},
                        }
                    }
                    return Err(e);
                },
            }
        }
    }

    /// All tokens up to and including the end-of-input token, or the first error.
    pub fn tokenize(&mut self) -> (r: Result<Vec<Token>, LexerError>)
        requires
            old(self).wf(),
        ensures
            final(self).wf(),
            final(self).same_setup(old(self)),
            final(self).source() == old(self).source(),
            final(self).config() == old(self).config(),
            final(self).custom_kind_count() == old(self).custom_kind_count(),
            final(self).plugin_count() == old(self).plugin_count(),
            old(self).custom_kind_count() == 0 ==> ({
                let (expected, stop) = tokenize_spec(old(self).source(), old(self).config(), old(self).state());
                &&& match expected {
                    Ok(ts) => r matches Ok(v) && crate::token::token_values(v@) == ts,
                    Err(e) => r matches Err(x) && x@ == e,
                }
                &&& final(self).state() == stop
            }),
            r matches Ok(ts) ==> ts@.len() > 0 && ts@.last().kind is EOF && forall|i: int|
                0 <= i < ts@.len() - 1 ==> !(#[trigger] ts@[i].kind is EOF),
    {
        let ghost s = self.chars@;
        let ghost cfg = self.config();
        let mut tokens: Vec<Token> = Vec::new();
        loop
            invariant
                self.wf(),
                self.same_setup(old(self)),
                s == self.chars@,
                cfg == self.config(),
                old(self).custom_kind_count() == 0 ==> tokenize_spec(s, cfg, old(self).state())
                    == prepend_tokens(crate::token::token_values(tokens@), tokenize_spec(s, cfg, self.state())),
                forall|i: int| 0 <= i < tokens@.len() ==> !(#[trigger] tokens@[i].kind is EOF),
            decreases s.len() - self.pos,
        {
            let ghost before = self.state();
            let ghost old_tokens = tokens@;
            let t = match self.next_token() {
                Ok(Some(t)) => t,
                Ok(None) => {
                    return Ok(tokens);
                },
                Err(e) => {
                    return Err(e);
                },
            };
            let is_eof = match t.kind {
                TokenKind::EOF => true,
                _ => false,
            };
            let ghost tv = t@;
            tokens.push(t);
            proof {
                assert(crate::token::token_values(tokens@) =~= crate::token::token_values(old_tokens).push(tv));
                assert(crate::token::token_values(old_tokens) + seq![tv] =~= crate::token::token_values(old_tokens).push(tv));
                if old(self).custom_kind_count() == 0 {
                    let x = tokenize_spec(s, cfg, self.state());
                    match x.0 {
                        Ok(ts) => {
                            assert(crate::token::token_values(old_tokens) + (seq![tv] + ts)
                                =~= crate::token::token_values(tokens@) + ts);
                        },
                        Err(_) => {},
                    }
                }
            }
            if is_eof {
                return Ok(tokens);
            }
        }
    }
}

} // verus!
