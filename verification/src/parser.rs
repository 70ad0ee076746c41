//! The token cursor of the Aeonmi parser: moving over tokens, matching and
//! consuming them, skipping type annotations, and reading type names.

use vstd::prelude::*;
use crate::qube_parser::{adv, at_end, check, err_here, ErrV, eof_value, moves};
use crate::text::{concat, decimal_text, owned, push_char, push_decimal, push_str_chars, push_string_chars, string_from_chars};
use crate::token::{KindValue, Token, TokenKind, TokenValue, token_values};

verus! {

/// A parse error: its message and where it was found.
#[derive(Debug)]
pub struct ParserError {
    pub message: String,
    pub line: usize,
    pub column: usize,
}

/// How an error is written, as `Display` writes it: `message at line:column`.
pub open spec fn parser_error_text(e: ParserError) -> Seq<char> {
    e.message@ + " at "@ + decimal_text(e.line as nat) + ":"@ + decimal_text(e.column as nat)
}

impl ParserError {
    /// The error as text (what `Display` writes).
    pub fn to_text(&self) -> (r: String)
        ensures
            r@ == parser_error_text(*self),
    {
        let mut out: Vec<char> = Vec::new();
        push_string_chars(&mut out, &self.message);
        push_str_chars(&mut out, " at ");
        push_decimal(self.line as u64, &mut out);
        push_str_chars(&mut out, ":");
        push_decimal(self.column as u64, &mut out);
        assert(out@ =~= parser_error_text(*self));
        string_from_chars(out.as_slice())
    }
}

/// The model of an error.
pub open spec fn parser_err_view(e: ParserError) -> ErrV {
    ErrV { message: e.message@, line: e.line as int, column: e.column as int }
}

/// The position after skipping a type annotation up to `=` or `;` at nesting 0
/// (`<` opens a level, `>` closes one).
pub open spec fn skip_until_equals(t: Seq<TokenValue>, p: int, depth: nat) -> int
    decreases t.len() - p,
{
    if !(0 <= p < t.len()) || at_end(t, p) {
        p
    } else {
        match t[p].kind {
            KindValue::Equals if depth == 0 => p,
            KindValue::Semicolon if depth == 0 => p,
            KindValue::LessThan => skip_until_equals(t, p + 1, depth + 1),
            KindValue::GreaterThan if depth > 0 => skip_until_equals(t, p + 1, (depth - 1) as nat),
            _ => skip_until_equals(t, p + 1, depth),
        }
    }
}

/// The position after skipping a parameter's type up to `,` or `)` at nesting 0.
pub open spec fn skip_param_type(t: Seq<TokenValue>, p: int, depth: nat) -> int
    decreases t.len() - p,
{
    if !(0 <= p < t.len()) || at_end(t, p) {
        p
    } else {
        match t[p].kind {
            KindValue::Comma if depth == 0 => p,
            KindValue::CloseParen if depth == 0 => p,
            KindValue::LessThan => skip_param_type(t, p + 1, depth + 1),
            KindValue::GreaterThan if depth > 0 => skip_param_type(t, p + 1, (depth - 1) as nat),
            _ => skip_param_type(t, p + 1, depth),
        }
    }
}

/// Skipping a field's type: the position reached, and whether a `=` (a default
/// value) was found and consumed; `;` or `}` at nesting 0, or the end, stop it.
pub open spec fn skip_field_type(t: Seq<TokenValue>, p: int, depth: nat) -> (bool, int)
    decreases t.len() - p,
{
    if !(0 <= p < t.len()) {
        (false, p)
    } else {
        match t[p].kind {
            KindValue::Equals if depth == 0 => (true, adv(t, p)),
            KindValue::Semicolon if depth == 0 => (false, p),
            KindValue::CloseBrace if depth == 0 => (false, p),
            KindValue::LessThan => skip_field_type(t, p + 1, depth + 1),
            KindValue::GreaterThan if depth > 0 => skip_field_type(t, p + 1, (depth - 1) as nat),
            KindValue::EOF => (false, p),
            _ => skip_field_type(t, p + 1, depth),
        }
    }
}

/// The position after skipping a return type up to `{` at nesting 0.
pub open spec fn skip_return_type(t: Seq<TokenValue>, p: int, depth: nat) -> int
    decreases t.len() - p,
{
    if !(0 <= p < t.len()) || at_end(t, p) {
        p
    } else {
        match t[p].kind {
            KindValue::OpenBrace if depth == 0 => p,
            KindValue::LessThan => skip_return_type(t, p + 1, depth + 1),
            KindValue::GreaterThan if depth > 0 => skip_return_type(t, p + 1, (depth - 1) as nat),
            _ => skip_return_type(t, p + 1, depth),
        }
    }
}

/// The text of generic arguments read after `<`: names, `, ` for commas, `<` and
/// `>` for the brackets, until the bracket opened first closes or the input ends;
/// with the position reached.
pub open spec fn generic_args(t: Seq<TokenValue>, p: int, depth: nat, text: Seq<char>) -> (Seq<char>, int)
    decreases t.len() - p,
{
    if !(0 <= p < t.len()) || at_end(t, p) || depth == 0 {
        (text, p)
    } else {
        match t[p].kind {
            KindValue::LessThan => generic_args(t, p + 1, depth + 1, text.push('<')),
            KindValue::GreaterThan => generic_args(t, p + 1, (depth - 1) as nat, text.push('>')),
            KindValue::Identifier(n) => generic_args(t, p + 1, depth, text + n),
            KindValue::Comma => generic_args(t, p + 1, depth, text + ", "@),
            _ => generic_args(t, p + 1, depth, text),
        }
    }
}

/// A type name: a name with its generic arguments, `&` before a type, or `Any`
/// when no type is there; with the position reached.
pub open spec fn type_text_at(t: Seq<TokenValue>, p: int) -> (Seq<char>, int)
    decreases t.len() - p,
{
    if !(0 <= p < t.len()) {
        ("Any"@, p)
    } else {
        match t[p].kind {
            KindValue::Identifier(name) => {
                let p1 = adv(t, p);
                if check(t, p1, KindValue::LessThan) {
                    generic_args(t, adv(t, p1), 1, name.push('<'))
                } else {
                    (name, p1)
                }
            },
            KindValue::Ampersand => if moves(t, p, adv(t, p)) {
                let (inner, q) = type_text_at(t, adv(t, p));
                (seq!['&'] + inner, q)
            } else {
                ("&Any"@, adv(t, p))
            },
            _ => ("Any"@, p),
        }
    }
}

/// The hieroglyphs U+13000..U+13009 declare quantum variables.
pub open spec fn is_quantum_variable_glyph(symbol: Seq<char>) -> bool {
    symbol.len() == 1 && 0x13000 <= (symbol[0] as u32) <= 0x13009
}

/// Whether a hieroglyphic symbol declares a quantum variable.
pub fn is_quantum_variable_symbol(symbol: &str) -> (r: bool)
    ensures
        r == is_quantum_variable_glyph(symbol@),
{
    if symbol.unicode_len() != 1 {
        return false;
    }
    let c = symbol.get_char(0);
    let v = c as u32;
    0x13000 <= v && v <= 0x13009
}

/// The parser's cursor over a token sequence that ends with an end-of-input token.
pub struct Parser {
    tokens: Vec<Token>,
    pos: usize,
}

impl Parser {
    /// The values of the tokens.
    pub closed spec fn toks(&self) -> Seq<TokenValue> {
        token_values(self.tokens@)
    }

    /// The position of the current token.
    pub closed spec fn position(&self) -> int {
        self.pos as int
    }

    /// The tokens end with an end-of-input token and the position is within them.
    pub closed spec fn wf(&self) -> bool {
        &&& self.tokens@.len() >= 1
        &&& self.toks()[self.toks().len() - 1].kind is EOF
        &&& self.pos < self.tokens@.len()
    }

    /// A parser at the first token; an end-of-input token is appended when the
    /// tokens do not end with one.
    pub fn new(tokens: Vec<Token>) -> (r: Parser)
        ensures
            r.wf(),
            r.position() == 0,
            r.toks() == (if tokens@.len() > 0 && token_values(tokens@)[tokens@.len() - 1].kind is EOF {
                token_values(tokens@)
            } else {
                token_values(tokens@).push(eof_value())
            }),
    {
        let ghost orig = tokens@;
        let mut tokens = tokens;
        let needs_eof = match tokens.last() {
            Some(t) => !(match t.kind {
                TokenKind::EOF => true,
                _ => false,
            }),
            None => true,
        };
        if needs_eof {
            tokens.push(Token { kind: TokenKind::EOF, lexeme: String::new(), line: 0, column: 0 });
            assert(token_values(tokens@) =~= token_values(orig).push(eof_value()));
        }
        Parser { tokens, pos: 0 }
    }

    /// Moves past the current token (unless the input has ended) and gives the
    /// token before the new position.
    fn advance(&mut self) -> (r: &Token)
        requires
            old(self).wf(),
        ensures
            final(self).wf(),
            final(self).toks() == old(self).toks(),
            final(self).position() == adv(old(self).toks(), old(self).position()),
            r@ == old(self).toks()[if final(self).position() == 0 { 0 } else { final(self).position() - 1 }],
    {
        if !self.is_at_end() {
            assert(self.tokens@.len() == self.tokens.len());
            self.pos = self.pos + 1;
        }
        self.previous()
    }

    /// The token before the position (the first token at the start).
    fn previous(&self) -> (r: &Token)
        requires
            self.wf(),
        ensures
            r@ == self.toks()[if self.position() == 0 { 0 } else { self.position() - 1 }],
    {
        if self.pos == 0 {
            &self.tokens[0]
        } else {
            &self.tokens[self.pos - 1]
        }
    }

    /// The token at the position.
    fn peek(&self) -> (r: &Token)
        requires
            self.wf(),
        ensures
            r@ == self.toks()[self.position()],
    {
        let last = self.tokens.len() - 1;
        let i = if self.pos < last { self.pos } else { last };
        &self.tokens[i]
    }

    /// Whether the current token is of a kind.
    fn check(&self, kind: &TokenKind) -> (r: bool)
        requires
            self.wf(),
        ensures
            r == check(self.toks(), self.position(), kind@),
    {
        !self.is_at_end() && self.peek().kind == *kind
    }

    /// Moves past the current token when it is of one of the kinds.
    fn match_token(&mut self, kinds: &[TokenKind]) -> (r: bool)
        requires
            old(self).wf(),
        ensures
            final(self).wf(),
            final(self).toks() == old(self).toks(),
            r == exists|i: int| 0 <= i < kinds@.len() && check(old(self).toks(), old(self).position(), #[trigger] kinds@[i]@),
            final(self).position() == (if r { adv(old(self).toks(), old(self).position()) } else { old(self).position() }),
    {
        let mut i: usize = 0;
        while i < kinds.len()
            invariant
                self.wf(),
                *self == *old(self),
                i <= kinds@.len(),
                forall|j: int| 0 <= j < i ==> !check(self.toks(), self.position(), #[trigger] kinds@[j]@),
            decreases kinds@.len() - i,
        {
            if self.check(&kinds[i]) {
                self.advance();
                return true;
            }
            i += 1;
        }
        false
    }

    /// Consumes a token of a kind, else the error `msg` at the current token.
    fn consume(&mut self, kind: TokenKind, msg: &str) -> (r: Result<&Token, ParserError>)
        requires
            old(self).wf(),
        ensures
            final(self).wf(),
            final(self).toks() == old(self).toks(),
            check(old(self).toks(), old(self).position(), kind@) ==> (r matches Ok(tok) && tok@ == old(self).toks()[old(
                self,
            ).position()] && final(self).position() == old(self).position() + 1),
            !check(old(self).toks(), old(self).position(), kind@) ==> (r matches Err(e) && parser_err_view(e) == err_here(
                old(self).toks(),
                old(self).position(),
                msg@,
            )),
    {
        if self.check(&kind) {
            Ok(self.advance())
        } else {
            Err(self.err_at(msg, self.peek().line, self.peek().column))
        }
    }

    /// Consumes a name, else the error `msg` at the current token.
    fn consume_identifier(&mut self, msg: &str) -> (r: Result<String, ParserError>)
        requires
            old(self).wf(),
        ensures
            final(self).wf(),
            final(self).toks() == old(self).toks(),
            match old(self).toks()[old(self).position()].kind {
                KindValue::Identifier(n) => r matches Ok(x) && x@ == n && final(self).position() == adv(
                    old(self).toks(),
                    old(self).position(),
                ),
                _ => r matches Err(e) && parser_err_view(e) == err_here(old(self).toks(), old(self).position(), msg@),
            },
    {
        match self.peek().kind.duplicate() {
            TokenKind::Identifier(name) => {
                self.advance();
                Ok(name)
            },
            _ => Err(self.err_at(msg, self.peek().line, self.peek().column)),
        }
    }

    /// Whether the input has ended.
    fn is_at_end(&self) -> (r: bool)
        requires
            self.wf(),
        ensures
            r == at_end(self.toks(), self.position()),
    {
        match &self.peek().kind {
            TokenKind::EOF => true,
            _ => false,
        }
    }

    /// The error `msg` at the current token.
    fn err_here(&self, msg: &str) -> (r: ParserError)
        requires
            self.wf(),
        ensures
            parser_err_view(r) == err_here(self.toks(), self.position(), msg@),
    {
        self.err_at(msg, self.peek().line, self.peek().column)
    }

    /// An error at a position.
    fn err_at(&self, msg: &str, line: usize, column: usize) -> (r: ParserError)
        ensures
            r.message@ == msg@,
            r.line == line,
            r.column == column,
    {
        ParserError { message: owned(msg), line, column }
    }

    /// Skips a type annotation, stopping before `=` or `;` at nesting 0.
    fn skip_param_type_annotation_until_equals(&mut self)
        requires
            old(self).wf(),
        ensures
            final(self).wf(),
            final(self).toks() == old(self).toks(),
            final(self).position() == skip_until_equals(old(self).toks(), old(self).position(), 0),
    {
        let ghost t = self.toks();
        let ghost p0 = self.position();
        let mut depth: usize = 0;
        let mut done = false;
        while !done && !self.is_at_end()
            invariant
                self.wf(),
                self.toks() == t,
                depth <= self.pos,
                skip_until_equals(t, p0, 0) == (if done { self.position() } else { skip_until_equals(t, self.position(), depth as nat) }),
            decreases t.len() - self.position(), if done { 0int } else { 1int },
        {
            match &self.peek().kind {
                TokenKind::Equals if depth == 0 => {
                    done = true;
                },
                TokenKind::Semicolon if depth == 0 => {
                    done = true;
                },
                TokenKind::LessThan => {
                    assert(self.tokens@.len() == self.tokens.len());
                    depth += 1;
                    self.advance();
                },
                TokenKind::GreaterThan if depth > 0 => {
                    depth -= 1;
                    self.advance();
                },
                _ => {
                    self.advance();
                },
            }
        }
    }

    /// Skips a parameter's `: Type`, when there is one, stopping before `,` or `)` at
    /// nesting 0.
    fn skip_param_type_annotation(&mut self)
        requires
            old(self).wf(),
        ensures
            final(self).wf(),
            final(self).toks() == old(self).toks(),
            final(self).position() == (if check(old(self).toks(), old(self).position(), KindValue::Colon) {
                skip_param_type(old(self).toks(), adv(old(self).toks(), old(self).position()), 0)
            } else {
                old(self).position()
            }),
    {
        let ghost k = TokenKind::Colon;
        let kinds = [TokenKind::Colon];
        assert(kinds@[0]@ == KindValue::Colon);
        let colon = self.match_token(&kinds);
        proof {
            if colon {
                let i = choose|i: int| 0 <= i < kinds@.len() && check(old(self).toks(), old(self).position(), #[trigger] kinds@[i]@);
                assert(i == 0);
            } else {
                assert(!check(old(self).toks(), old(self).position(), kinds@[0]@));
            }
        }
        if colon {
            let ghost t = self.toks();
            let ghost p0 = self.position();
            let mut depth: usize = 0;
            let mut done = false;
            while !done && !self.is_at_end()
                invariant
                    self.wf(),
                    self.toks() == t,
                    depth <= self.pos,
                    skip_param_type(t, p0, 0) == (if done { self.position() } else { skip_param_type(t, self.position(), depth as nat) }),
                decreases t.len() - self.position(), if done { 0int } else { 1int },
            {
                match &self.peek().kind {
                    TokenKind::Comma if depth == 0 => {
                        done = true;
                    },
                    TokenKind::CloseParen if depth == 0 => {
                        done = true;
                    },
                    TokenKind::LessThan => {
                        assert(self.tokens@.len() == self.tokens.len());
                        depth += 1;
                        self.advance();
                    },
                    TokenKind::GreaterThan if depth > 0 => {
                        depth -= 1;
                        self.advance();
                    },
                    _ => {
                        self.advance();
                    },
                }
            }
        }
    }

    /// Skips a field's type; consumes a `=` found at nesting 0 and tells whether it
    /// did (a default value follows); stops before `;` or `}` at nesting 0, or at the
    /// end.
    fn skip_until_equals_or_semi(&mut self) -> (r: bool)
        requires
            old(self).wf(),
        ensures
            final(self).wf(),
            final(self).toks() == old(self).toks(),
            (r, final(self).position()) == skip_field_type(old(self).toks(), old(self).position(), 0),
    {
        let ghost t = self.toks();
        let ghost p0 = self.position();
        let mut depth: usize = 0;
        loop
            invariant
                self.wf(),
                self.toks() == t,
                t == old(self).toks(),
                p0 == old(self).position(),
                depth <= self.pos,
                skip_field_type(t, p0, 0) == skip_field_type(t, self.position(), depth as nat),
            decreases t.len() - self.position(),
        {
            match &self.peek().kind {
                TokenKind::Equals if depth == 0 => {
                    self.advance();
                    return true;
                },
                TokenKind::Semicolon if depth == 0 => {
                    return false;
                },
                TokenKind::CloseBrace if depth == 0 => {
                    return false;
                },
                TokenKind::LessThan => {
                    assert(self.tokens@.len() == self.tokens.len());
                    depth += 1;
                    self.advance();
                },
                TokenKind::GreaterThan if depth > 0 => {
                    depth -= 1;
                    self.advance();
                },
                TokenKind::EOF => {
                    return false;
                },
                _ => {
                    self.advance();
                },
            }
        }
    }

    /// Skips a return type, stopping before `{` at nesting 0.
    fn skip_type_annotation(&mut self)
        requires
            old(self).wf(),
        ensures
            final(self).wf(),
            final(self).toks() == old(self).toks(),
            final(self).position() == skip_return_type(old(self).toks(), old(self).position(), 0),
    {
        let ghost t = self.toks();
        let ghost p0 = self.position();
        let mut depth: usize = 0;
        let mut done = false;
        while !done && !self.is_at_end()
            invariant
                self.wf(),
                self.toks() == t,
                depth <= self.pos,
                skip_return_type(t, p0, 0) == (if done { self.position() } else { skip_return_type(t, self.position(), depth as nat) }),
            decreases t.len() - self.position(), if done { 0int } else { 1int },
        {
            match &self.peek().kind {
                TokenKind::OpenBrace if depth == 0 => {
                    done = true;
                },
                TokenKind::LessThan => {
                    assert(self.tokens@.len() == self.tokens.len());
                    depth += 1;
                    self.advance();
                },
                TokenKind::GreaterThan if depth > 0 => {
                    depth -= 1;
                    self.advance();
                },
                _ => {
                    self.advance();
                },
            }
        }
    }

    /// Reads a type name (see `type_text_at`).
    fn consume_type_name(&mut self) -> (r: String)
        requires
            old(self).wf(),
        ensures
            final(self).wf(),
            final(self).toks() == old(self).toks(),
            (r@, final(self).position()) == type_text_at(old(self).toks(), old(self).position()),
        decreases old(self).toks().len() - old(self).position(),
    {
        proof {
            reveal_strlit("&");
        }
        let mut ty = match self.peek().kind.duplicate() {
            TokenKind::Identifier(name) => {
                self.advance();
                name
            },
            TokenKind::Ampersand => {
                self.advance();
                assert(self.tokens@.len() == self.tokens.len());
                let inner = self.consume_type_name();
                return concat("&", inner.as_str());
            },
            _ => {
                return owned("Any");
            },
        };
        if self.check(&TokenKind::LessThan) {
            self.advance();
            let mut depth: usize = 1;
            push_char(&mut ty, '<');
            let ghost t = self.toks();
            let ghost p1 = self.position();
            let ghost text0 = ty@;
            while !self.is_at_end() && depth > 0
                invariant
                    self.wf(),
                    self.toks() == t,
                    depth <= self.pos + 1,
                    generic_args(t, p1, 1, text0) == generic_args(t, self.position(), depth as nat, ty@),
                decreases t.len() - self.position(),
            {
                let tok = self.advance();
                match &tok.kind {
                    TokenKind::LessThan => {
                        assert(self.tokens@.len() == self.tokens.len());
                        depth += 1;
                        push_char(&mut ty, '<');
                    },
                    TokenKind::GreaterThan => {
                        depth -= 1;
                        push_char(&mut ty, '>');
                    },
                    TokenKind::Identifier(n) => {
                        ty.append(n.as_str());
                    },
                    TokenKind::Comma => {
                        ty.append(", ");
                    },
                    _ => {},
                }
            }
        }
        ty
    }
}

} // verus!
