//! Quantum-aware diagnostics: titles, suggestions and source excerpts.

use vstd::prelude::*;
use crate::lexer_spec::{run_end, lemma_run_end, other_than};
use crate::text::{chars_of, contains_str, spec_contains, string_from_chars, owned, repeat_char, decimal_text, push_decimal};

verus! {

/// Where a diagnostic points: line, column and the length to underline.
#[derive(Debug)]
pub struct Span {
    pub line: usize,
    pub col: usize,
    pub len: usize,
}

impl Span {
    /// A span one character long.
    pub fn single(line: usize, col: usize) -> (r: Span)
        ensures
            r == (Span { line, col, len: 1 }),
    {
        Span { line, col, len: 1 }
    }
}

impl Clone for Span {
    fn clone(&self) -> (r: Span)
        ensures
            r == *self,
    {
        Span { line: self.line, col: self.col, len: self.len }
    }
}

/// A diagnostic with optional suggestion, help and quantum context.
#[derive(Debug)]
pub struct QuantumDiagnostic {
    pub title: String,
    pub span: Span,
    pub suggestion: Option<String>,
    pub help: Option<String>,
    pub quantum_context: Option<String>,
}

/// The optional texts of a diagnostic as character sequences.
pub open spec fn opt_text(o: Option<String>) -> Option<Seq<char>> {
    match o {
        Some(s) => Some(s@),
        None => None,
    }
}

impl QuantumDiagnostic {
    pub fn new(title: String, span: Span) -> (r: QuantumDiagnostic)
        ensures
            r.title == title,
            r.span == span,
            r.suggestion is None,
            r.help is None,
            r.quantum_context is None,
    {
        QuantumDiagnostic { title, span, suggestion: None, help: None, quantum_context: None }
    }

    pub fn with_suggestion(self, suggestion: String) -> (r: QuantumDiagnostic)
        ensures
            r == (QuantumDiagnostic { suggestion: Some(suggestion), ..self }),
    {
        let mut d = self;
        d.suggestion = Some(suggestion);
        d
    }

    pub fn with_help(self, help: String) -> (r: QuantumDiagnostic)
        ensures
            r == (QuantumDiagnostic { help: Some(help), ..self }),
    {
        let mut d = self;
        d.help = Some(help);
        d
    }

    pub fn with_quantum_context(self, context: String) -> (r: QuantumDiagnostic)
        ensures
            r == (QuantumDiagnostic { quantum_context: Some(context), ..self }),
    {
        let mut d = self;
        d.quantum_context = Some(context);
        d
    }
}

/// The advice attached to a syntax error, chosen by the first phrase its message contains:
/// (suggestion, help, quantum context).
pub open spec fn syntax_advice(m: Seq<char>) -> (Option<Seq<char>>, Option<Seq<char>>, Option<Seq<char>>) {
    if spec_contains(m, "Expected quantum binding operator"@) {
        (Some("Use ← for classical binding, ∈ for superposition, ⊗ for tensor, or ≈ for approximation"@),
         Some("Quantum variables use different binding operators than classical languages"@),
         Some("⟨variable⟩ ← value (classical) or ⟨variable⟩ ∈ |0⟩ + |1⟩ (superposition)"@))
    } else if spec_contains(m, "Expected '⟨'"@) {
        (Some("Quantum variables are declared with ⟨name⟩"@),
         Some("AEONMI uses quantum brackets ⟨⟩ instead of traditional syntax"@),
         None)
    } else if spec_contains(m, "quantum state"@) {
        (Some("Quantum states use |state⟩ notation, like |0⟩, |1⟩, |+⟩, |-⟩"@),
         None,
         Some("Common states: |0⟩ (zero), |1⟩ (one), |+⟩ (plus), |-⟩ (minus)"@))
    } else if spec_contains(m, "function"@) {
        (Some("Use ◯ for classical functions, ⊙ for quantum functions, 🧠 for AI functions"@),
         Some("AEONMI distinguishes function types with unique symbols"@),
         None)
    } else if spec_contains(m, "probability"@) {
        (Some("Use ⊖ condition ≈ 0.7 ⇒ { ... } for probability-based branching"@),
         None,
         Some("Probability values should be between 0.0 and 1.0"@))
    } else {
        (None, None, None)
    }
}

/// A syntax error diagnostic with advice matching its message.
pub fn quantum_syntax_error(message: &str, span: Span) -> (r: QuantumDiagnostic)
    ensures
        r.title@ == message@,
        r.span == span,
        (opt_text(r.suggestion), opt_text(r.help), opt_text(r.quantum_context)) == syntax_advice(message@),
{
    let diag = QuantumDiagnostic::new(owned(message), span);
    if contains_str(message, "Expected quantum binding operator") {
        diag.with_suggestion(owned("Use ← for classical binding, ∈ for superposition, ⊗ for tensor, or ≈ for approximation"))
            .with_help(owned("Quantum variables use different binding operators than classical languages"))
            .with_quantum_context(owned("⟨variable⟩ ← value (classical) or ⟨variable⟩ ∈ |0⟩ + |1⟩ (superposition)"))
    } else if contains_str(message, "Expected '⟨'") {
        diag.with_suggestion(owned("Quantum variables are declared with ⟨name⟩"))
            .with_help(owned("AEONMI uses quantum brackets ⟨⟩ instead of traditional syntax"))
    } else if contains_str(message, "quantum state") {
        diag.with_suggestion(owned("Quantum states use |state⟩ notation, like |0⟩, |1⟩, |+⟩, |-⟩"))
            .with_quantum_context(owned("Common states: |0⟩ (zero), |1⟩ (one), |+⟩ (plus), |-⟩ (minus)"))
    } else if contains_str(message, "function") {
        diag.with_suggestion(owned("Use ◯ for classical functions, ⊙ for quantum functions, 🧠 for AI functions"))
            .with_help(owned("AEONMI distinguishes function types with unique symbols"))
    } else if contains_str(message, "probability") {
        diag.with_suggestion(owned("Use ⊖ condition ≈ 0.7 ⇒ { ... } for probability-based branching"))
            .with_quantum_context(owned("Probability values should be between 0.0 and 1.0"))
    } else {
        diag
    }
}

/// Title, suggestion and help for a legacy keyword.
pub open spec fn legacy_texts(k: Seq<char>) -> (Seq<char>, Seq<char>, Seq<char>) {
    if k == "let"@ {
        ("Legacy 'let' keyword detected"@, "Use quantum variable declaration: ⟨variable⟩ ← value"@,
         "AEONMI uses quantum-native syntax. Traditional 'let' is deprecated."@)
    } else if k == "function"@ {
        ("Legacy 'function' keyword detected"@,
         "Use ◯ name⟨params⟩ for classical functions or ⊙ name⟨params⟩ for quantum functions"@,
         "AEONMI distinguishes between classical (◯) and quantum (⊙) functions"@)
    } else if k == "if"@ {
        ("Legacy 'if' statement detected"@, "Use ⊖ condition ⇒ { ... } for probability-based branching"@,
         "AEONMI supports quantum probability-aware control flow"@)
    } else if k == "while"@ {
        ("Legacy 'while' loop detected"@, "Use ⟲ condition ⇒ { ... } for quantum loops with decoherence awareness"@,
         "Quantum loops can include decoherence thresholds"@)
    } else {
        ("Legacy syntax detected"@, "Migrate to AEONMI quantum-native syntax"@,
         "AEONMI provides quantum-first programming constructs"@)
    }
}

fn str_is(s: &str, lit: &str) -> (r: bool)
    ensures
        r == (s@ == lit@),
{
    let a = chars_of(s);
    let b = chars_of(lit);
    if a.len() != b.len() {
        return false;
    }
    let n = a.len();
    let mut i: usize = 0;
    while i < n
        invariant
            a@ == s@,
            b@ == lit@,
            n == a@.len(),
            n == b@.len(),
            i <= n,
            forall|k: int| 0 <= k < i ==> a@[k] == b@[k],
        decreases n - i,
    {
        if a[i] != b[i] {
            return false;
        }
        i += 1;
    }
    assert(a@ =~= b@);
    true
}

/// A diagnostic for legacy syntax, with migration advice.
pub fn legacy_syntax_error(legacy_syntax: &str, span: Span) -> (r: QuantumDiagnostic)
    ensures
        (r.title@, r.suggestion->0@, r.help->0@) == legacy_texts(legacy_syntax@),
        r.suggestion is Some,
        r.help is Some,
        r.span == span,
        r.quantum_context matches Some(c) && c@ == "See docs/AEONMI_UNIQUE_SYNTAX.md for migration guide"@,
{
    let (title, suggestion, help) = if str_is(legacy_syntax, "let") {
        ("Legacy 'let' keyword detected", "Use quantum variable declaration: ⟨variable⟩ ← value",
         "AEONMI uses quantum-native syntax. Traditional 'let' is deprecated.")
    } else if str_is(legacy_syntax, "function") {
        ("Legacy 'function' keyword detected",
         "Use ◯ name⟨params⟩ for classical functions or ⊙ name⟨params⟩ for quantum functions",
         "AEONMI distinguishes between classical (◯) and quantum (⊙) functions")
    } else if str_is(legacy_syntax, "if") {
        ("Legacy 'if' statement detected", "Use ⊖ condition ⇒ { ... } for probability-based branching",
         "AEONMI supports quantum probability-aware control flow")
    } else if str_is(legacy_syntax, "while") {
        ("Legacy 'while' loop detected", "Use ⟲ condition ⇒ { ... } for quantum loops with decoherence awareness",
         "Quantum loops can include decoherence thresholds")
    } else {
        ("Legacy syntax detected", "Migrate to AEONMI quantum-native syntax",
         "AEONMI provides quantum-first programming constructs")
    };
    QuantumDiagnostic::new(owned(title), span)
        .with_suggestion(owned(suggestion))
        .with_help(owned(help))
        .with_quantum_context(owned("See docs/AEONMI_UNIQUE_SYNTAX.md for migration guide"))
}

/// A line without the carriage return that ended it with the line feed.
pub open spec fn strip_cr(l: Seq<char>) -> Seq<char> {
    if l.len() > 0 && l.last() == '\r' {
        l.drop_last()
    } else {
        l
    }
}

/// The lines of `s[i..]` as `str::lines` yields them: split at line feeds, a carriage
/// return before a line feed dropped, no empty line after a final line feed.
pub open spec fn lines_from(s: Seq<char>, i: int) -> Seq<Seq<char>>
    decreases s.len() - i,
{
    if i < 0 || i >= s.len() {
        Seq::empty()
    } else {
        let e = run_end(s, i, other_than('\n'));
        if e >= s.len() || e < i {
            seq![s.subrange(i, s.len() as int)]
        } else {
            seq![strip_cr(s.subrange(i, e))] + lines_from(s, e + 1)
        }
    }
}

/// The `n`-th line of `src` (counting from 1; 0 is read as 1).
pub fn nth_line(src: &str, n: usize) -> (r: Option<String>)
    ensures
        ({
            let ls = lines_from(src@, 0);
            let k = if n == 0 { 0 } else { n - 1 };
            match r {
                Some(t) => k < ls.len() && t@ == ls[k],
                None => k >= ls.len(),
            }
        }),
{
    let s = chars_of(src);
    let k: usize = if n == 0 { 0 } else { n - 1 };
    let len = s.len();
    let mut i: usize = 0;
    let mut idx: usize = 0;
    while i < len
        invariant
            s@ == src@,
            len == s@.len(),
            k == (if n == 0 { 0 } else { n - 1 }),
            i <= len,
            idx <= k,
            lines_from(s@, 0).len() == idx + lines_from(s@, i as int).len(),
            forall|j: int| 0 <= j < lines_from(s@, i as int).len() ==> lines_from(s@, 0)[idx + j] == #[trigger] lines_from(s@, i as int)[j],
        decreases len - i,
    {
        let ghost si = i as int;
        let mut e = i;
        while e < len && s[e] != '\n'
            invariant
                len == s@.len(),
                si <= e <= len,
                run_end(s@, si, other_than('\n')) == run_end(s@, e as int, other_than('\n')),
            decreases len - e,
        {
            e += 1;
        }
        proof {
            lemma_run_end(s@, si, other_than('\n'));
            if e < len {
                assert(!other_than('\n')(s@[e as int]));
            }
            assert(run_end(s@, e as int, other_than('\n')) == e);
            let ls_i = lines_from(s@, si);
            if e < len {
                assert(ls_i == seq![strip_cr(s@.subrange(si, e as int))] + lines_from(s@, e + 1));
            } else {
                assert(ls_i == seq![s@.subrange(si, len as int)]);
            }
        }
        let mut stop = e;
        if e < len && e > i && s[e - 1] == '\r' {
            stop = e - 1;
        }
        if idx == k {
            let mut line: Vec<char> = Vec::new();
            let mut j = i;
            while j < stop
                invariant
                    i <= j <= stop,
                    stop <= len,
                    len == s@.len(),
                    line@ == s@.subrange(i as int, j as int),
                decreases stop - j,
            {
                line.push(s[j]);
                j += 1;
                assert(line@ =~= s@.subrange(i as int, j as int));
            }
            proof {
                if e < len {
                    assert(strip_cr(s@.subrange(i as int, e as int)) =~= s@.subrange(i as int, stop as int));
                }
                let ls_i = lines_from(s@, i as int);
                if e < len {
                    assert(ls_i == seq![strip_cr(s@.subrange(i as int, e as int))] + lines_from(s@, e + 1));
                    assert(ls_i[0] == strip_cr(s@.subrange(i as int, e as int)));
                } else {
                    assert(ls_i == seq![s@.subrange(i as int, len as int)]);
                    assert(stop == len);
                }
                assert(line@ == ls_i[0]);
                assert(lines_from(s@, 0)[idx + 0] == lines_from(s@, i as int)[0]);
            }
            return Some(string_from_chars(line.as_slice()));
        }
        let ghost old_i = i as int;
        let ghost old_idx = idx as int;
        idx = idx + 1;
        if e >= len {
            i = len;
        } else {
            i = e + 1;
        }
        proof {
            let ls_old = lines_from(s@, old_i);
            let ls_new = lines_from(s@, i as int);
            if e < len {
                assert(ls_old == seq![strip_cr(s@.subrange(old_i, e as int))] + ls_new);
            } else {
                assert(ls_old == seq![s@.subrange(old_i, len as int)]);
                assert(ls_new.len() == 0);
            }
            assert forall|j: int| 0 <= j < ls_new.len() implies lines_from(s@, 0)[idx + j] == #[trigger] ls_new[j] by {
                assert(ls_new[j] == ls_old[j + 1]);
                assert(lines_from(s@, 0)[old_idx + (j + 1)] == ls_old[j + 1]);
            }
        }
    }
    None
}

/// The underline under a diagnostic: `col - 1` spaces (none when `col` is 0), then
/// `max(len, 1)` carets.
pub fn underline(col: usize, len: usize) -> (r: String)
    requires
        col < usize::MAX,
        len < usize::MAX,
    ensures
        r@ == repeat_char(' ', (if col == 0 { 0 } else { col - 1 }) as nat)
            + repeat_char('^', (if len == 0 { 1 } else { len }) as nat),
{
    let spaces: usize = if col == 0 { 0 } else { col - 1 };
    let carets: usize = if len == 0 { 1 } else { len };
    let mut out: Vec<char> = Vec::new();
    let mut i: usize = 0;
    while i < spaces
        invariant
            i <= spaces,
            out@ == repeat_char(' ', i as nat),
        decreases spaces - i,
    {
        out.push(' ');
        i += 1;
        assert(out@ =~= repeat_char(' ', i as nat));
    }
    let ghost head = out@;
    let mut j: usize = 0;
    while j < carets
        invariant
            j <= carets,
            out@ == head + repeat_char('^', j as nat),
        decreases carets - j,
    {
        out.push('^');
        j += 1;
        assert(out@ =~= head + repeat_char('^', j as nat));
    }
    string_from_chars(out.as_slice())
}

/// Where a diagnostic points, as its location line shows it: `file:line:column`.
pub fn location_text(filename: &str, line: usize, col: usize) -> (r: String)
    ensures
        r@ == filename@ + ":"@ + decimal_text(line as nat) + ":"@ + decimal_text(col as nat),
{
    let mut out: Vec<char> = Vec::new();
    crate::text::push_str_chars(&mut out, filename);
    out.push(':');
    push_decimal(line as u64, &mut out);
    out.push(':');
    push_decimal(col as u64, &mut out);
    proof {
        reveal_strlit(":");
    }
    assert(out@ =~= filename@ + ":"@ + decimal_text(line as nat) + ":"@ + decimal_text(col as nat));
    string_from_chars(out.as_slice())
}

/// The line-number gutter: the number right-aligned in four columns.
pub fn gutter(line: usize) -> (r: String)
    ensures
        r@ == repeat_char(' ', (if decimal_text(line as nat).len() < 4 { 4 - decimal_text(line as nat).len() } else { 0 }) as nat)
            + decimal_text(line as nat),
{
    let mut digits: Vec<char> = Vec::new();
    push_decimal(line as u64, &mut digits);
    assert(digits@ =~= decimal_text(line as nat));
    let pad: usize = if digits.len() < 4 { 4 - digits.len() } else { 0 };
    let mut out: Vec<char> = Vec::new();
    let mut i: usize = 0;
    while i < pad
        invariant
            i <= pad,
            out@ == repeat_char(' ', i as nat),
        decreases pad - i,
    {
        out.push(' ');
        i += 1;
        assert(out@ =~= repeat_char(' ', i as nat));
    }
    out.append(&mut digits);
    string_from_chars(out.as_slice())
}

/// A diagnostic as the machine-readable record written for tools: severity,
/// message, file and place.
#[derive(Debug)]
pub struct JsonDiagnostic<'a> {
    pub severity: &'a str,
    pub message: &'a str,
    pub file: &'a str,
    pub line: usize,
    pub col: usize,
    pub len: usize,
}

impl<'a> JsonDiagnostic<'a> {
    /// The record of an error titled `title` at `span` of `file`.
    pub fn error(file: &'a str, title: &'a str, span: &Span) -> (r: JsonDiagnostic<'a>)
        ensures
            r.severity@ == "error"@,
            r.message == title,
            r.file == file,
            r.line == span.line,
            r.col == span.col,
            r.len == span.len,
    {
        JsonDiagnostic { severity: "error", message: title, file, line: span.line, col: span.col, len: span.len }
    }
}

} // verus!
