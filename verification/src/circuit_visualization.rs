//! Settings of circuit diagrams, and how each kind of gate is drawn on the
//! lines of a text diagram.

use vstd::prelude::*;
use vstd::utf8::{decode_utf8, encode_utf8, is_char_boundary};
use vstd::string::StringSliceAdditionalSpecFns;
use crate::circuit_builder::QubitId;
use crate::text::{concat, owned, repeat_str, repeat_text, same_text};

verus! {

/// What a circuit diagram shows and how it is drawn.
#[derive(Debug)]
pub struct VisualizationConfig {
    pub show_measurements: bool,
    pub show_parameters: bool,
    pub show_qubit_labels: bool,
    pub ascii_style: AsciiStyle,
    pub max_width: usize,
}

/// The characters a text diagram is drawn with.
#[derive(Debug, PartialEq, Eq, Structural, Clone, Copy)]
pub enum AsciiStyle {
    /// Plain ASCII.
    Simple,
    /// Unicode box drawing.
    Unicode,
    /// Minimal spacing.
    Compact,
}

impl Default for VisualizationConfig {
    /// Everything shown, drawn in Unicode, 80 columns wide.
    fn default() -> (r: VisualizationConfig)
        ensures
            r == (VisualizationConfig {
                show_measurements: true,
                show_parameters: true,
                show_qubit_labels: true,
                ascii_style: AsciiStyle::Unicode,
                max_width: 80,
            }),
    {
        VisualizationConfig {
            show_measurements: true,
            show_parameters: true,
            show_qubit_labels: true,
            ascii_style: AsciiStyle::Unicode,
            max_width: 80,
        }
    }
}

/// Draws circuits with a configuration.
pub struct CircuitVisualizer {
    config: VisualizationConfig,
}

impl CircuitVisualizer {
    pub fn new(config: VisualizationConfig) -> (r: CircuitVisualizer)
        ensures
            r.config() == config,
    {
        CircuitVisualizer { config }
    }

    /// A visualizer with the default configuration.
    pub fn default() -> (r: CircuitVisualizer)
        ensures
            r.config() == (VisualizationConfig {
                show_measurements: true,
                show_parameters: true,
                show_qubit_labels: true,
                ascii_style: AsciiStyle::Unicode,
                max_width: 80,
            }),
    {
        CircuitVisualizer::new(VisualizationConfig::default())
    }

    /// The configuration it draws with.
    pub closed spec fn config(&self) -> VisualizationConfig {
        self.config
    }

    /// The configuration it draws with.
    pub fn get_config(&self) -> (r: &VisualizationConfig)
        ensures
            *r == self.config(),
    {
        &self.config
    }

    /// The character that draws a wire.
    pub fn horizontal_char(&self) -> (r: String)
        ensures
            r@ == wire_char(self.config().ascii_style),
    {
        match self.config.ascii_style {
            AsciiStyle::Simple => owned("-"),
            AsciiStyle::Unicode => owned("\u{2500}"),
            AsciiStyle::Compact => owned("-"),
        }
    }

    /// A separator line of the wire character, `width` long.
    pub fn horizontal_line(&self, width: usize) -> (r: String)
        requires
            width < usize::MAX,
        ensures
            r@ == repeat_text(wire_char(self.config().ascii_style), width as nat),
    {
        let c = self.horizontal_char();
        proof {
            reveal_strlit("-");
            reveal_strlit("\u{2500}");
        }
        repeat_str(c.as_str(), width)
    }

    /// Draws a CNOT (control, then target) across the lines; anything but two
    /// qubits leaves them as they are.
    pub fn add_cnot_to_diagram(&self, lines: &mut Vec<String>, qubit_indices: &[usize])
        ensures
            qubit_indices@.len() != 2 ==> final(lines)@ == old(lines)@,
            qubit_indices@.len() == 2 ==> appended(
                old(lines)@,
                final(lines)@,
                |i: int| controlled_segment(self.config().ascii_style, i, qubit_indices@[0] as int, qubit_indices@[1] as int, "\u{2500}\u{2500}\u{2295}\u{2500}\u{2500}"@),
            ),
    {
        if qubit_indices.len() != 2 {
            return;
        }
        let target = owned("\u{2500}\u{2500}\u{2295}\u{2500}\u{2500}");
        self.add_controlled_segments(lines, qubit_indices[0], qubit_indices[1], &target);
    }

    /// Draws a controlled gate whose target shows `gate_symbol`; anything but two
    /// qubits leaves the lines as they are.
    pub fn add_controlled_gate_to_diagram(&self, lines: &mut Vec<String>, qubit_indices: &[usize], gate_symbol: &str)
        ensures
            qubit_indices@.len() != 2 ==> final(lines)@ == old(lines)@,
            qubit_indices@.len() == 2 ==> appended(
                old(lines)@,
                final(lines)@,
                |i: int| controlled_segment(self.config().ascii_style, i, qubit_indices@[0] as int, qubit_indices@[1] as int, "\u{2500}\u{2500}"@ + gate_symbol@ + "\u{2500}\u{2500}"@),
            ),
    {
        if qubit_indices.len() != 2 {
            return;
        }
        let a = concat("\u{2500}\u{2500}", gate_symbol);
        let target = concat(a.as_str(), "\u{2500}\u{2500}");
        self.add_controlled_segments(lines, qubit_indices[0], qubit_indices[1], &target);
    }

    fn add_controlled_segments(&self, lines: &mut Vec<String>, control: usize, target: usize, target_seg: &String)
        ensures
            appended(
                old(lines)@,
                final(lines)@,
                |i: int| controlled_segment(self.config().ascii_style, i, control as int, target as int, target_seg@),
            ),
    {
        let lo = if control < target { control } else { target };
        let hi = if control < target { target } else { control };
        let wire = self.horizontal_char();
        let mut out: Vec<String> = Vec::new();
        let mut i: usize = 0;
        while i < lines.len()
            invariant
                i <= lines@.len(),
                out@.len() == i,
                wire@ == wire_char(self.config().ascii_style),
                lo == (if control < target { control } else { target }),
                hi == (if control < target { target } else { control }),
                forall|j: int|
                    0 <= j < i ==> #[trigger] out@[j]@ == lines@[j]@ + controlled_segment(
                        self.config().ascii_style,
                        j,
                        control as int,
                        target as int,
                        target_seg@,
                    ),
            decreases lines@.len() - i,
        {
            let seg = if i == control {
                owned("\u{2500}\u{2500}\u{25cf}\u{2500}\u{2500}")
            } else if i == target {
                owned(target_seg.as_str())
            } else if lo < i && i < hi {
                owned("\u{2500}\u{2500}\u{2502}\u{2500}\u{2500}")
            } else {
                let a = concat("\u{2500}\u{2500}", wire.as_str());
                concat(a.as_str(), "\u{2500}\u{2500}")
            };
            out.push(concat(lines[i].as_str(), seg.as_str()));
            i += 1;
        }
        *lines = out;
    }

    /// Draws a Toffoli gate (two controls, then the target); anything but three
    /// qubits leaves the lines as they are.
    pub fn add_toffoli_to_diagram(&self, lines: &mut Vec<String>, qubit_indices: &[usize])
        ensures
            qubit_indices@.len() != 3 ==> final(lines)@ == old(lines)@,
            qubit_indices@.len() == 3 ==> appended(
                old(lines)@,
                final(lines)@,
                |i: int| toffoli_segment(self.config().ascii_style, i, qubit_indices@),
            ),
    {
        if qubit_indices.len() != 3 {
            return;
        }
        let c1 = qubit_indices[0];
        let c2 = qubit_indices[1];
        let t = qubit_indices[2];
        let lo = if c1 <= c2 && c1 <= t { c1 } else if c2 <= t { c2 } else { t };
        let hi = if c1 >= c2 && c1 >= t { c1 } else if c2 >= t { c2 } else { t };
        let wire = self.horizontal_char();
        let mut out: Vec<String> = Vec::new();
        let mut i: usize = 0;
        while i < lines.len()
            invariant
                i <= lines@.len(),
                out@.len() == i,
                qubit_indices@.len() == 3,
                c1 == qubit_indices@[0],
                c2 == qubit_indices@[1],
                t == qubit_indices@[2],
                lo == min3(c1 as int, c2 as int, t as int),
                hi == max3(c1 as int, c2 as int, t as int),
                wire@ == wire_char(self.config().ascii_style),
                forall|j: int|
                    0 <= j < i ==> #[trigger] out@[j]@ == lines@[j]@ + toffoli_segment(
                        self.config().ascii_style,
                        j,
                        qubit_indices@,
                    ),
            decreases lines@.len() - i,
        {
            let seg = if i == c1 || i == c2 {
                owned("\u{2500}\u{2500}\u{25cf}\u{2500}\u{2500}")
            } else if i == t {
                owned("\u{2500}\u{2500}\u{2295}\u{2500}\u{2500}")
            } else if lo < i && i < hi {
                owned("\u{2500}\u{2500}\u{2502}\u{2500}\u{2500}")
            } else {
                let a = concat("\u{2500}\u{2500}", wire.as_str());
                concat(a.as_str(), "\u{2500}\u{2500}")
            };
            out.push(concat(lines[i].as_str(), seg.as_str()));
            i += 1;
        }
        *lines = out;
    }

    /// Draws a SWAP; anything but two qubits leaves the lines as they are.
    pub fn add_swap_to_diagram(&self, lines: &mut Vec<String>, qubit_indices: &[usize])
        ensures
            qubit_indices@.len() != 2 ==> final(lines)@ == old(lines)@,
            qubit_indices@.len() == 2 ==> appended(
                old(lines)@,
                final(lines)@,
                |i: int| swap_segment(self.config().ascii_style, i, qubit_indices@[0] as int, qubit_indices@[1] as int),
            ),
    {
        if qubit_indices.len() != 2 {
            return;
        }
        let q1 = qubit_indices[0];
        let q2 = qubit_indices[1];
        let lo = if q1 < q2 { q1 } else { q2 };
        let hi = if q1 < q2 { q2 } else { q1 };
        let wire = self.horizontal_char();
        let mut out: Vec<String> = Vec::new();
        let mut i: usize = 0;
        while i < lines.len()
            invariant
                i <= lines@.len(),
                out@.len() == i,
                lo == (if q1 < q2 { q1 } else { q2 }),
                hi == (if q1 < q2 { q2 } else { q1 }),
                wire@ == wire_char(self.config().ascii_style),
                forall|j: int|
                    0 <= j < i ==> #[trigger] out@[j]@ == lines@[j]@ + swap_segment(
                        self.config().ascii_style,
                        j,
                        q1 as int,
                        q2 as int,
                    ),
            decreases lines@.len() - i,
        {
            let seg = if i == q1 || i == q2 {
                owned("\u{2500}\u{2500}\u{00d7}\u{2500}\u{2500}")
            } else if lo < i && i < hi {
                owned("\u{2500}\u{2500}\u{2502}\u{2500}\u{2500}")
            } else {
                let a = concat("\u{2500}\u{2500}", wire.as_str());
                concat(a.as_str(), "\u{2500}\u{2500}")
            };
            out.push(concat(lines[i].as_str(), seg.as_str()));
            i += 1;
        }
        *lines = out;
    }

    /// Draws a measurement box on the measured lines and a wire on the others.
    pub fn add_measurement_to_diagram(&self, lines: &mut Vec<String>, qubit_indices: &[usize])
        ensures
            appended(
                old(lines)@,
                final(lines)@,
                |i: int| measure_segment(self.config(), qubit_indices@.contains(i as usize)),
            ),
    {
        let wire = self.horizontal_char();
        proof {
            reveal_strlit("-");
            reveal_strlit("\u{2500}");
        }
        let wires = repeat_str(wire.as_str(), 3);
        let mut out: Vec<String> = Vec::new();
        let mut i: usize = 0;
        while i < lines.len()
            invariant
                i <= lines@.len(),
                out@.len() == i,
                wires@ == repeat_text(wire_char(self.config().ascii_style), 3),
                forall|j: int|
                    0 <= j < i ==> #[trigger] out@[j]@ == lines@[j]@ + measure_segment(
                        self.config(),
                        qubit_indices@.contains(j as usize),
                    ),
            decreases lines@.len() - i,
        {
            let seg = if slice_contains(qubit_indices, i) {
                if self.config.show_measurements {
                    owned("\u{2524}\u{1f4ca}\u{251c}")
                } else {
                    owned("\u{2524} M \u{251c}")
                }
            } else {
                let a = concat("\u{2500}", wires.as_str());
                concat(a.as_str(), "\u{2500}")
            };
            out.push(concat(lines[i].as_str(), seg.as_str()));
            i += 1;
        }
        *lines = out;
    }

    /// Draws a one-qubit gate: a box holding its symbol on the lines it acts on, and a wire
    /// on the others. A symbol over six bytes is cut to its first five and marked
    /// with an ellipsis; a shorter one is centred in six columns.
    pub fn add_single_gate_to_diagram(&self, lines: &mut Vec<String>, qubit_indices: &[usize], symbol: &str)
        requires
            encode_utf8(symbol@).len() > 6 ==> is_char_boundary(encode_utf8(symbol@), 5),
        ensures
            appended(
                old(lines)@,
                final(lines)@,
                |i: int| single_gate_segment(self.config().ascii_style, symbol@, qubit_indices@.contains(i as usize)),
            ),
    {
        let padded = padded_symbol_exec(symbol);
        let wire = self.horizontal_char();
        proof {
            reveal_strlit("-");
            reveal_strlit("\u{2500}");
        }
        let wires = repeat_str(wire.as_str(), 6);
        let mut out: Vec<String> = Vec::new();
        let mut i: usize = 0;
        while i < lines.len()
            invariant
                i <= lines@.len(),
                out@.len() == i,
                padded@ == padded_symbol(symbol@),
                wires@ == repeat_text(wire_char(self.config().ascii_style), 6),
                forall|j: int|
                    0 <= j < i ==> #[trigger] out@[j]@ == lines@[j]@ + single_gate_segment(
                        self.config().ascii_style,
                        symbol@,
                        qubit_indices@.contains(j as usize),
                    ),
            decreases lines@.len() - i,
        {
            let seg = if slice_contains(qubit_indices, i) {
                let a = concat("\u{2524}", padded.as_str());
                concat(a.as_str(), "\u{251c}")
            } else {
                let a = concat("\u{2500}", wires.as_str());
                concat(a.as_str(), "\u{2500}")
            };
            out.push(concat(lines[i].as_str(), seg.as_str()));
            i += 1;
        }
        *lines = out;
    }
}

/// The character that draws a wire in a style.
pub open spec fn wire_char(style: AsciiStyle) -> Seq<char> {
    match style {
        AsciiStyle::Unicode => "\u{2500}"@,
        _ => "-"@,
    }
}

/// Every line got its segment appended, and no line was added or lost.
pub open spec fn appended(before: Seq<String>, after: Seq<String>, seg: spec_fn(int) -> Seq<char>) -> bool {
    &&& after.len() == before.len()
    &&& forall|i: int| 0 <= i < before.len() ==> #[trigger] after[i]@ == before[i]@ + seg(i)
}

/// A plain stretch of wire, five columns wide, or a vertical link between the
/// lowest and highest qubit a gate spans.
pub open spec fn link_segment(style: AsciiStyle, i: int, lo: int, hi: int) -> Seq<char> {
    if lo < i && i < hi {
        "\u{2500}\u{2500}\u{2502}\u{2500}\u{2500}"@
    } else {
        "\u{2500}\u{2500}"@ + wire_char(style) + "\u{2500}\u{2500}"@
    }
}

/// The segment of line `i` for a gate with a control and a target.
pub open spec fn controlled_segment(style: AsciiStyle, i: int, control: int, target: int, target_seg: Seq<char>) -> Seq<char> {
    if i == control {
        "\u{2500}\u{2500}\u{25cf}\u{2500}\u{2500}"@
    } else if i == target {
        target_seg
    } else {
        link_segment(style, i, if control < target { control } else { target }, if control < target { target } else { control })
    }
}

/// The least of three numbers.
pub open spec fn min3(a: int, b: int, c: int) -> int {
    if a <= b && a <= c { a } else if b <= c { b } else { c }
}

/// The greatest of three numbers.
pub open spec fn max3(a: int, b: int, c: int) -> int {
    if a >= b && a >= c { a } else if b >= c { b } else { c }
}

/// The segment of line `i` for a Toffoli gate on three qubits.
pub open spec fn toffoli_segment(style: AsciiStyle, i: int, q: Seq<usize>) -> Seq<char> {
    if i == q[0] || i == q[1] {
        "\u{2500}\u{2500}\u{25cf}\u{2500}\u{2500}"@
    } else if i == q[2] {
        "\u{2500}\u{2500}\u{2295}\u{2500}\u{2500}"@
    } else {
        link_segment(style, i, min3(q[0] as int, q[1] as int, q[2] as int), max3(q[0] as int, q[1] as int, q[2] as int))
    }
}

/// The segment of line `i` for a SWAP of two qubits.
pub open spec fn swap_segment(style: AsciiStyle, i: int, q1: int, q2: int) -> Seq<char> {
    if i == q1 || i == q2 {
        "\u{2500}\u{2500}\u{00d7}\u{2500}\u{2500}"@
    } else {
        link_segment(style, i, if q1 < q2 { q1 } else { q2 }, if q1 < q2 { q2 } else { q1 })
    }
}

/// The segment of a line for a measurement: a box on a measured line (a chart, or
/// `M` when measurements are not shown), a wire on the others.
pub open spec fn measure_segment(config: VisualizationConfig, measured: bool) -> Seq<char> {
    if measured {
        if config.show_measurements {
            "\u{2524}\u{1f4ca}\u{251c}"@
        } else {
            "\u{2524} M \u{251c}"@
        }
    } else {
        "\u{2500}"@ + repeat_text(wire_char(config.ascii_style), 3) + "\u{2500}"@
    }
}

/// A gate symbol as it stands in its box: cut to five bytes and an ellipsis when
/// it is over six bytes, else centred among spaces to six columns (the odd space
/// going right).
pub open spec fn padded_symbol(symbol: Seq<char>) -> Seq<char> {
    if encode_utf8(symbol).len() > 6 {
        decode_utf8(encode_utf8(symbol).subrange(0, 5)) + "\u{2026}"@
    } else if symbol.len() >= 6 {
        symbol
    } else {
        let pad = 6 - symbol.len();
        Seq::new((pad / 2) as nat, |_i: int| ' ') + symbol + Seq::new((pad - pad / 2) as nat, |_i: int| ' ')
    }
}

/// The segment of a line for a one-qubit gate.
pub open spec fn single_gate_segment(style: AsciiStyle, symbol: Seq<char>, on_gate: bool) -> Seq<char> {
    if on_gate {
        "\u{2524}"@ + padded_symbol(symbol) + "\u{251c}"@
    } else {
        "\u{2500}"@ + repeat_text(wire_char(style), 6) + "\u{2500}"@
    }
}

/// Two qubits name the same register and index.
pub open spec fn same_qubit(a: QubitId, b: QubitId) -> bool {
    a.name@ == b.name@ && a.index == b.index
}

/// The first place of a qubit among the circuit's qubits.
pub open spec fn qubit_position(circuit: Seq<QubitId>, q: QubitId) -> Option<int>
    decreases circuit.len(),
{
    if circuit.len() == 0 {
        None
    } else {
        match qubit_position(circuit.drop_last(), q) {
            Some(i) => Some(i),
            None => if same_qubit(circuit.last(), q) {
                Some(circuit.len() - 1)
            } else {
                None
            },
        }
    }
}

/// Where each qubit of a gate stands among the circuit's qubits, in gate order;
/// a qubit the circuit lacks is skipped.
pub open spec fn qubit_positions(gate: Seq<QubitId>, circuit: Seq<QubitId>) -> Seq<int>
    decreases gate.len(),
{
    if gate.len() == 0 {
        Seq::empty()
    } else {
        let rest = qubit_positions(gate.drop_last(), circuit);
        match qubit_position(circuit, gate.last()) {
            Some(i) => rest.push(i),
            None => rest,
        }
    }
}

fn same_qubit_exec(a: &QubitId, b: &QubitId) -> (r: bool)
    ensures
        r == same_qubit(*a, *b),
{
    let same_index = match (a.index, b.index) {
        (Some(x), Some(y)) => x == y,
        (None, None) => true,
        _ => false,
    };
    same_index && same_text(a.name.as_str(), b.name.as_str())
}

pub(crate) fn position_of(circuit: &[QubitId], q: &QubitId) -> (r: Option<usize>)
    ensures
        match r {
            Some(i) => qubit_position(circuit@, *q) == Some(i as int),
            None => qubit_position(circuit@, *q) is None,
        },
{
    let mut i: usize = 0;
    while i < circuit.len()
        invariant
            i <= circuit@.len(),
            qubit_position(circuit@.take(i as int), *q) is None,
        decreases circuit@.len() - i,
    {
        assert(circuit@.take(i as int + 1).drop_last() =~= circuit@.take(i as int));
        if same_qubit_exec(&circuit[i], q) {
            proof {
                lemma_position_extends(circuit@, *q, i as int + 1, i as int);
            }
            return Some(i);
        }
        i += 1;
    }
    assert(circuit@.take(circuit@.len() as int) =~= circuit@);
    None
}

proof fn lemma_position_extends(circuit: Seq<QubitId>, q: QubitId, n: int, p: int)
    requires
        0 < n <= circuit.len(),
        qubit_position(circuit.take(n), q) == Some(p),
    ensures
        qubit_position(circuit, q) == Some(p),
    decreases circuit.len() - n,
{
    if n < circuit.len() {
        assert(circuit.take(n + 1).drop_last() =~= circuit.take(n));
        lemma_position_extends(circuit, q, n + 1, p);
    } else {
        assert(circuit.take(n) =~= circuit);
    }
}

/// Where each qubit of a gate stands among the circuit's qubits, in gate order;
/// a qubit the circuit lacks is skipped.
pub fn get_gate_qubit_indices(gate_qubits: &[QubitId], circuit_qubits: &[QubitId]) -> (r: Vec<usize>)
    ensures
        r@.len() == qubit_positions(gate_qubits@, circuit_qubits@).len(),
        forall|i: int| 0 <= i < r@.len() ==> #[trigger] r@[i] as int == qubit_positions(gate_qubits@, circuit_qubits@)[i],
{
    let mut out: Vec<usize> = Vec::new();
    let mut k: usize = 0;
    while k < gate_qubits.len()
        invariant
            k <= gate_qubits@.len(),
            out@.len() == qubit_positions(gate_qubits@.take(k as int), circuit_qubits@).len(),
            forall|i: int|
                0 <= i < out@.len() ==> #[trigger] out@[i] as int == qubit_positions(gate_qubits@.take(k as int), circuit_qubits@)[i],
        decreases gate_qubits@.len() - k,
    {
        assert(gate_qubits@.take(k as int + 1).drop_last() =~= gate_qubits@.take(k as int));
        match position_of(circuit_qubits, &gate_qubits[k]) {
            Some(p) => {
                out.push(p);
            },
            None => {},
        }
        k += 1;
    }
    assert(gate_qubits@.take(gate_qubits@.len() as int) =~= gate_qubits@);
    out
}

fn slice_contains(s: &[usize], x: usize) -> (r: bool)
    ensures
        r == s@.contains(x),
{
    let mut i: usize = 0;
    while i < s.len()
        invariant
            i <= s@.len(),
            forall|j: int| 0 <= j < i ==> s@[j] != x,
        decreases s@.len() - i,
    {
        if s[i] == x {
            assert(s@[i as int] == x);
            return true;
        }
        i += 1;
    }
    false
}

fn spaces(n: usize) -> (r: String)
    ensures
        r@ == Seq::new(n as nat, |_i: int| ' '),
{
    let mut out: Vec<char> = Vec::new();
    let mut i: usize = 0;
    while i < n
        invariant
            i <= n,
            out@ == Seq::new(i as nat, |_i: int| ' '),
        decreases n - i,
    {
        out.push(' ');
        i += 1;
        assert(out@ =~= Seq::new(i as nat, |_i: int| ' '));
    }
    crate::text::string_from_chars(out.as_slice())
}

fn padded_symbol_exec(symbol: &str) -> (r: String)
    requires
        encode_utf8(symbol@).len() > 6 ==> is_char_boundary(encode_utf8(symbol@), 5),
    ensures
        r@ == padded_symbol(symbol@),
{
    proof {
        vstd::utf8::encode_utf8_decode_utf8(symbol@);
    }
    let bytes = symbol.as_bytes();
    if bytes.len() > 6 {
        let (head, _rest) = symbol.split_at(5);
        proof {
            vstd::utf8::encode_utf8_decode_utf8(head@);
            assert(head.spec_bytes() == encode_utf8(head@));
        }
        concat(head, "\u{2026}")
    } else {
        let n = symbol.unicode_len();
        if n >= 6 {
            owned(symbol)
        } else {
            let pad = 6 - n;
            let left = spaces(pad / 2);
            let right = spaces(pad - pad / 2);
            let a = concat(left.as_str(), symbol);
            concat(a.as_str(), right.as_str())
        }
    }
}

} // verus!
