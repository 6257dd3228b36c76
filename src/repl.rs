use vstd::prelude::*;
use vstd::string::StringExecFns;
use vstd::arithmetic::power2::pow2;
use crate::circuit::{Circuit, table_row, row_inputs};
use crate::error::BuildError;
use crate::gate::GateType;
use crate::misc::{gain_gate_type, gate_of_name};
use crate::node::NodeType;
use crate::signal::Signal;

verus! {

/// The text being edited in the interactive shell.
#[derive(Debug)]
pub struct Editor {
    pub code_buffer: String,
}

/// The outcome of the last command, as shown by the shell.
#[derive(Debug)]
pub struct ParseMessage {
    pub flag: bool,
    pub res_flag: bool,
    pub message: String,
}

/// The truth table the shell shows: the input count and chosen outputs it
/// was computed for, its rows, and their rendered lines.
#[derive(Debug)]
pub struct TruthTable {
    pub flag: bool,
    pub data_index: (usize, Vec<usize>),
    pub data: Vec<(Vec<Signal>, Vec<Signal>)>,
    pub strings: Vec<String>,
}

/// The state of the interactive shell around one circuit.
#[derive(Debug)]
pub struct Repl {
    pub circuit: Circuit,
    pub editor: Editor,
    pub message: ParseMessage,
    pub truth_table: TruthTable,
}

/// Turns a command's gate names into gate kinds.
pub struct CircuitInterpreter;

/// The character of decimal digit `d`.
pub open spec fn digit_char(d: nat) -> char {
    if d == 0 {
        '0'
    } else if d == 1 {
        '1'
    } else if d == 2 {
        '2'
    } else if d == 3 {
        '3'
    } else if d == 4 {
        '4'
    } else if d == 5 {
        '5'
    } else if d == 6 {
        '6'
    } else if d == 7 {
        '7'
    } else if d == 8 {
        '8'
    } else {
        '9'
    }
}

/// `n` in decimal, without leading zeros.
pub open spec fn decimal(n: nat) -> Seq<char>
    decreases n,
{
    if n < 10 {
        seq![digit_char(n)]
    } else {
        decimal(n / 10) + seq![digit_char(n % 10)]
    }
}

/// Three spaces, as between the input and output columns.
pub open spec fn gap() -> Seq<char> {
    seq![' ', ' ', ' ']
}

/// One column of a rendered line: three spaces, the text, four spaces.
pub open spec fn cell(text: Seq<char>) -> Seq<char> {
    gap() + text + seq![' ', ' ', ' ', ' ']
}

/// A signal as one character: `1`, `0`, or `_` when unknown.
pub open spec fn signal_text(s: Signal) -> Seq<char> {
    match s.value {
        Some(true) => seq!['1'],
        Some(false) => seq!['0'],
        None => seq!['_'],
    }
}

/// The columns headed `0`, `1`, ..., `n - 1`.
pub open spec fn index_cells(n: nat) -> Seq<char>
    decreases n,
{
    if n == 0 {
        Seq::empty()
    } else {
        index_cells((n - 1) as nat) + cell(decimal((n - 1) as nat))
    }
}

/// The columns headed by the signal ids `ids`.
pub open spec fn id_cells(ids: Seq<usize>) -> Seq<char>
    decreases ids.len(),
{
    if ids.len() == 0 {
        Seq::empty()
    } else {
        id_cells(ids.drop_last()) + cell(decimal(ids.last() as nat))
    }
}

/// One column per signal of `s`.
pub open spec fn signal_cells(s: Seq<Signal>) -> Seq<char>
    decreases s.len(),
{
    if s.len() == 0 {
        Seq::empty()
    } else {
        signal_cells(s.drop_last()) + cell(signal_text(s.last()))
    }
}

/// The header of a table over `n` inputs and the output signals `outs`.
pub open spec fn header_line(n: nat, outs: Seq<usize>) -> Seq<char> {
    index_cells(n) + gap() + id_cells(outs)
}

/// The line of a row with input values `ins` and output values `outs`.
pub open spec fn row_line(ins: Seq<Signal>, outs: Seq<Signal>) -> Seq<char> {
    signal_cells(ins) + gap() + signal_cells(outs)
}

/// `t.strings` are the rendered lines of `t`: the header, then one line
/// per row.
pub open spec fn rendered(t: TruthTable) -> bool {
    &&& t.strings@.len() == t.data@.len() + 1
    &&& t.strings@[0]@ == header_line(t.data_index.0 as nat, t.data_index.1@)
    &&& forall|i: int|
        0 <= i < t.data@.len() ==> (#[trigger] t.strings@[i + 1])@ == row_line(t.data@[i].0@, t.data@[i].1@)
}

/// Appends the digit `d`.
fn push_digit(s: &mut String, d: usize)
    requires
        d < 10,
    ensures
        final(s)@ == old(s)@ + seq![digit_char(d as nat)],
{
    proof {
        reveal_strlit("0");
        reveal_strlit("1");
        reveal_strlit("2");
        reveal_strlit("3");
        reveal_strlit("4");
        reveal_strlit("5");
        reveal_strlit("6");
        reveal_strlit("7");
        reveal_strlit("8");
        reveal_strlit("9");
    }
    if d == 0 {
        s.append("0");
    } else if d == 1 {
        s.append("1");
    } else if d == 2 {
        s.append("2");
    } else if d == 3 {
        s.append("3");
    } else if d == 4 {
        s.append("4");
    } else if d == 5 {
        s.append("5");
    } else if d == 6 {
        s.append("6");
    } else if d == 7 {
        s.append("7");
    } else if d == 8 {
        s.append("8");
    } else {
        s.append("9");
    }
    assert(final(s)@ =~= old(s)@ + seq![digit_char(d as nat)]);
}

/// Appends `n` in decimal.
fn push_decimal(s: &mut String, n: usize)
    ensures
        final(s)@ == old(s)@ + decimal(n as nat),
    decreases n,
{
    if n >= 10 {
        push_decimal(s, n / 10);
    }
    push_digit(s, n % 10);
    assert(final(s)@ =~= old(s)@ + decimal(n as nat));
}

/// Appends the three-space gap.
fn push_gap(s: &mut String)
    ensures
        final(s)@ == old(s)@ + gap(),
{
    proof {
        reveal_strlit("   ");
    }
    s.append("   ");
    assert(final(s)@ =~= old(s)@ + gap());
}

/// Appends the four spaces that close a column.
fn push_close(s: &mut String)
    ensures
        final(s)@ == old(s)@ + seq![' ', ' ', ' ', ' '],
{
    proof {
        reveal_strlit("    ");
    }
    s.append("    ");
    assert(final(s)@ =~= old(s)@ + seq![' ', ' ', ' ', ' ']);
}

/// Appends the column of the number `n`.
fn push_number_cell(s: &mut String, n: usize)
    ensures
        final(s)@ == old(s)@ + cell(decimal(n as nat)),
{
    push_gap(s);
    push_decimal(s, n);
    push_close(s);
    assert(final(s)@ =~= old(s)@ + cell(decimal(n as nat)));
}

/// Appends the column of the signal `v`.
fn push_signal_cell(s: &mut String, v: &Signal)
    ensures
        final(s)@ == old(s)@ + cell(signal_text(*v)),
{
    proof {
        reveal_strlit("1");
        reveal_strlit("0");
        reveal_strlit("_");
    }
    push_gap(s);
    match v.value {
        Some(true) => s.append("1"),
        Some(false) => s.append("0"),
        None => s.append("_"),
    }
    push_close(s);
    assert(final(s)@ =~= old(s)@ + cell(signal_text(*v)));
}

/// Appends one column per signal of `values`.
fn push_signal_cells(s: &mut String, values: &Vec<Signal>)
    ensures
        final(s)@ == old(s)@ + signal_cells(values@),
{
    let mut i: usize = 0;
    while i < values.len()
        invariant
            0 <= i <= values@.len(),
            s@ == old(s)@ + signal_cells(values@.take(i as int)),
        decreases values@.len() - i,
    {
        push_signal_cell(s, &values[i]);
        assert(values@.take(i + 1).drop_last() =~= values@.take(i as int));
        assert(s@ =~= old(s)@ + signal_cells(values@.take(i + 1)));
        i = i + 1;
    }
    assert(values@.take(i as int) =~= values@);
}

impl Editor {
    pub fn new() -> (r: Editor)
        ensures
            r.code_buffer@.len() == 0,
    {
        Editor { code_buffer: String::new() }
    }

    pub fn get_code(&self) -> (r: String)
        ensures
            r@ == self.code_buffer@,
    {
        self.code_buffer.clone()
    }

    pub fn clear_code(&mut self)
        ensures
            final(self).code_buffer@.len() == 0,
    {
        self.code_buffer = String::new();
    }
}

impl ParseMessage {
    pub fn new() -> (r: ParseMessage)
        ensures
            !r.flag,
            !r.res_flag,
            r.message@.len() == 0,
    {
        ParseMessage { flag: false, res_flag: false, message: String::new() }
    }

    /// Records a new outcome `s`, successful when `res_flag` is set.
    pub fn update(&mut self, s: String, res_flag: bool)
        ensures
            final(self).message == s,
            final(self).flag,
            final(self).res_flag == res_flag,
    {
        self.message = s;
        self.flag = true;
        self.res_flag = res_flag;
    }
}

impl TruthTable {
    pub fn new() -> (r: TruthTable)
        ensures
            !r.flag,
            r.data_index.0 == 0,
            r.data_index.1@.len() == 0,
            r.data@.len() == 0,
            r.strings@.len() == 0,
    {
        TruthTable { flag: false, data_index: (0, Vec::new()), data: Vec::new(), strings: Vec::new() }
    }

    /// Renders the table: a header naming the input positions and the
    /// output signal ids, then one line per row with its input and output
    /// values.
    pub fn update_string(&mut self)
        ensures
            rendered(*final(self)),
            final(self).flag == old(self).flag,
            final(self).data_index == old(self).data_index,
            final(self).data == old(self).data,
    {
        let mut strings: Vec<String> = Vec::new();
        let mut head = String::new();
        let mut i: usize = 0;
        while i < self.data_index.0
            invariant
                0 <= i <= self.data_index.0,
                head@ == index_cells(i as nat),
            decreases self.data_index.0 - i,
        {
            push_number_cell(&mut head, i);
            i = i + 1;
        }
        push_gap(&mut head);
        let ghost start = head@;
        let mut k: usize = 0;
        while k < self.data_index.1.len()
            invariant
                0 <= k <= self.data_index.1@.len(),
                head@ == start + id_cells(self.data_index.1@.take(k as int)),
            decreases self.data_index.1@.len() - k,
        {
            push_number_cell(&mut head, self.data_index.1[k]);
            assert(self.data_index.1@.take(k + 1).drop_last() =~= self.data_index.1@.take(k as int));
            assert(head@ =~= start + id_cells(self.data_index.1@.take(k + 1)));
            k = k + 1;
        }
        assert(self.data_index.1@.take(k as int) =~= self.data_index.1@);
        assert(head@ =~= header_line(self.data_index.0 as nat, self.data_index.1@));
        strings.push(head);
        let mut r: usize = 0;
        while r < self.data.len()
            invariant
                0 <= r <= self.data@.len(),
                strings@.len() == r + 1,
                strings@[0]@ == header_line(self.data_index.0 as nat, self.data_index.1@),
                forall|j: int| 0 <= j < r ==> (#[trigger] strings@[j + 1])@ == row_line(self.data@[j].0@, self.data@[j].1@),
            decreases self.data@.len() - r,
        {
            let mut line = String::new();
            push_signal_cells(&mut line, &self.data[r].0);
            push_gap(&mut line);
            push_signal_cells(&mut line, &self.data[r].1);
            assert(line@ =~= row_line(self.data@[r as int].0@, self.data@[r as int].1@));
            strings.push(line);
            r = r + 1;
        }
        self.strings = strings;
    }

    /// Recomputes the table for the outputs `output` of `circuit` over all
    /// combinations of its primary inputs; on failure nothing changes.
    pub fn update(&mut self, circuit: &Circuit, output: &[usize]) -> (r: Result<(), BuildError>)
        requires
            pow2(circuit.input as nat) <= usize::MAX,
        ensures
            r is Err ==> *final(self) == *old(self),
            r is Ok ==> {
                &&& final(self).flag
                &&& final(self).data_index.0 == circuit.input
                &&& final(self).data_index.1@ == output@
                &&& final(self).data@.len() == pow2(circuit.input as nat)
                &&& forall|i: int|
                    0 <= i < final(self).data@.len() ==> (#[trigger] final(self).data@[i]).0@ == row_inputs(
                        circuit.input as nat,
                        i as nat,
                    ) && table_row(*circuit, circuit.input as nat, output@, i as nat)
                        == Ok::<Seq<Signal>, BuildError>(final(self).data@[i].1@)
                &&& rendered(*final(self))
            },
            (forall|i: nat| i < pow2(circuit.input as nat) ==> #[trigger] table_row(*circuit, circuit.input as nat, output@, i) is Ok)
                ==> r is Ok,
    {
        match Circuit::truth_table(circuit, circuit.input, output) {
            Err(e) => Err(e),
            Ok(rows) => {
                self.flag = true;
                self.data_index = (circuit.input, vstd::slice::slice_to_vec(output));
                self.data = rows;
                self.update_string();
                Ok(())
            },
        }
    }
}

impl Repl {
    /// A shell around `circuit` with an empty editor, no message and no table.
    pub fn new_with_circuit(circuit: Circuit) -> (r: Repl)
        ensures
            r.circuit == circuit,
            r.editor.code_buffer@.len() == 0,
            !r.message.flag,
            !r.truth_table.flag,
    {
        Repl { circuit, editor: Editor::new(), message: ParseMessage::new(), truth_table: TruthTable::new() }
    }

    pub fn get_mut_circuit(&mut self) -> (r: &mut Circuit)
        ensures
            *r == old(self).circuit,
            final(self).circuit == *final(r),
            final(self).editor == old(self).editor,
            final(self).message == old(self).message,
            final(self).truth_table == old(self).truth_table,
    {
        &mut self.circuit
    }

    pub fn get_circuit(&self) -> (r: &Circuit)
        ensures
            *r == self.circuit,
    {
        &self.circuit
    }

    pub fn get_message(&self) -> (r: &ParseMessage)
        ensures
            *r == self.message,
    {
        &self.message
    }

    pub fn get_truth_table(&self) -> (r: &TruthTable)
        ensures
            *r == self.truth_table,
    {
        &self.truth_table
    }

    pub fn get_truth_table_mut(&mut self) -> (r: &mut TruthTable)
        ensures
            *r == old(self).truth_table,
            final(self).truth_table == *final(r),
            final(self).circuit == old(self).circuit,
            final(self).editor == old(self).editor,
            final(self).message == old(self).message,
    {
        &mut self.truth_table
    }

    /// Recomputes the shown truth table over the outputs `output`.
    pub fn update_truth_table(&mut self, output: &[usize]) -> (r: Result<(), BuildError>)
        requires
            pow2(old(self).circuit.input as nat) <= usize::MAX,
        ensures
            final(self).circuit == old(self).circuit,
            final(self).editor == old(self).editor,
            final(self).message == old(self).message,
            r is Err ==> final(self).truth_table == old(self).truth_table,
            r is Ok ==> {
                let t = final(self).truth_table;
                &&& t.flag
                &&& t.data_index.0 == old(self).circuit.input
                &&& t.data_index.1@ == output@
                &&& t.data@.len() == pow2(old(self).circuit.input as nat)
                &&& forall|i: int|
                    0 <= i < t.data@.len() ==> (#[trigger] t.data@[i]).0@ == row_inputs(
                        old(self).circuit.input as nat,
                        i as nat,
                    ) && table_row(old(self).circuit, old(self).circuit.input as nat, output@, i as nat)
                        == Ok::<Seq<Signal>, BuildError>(t.data@[i].1@)
                &&& rendered(t)
            },
            (forall|i: nat|
                i < pow2(old(self).circuit.input as nat) ==> #[trigger] table_row(
                    old(self).circuit,
                    old(self).circuit.input as nat,
                    output@,
                    i,
                ) is Ok) ==> r is Ok,
    {
        self.truth_table.update(&self.circuit, output)
    }
}

/// Which primitive gate kind a command names, with its input count.
pub open spec fn command_gate(name: Seq<char>, input_size: usize) -> Option<GateType> {
    match gate_of_name(name) {
        Some(NodeType::Not) => Some(GateType::Not(input_size)),
        Some(NodeType::And) => Some(GateType::And(input_size)),
        Some(NodeType::Or) => Some(GateType::Or(input_size)),
        Some(NodeType::Xor) => Some(GateType::Xor(input_size)),
        Some(NodeType::NAnd) => Some(GateType::NAnd(input_size)),
        _ => None,
    }
}

impl CircuitInterpreter {
    /// Which primitive gate kind `name` denotes, taking `input_size` inputs.
    pub fn parse_gate_name(name: &str, input_size: usize) -> (r: Result<GateType, BuildError>)
        ensures
            r == match command_gate(name@, input_size) {
                Some(t) => Ok(t),
                None => Err::<GateType, BuildError>(BuildError::UnknownGateName),
            },
    {
        match gain_gate_type(name) {
            Ok(NodeType::Not) => Ok(GateType::Not(input_size)),
            Ok(NodeType::And) => Ok(GateType::And(input_size)),
            Ok(NodeType::Or) => Ok(GateType::Or(input_size)),
            Ok(NodeType::Xor) => Ok(GateType::Xor(input_size)),
            Ok(NodeType::NAnd) => Ok(GateType::NAnd(input_size)),
            _ => Err(BuildError::UnknownGateName),
        }
    }
}

} // verus!
