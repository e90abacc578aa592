//! The code generator of the VM translator: the assembly that each command
//! becomes, and the state that the generator keeps between two commands.

use vstd::prelude::*;
use vstd::string::StringExecFns;
use crate::error::{VmError, VmErrorKind};
use crate::symbols::MAX_ADDRESS;
use crate::text::{decimal_text, push_decimal, split_words, strip_comment, words};
use crate::vm::{command_of, parse_command, Command, CommandView, Segment};

verus! {

/// What the generator knows between two commands.
pub struct GeneratorState {
    /// The stem of the `.vm` file, which names its static variables.
    pub stem: Seq<char>,
    /// The number that the next minted label gets.
    pub counter: nat,
    /// The function that the commands belong to; the stem before the
    /// first `function`.
    pub scope: Seq<char>,
}

/// The state of a generator that starts on the file `stem`.
pub open spec fn fresh_state(stem: Seq<char>) -> GeneratorState {
    GeneratorState { stem, counter: 0, scope: stem }
}

/// The state in which a generator goes on to the file `stem`: the label
/// counter stays, the commands belong to no function yet.
pub open spec fn next_file(st: GeneratorState, stem: Seq<char>) -> GeneratorState {
    GeneratorState { stem, scope: stem, ..st }
}

/// The A-instruction that loads `symbol`, indented, on a line of its own.
pub open spec fn load(symbol: Seq<char>) -> Seq<char> {
    "\t@"@ + symbol + "\n"@
}

/// The A-instruction that loads the number `n`.
pub open spec fn load_number(n: nat) -> Seq<char> {
    load(decimal_text(n))
}

/// The declaration of the label `symbol`, on a line of its own.
pub open spec fn mark(symbol: Seq<char>) -> Seq<char> {
    "("@ + symbol + ")\n"@
}

/// Pushes `D` onto the stack.
pub open spec fn push_d() -> Seq<char> {
    "\t@SP\n\tA=M\n\tM=D\n\t@SP\n\tM=M+1\n"@
}

/// Pops the top of the stack into `D`.
pub open spec fn pop_d() -> Seq<char> {
    "\t@SP\n\tAM=M-1\n\tD=M\n"@
}

/// Pops the top of the stack into `D` and points `A` at the value below
/// it.
pub open spec fn pop_two() -> Seq<char> {
    "\t@SP\n\tAM=M-1\n\tD=M\n\tA=A-1\n"@
}

/// Points `A` at the top of the stack.
pub open spec fn top() -> Seq<char> {
    "\t@SP\n\tA=M-1\n"@
}

/// The label that the comparison numbered `id` jumps to where it holds.
pub open spec fn true_label(id: nat) -> Seq<char> {
    "TRUE."@ + decimal_text(id)
}

/// The label at which the two paths of the comparison numbered `id` meet.
pub open spec fn continue_label(id: nat) -> Seq<char> {
    "CONTINUE."@ + decimal_text(id)
}

/// The label to which the call numbered `id` returns.
pub open spec fn return_label(id: nat) -> Seq<char> {
    "RET."@ + decimal_text(id)
}

/// The symbol of the static variable `index` of the file `stem`.
pub open spec fn static_symbol(stem: Seq<char>, index: nat) -> Seq<char> {
    stem + "."@ + decimal_text(index)
}

/// The symbol of the label `name` inside the function `scope`.
pub open spec fn scoped(scope: Seq<char>, name: Seq<char>) -> Seq<char> {
    scope + "$"@ + name
}

/// The pointer that holds the base of a segment, for the four segments
/// that are reached through one.
pub open spec fn base_of(segment: Segment) -> Option<Seq<char>> {
    match segment {
        Segment::Local => Some("LCL"@),
        Segment::Argument => Some("ARG"@),
        Segment::This => Some("THIS"@),
        Segment::That => Some("THAT"@),
        _ => None,
    }
}

/// A comparison: `D` gets the second value minus the top one, the jump
/// `jump` on it leads to the label that writes -1 (true), the other path
/// writes 0 (false), and both meet at the second label.
pub open spec fn compare_text(jump: Seq<char>, id: nat) -> Seq<char> {
    pop_two() + "\tD=M-D\n"@ + load(true_label(id)) + "\tD;"@ + jump + "\n"@ + top() + "\tM=0\n"@
        + load(continue_label(id)) + "\t0;JMP\n"@ + mark(true_label(id)) + top() + "\tM=-1\n"@
        + mark(continue_label(id))
}

/// What loads into `D` the value that a `push` pushes, or nothing where
/// the index is outside its segment: `temp` has the eight cells from 5 on,
/// `pointer` the two cells `THIS` and `THAT`.
pub open spec fn fetch_text(stem: Seq<char>, segment: Segment, index: u16) -> Option<Seq<char>> {
    match segment {
        Segment::Constant => Some(load_number(index as nat) + "\tD=A\n"@),
        Segment::Static => Some(load(static_symbol(stem, index as nat)) + "\tD=M\n"@),
        Segment::Temp => if index <= 7 {
            Some(load_number((5 + index) as nat) + "\tD=M\n"@)
        } else {
            None
        },
        Segment::Pointer => if index == 0 {
            Some(load("THIS"@) + "\tD=M\n"@)
        } else if index == 1 {
            Some(load("THAT"@) + "\tD=M\n"@)
        } else {
            None
        },
        _ => Some(
            load(base_of(segment)->0) + "\tD=M\n"@ + load_number(index as nat)
                + "\tA=D+A\n\tD=M\n"@,
        ),
    }
}

/// What stores the popped value: for the segments reached through a
/// pointer, the address is worked out and kept in `R13` before the pop.
/// Nothing where the index is outside its segment, nor for `constant`.
pub open spec fn store_text(stem: Seq<char>, segment: Segment, index: u16) -> Option<Seq<char>> {
    match segment {
        Segment::Constant => None,
        Segment::Static => Some(pop_d() + load(static_symbol(stem, index as nat)) + "\tM=D\n"@),
        Segment::Temp => if index <= 7 {
            Some(pop_d() + load_number((5 + index) as nat) + "\tM=D\n"@)
        } else {
            None
        },
        Segment::Pointer => if index == 0 {
            Some(pop_d() + load("THIS"@) + "\tM=D\n"@)
        } else if index == 1 {
            Some(pop_d() + load("THAT"@) + "\tM=D\n"@)
        } else {
            None
        },
        _ => Some(
            load(base_of(segment)->0) + "\tD=M\n"@ + load_number(index as nat)
                + "\tA=D+A\n\tD=A\n\t@R13\n\tM=D\n"@ + pop_d() + "\t@R13\n\tA=M\n\tM=D\n"@,
        ),
    }
}

/// `text`, `n` times over.
pub open spec fn repeated(text: Seq<char>, n: nat) -> Seq<char>
    decreases n,
{
    if n == 0 {
        Seq::empty()
    } else {
        repeated(text, (n - 1) as nat) + text
    }
}

/// Pushes the constant 0.
pub open spec fn push_zero() -> Seq<char> {
    "\t@0\n\tD=A\n"@ + push_d()
}

/// Pushes what the pointer `symbol` holds.
pub open spec fn save(symbol: Seq<char>) -> Seq<char> {
    load(symbol) + "\tD=M\n"@ + push_d()
}

/// A call of `name` with `count` arguments: pushes the return address and
/// the four pointers of the caller, sets `ARG` to `SP - count - 5` and `LCL`
/// to `SP`, jumps to `name`, and declares the return address behind the
/// jump.
pub open spec fn call_text(name: Seq<char>, count: u16, id: nat) -> Seq<char> {
    load(return_label(id)) + "\tD=A\n"@ + push_d() + save("LCL"@) + save("ARG"@) + save("THIS"@)
        + save("THAT"@) + "\t@SP\n\tD=M\n"@ + load_number((count + 5) as nat)
        + "\tD=D-A\n\t@ARG\n\tM=D\n\t@SP\n\tD=M\n\t@LCL\n\tM=D\n"@ + load(name) + "\t0;JMP\n"@
        + mark(return_label(id))
}

/// Restores into the pointer `symbol` the cell below the one that `R13`
/// points at.
pub open spec fn restore(symbol: Seq<char>) -> Seq<char> {
    "\t@R13\n\tAM=M-1\n\tD=M\n"@ + load(symbol) + "\tM=D\n"@
}

/// A return: keeps the frame in `R13` and the return address in `R14`,
/// moves the result to where the first argument was, sets `SP` behind it,
/// restores the four pointers of the caller, and jumps back.
pub open spec fn return_text() -> Seq<char> {
    "\t@LCL\n\tD=M\n\t@R13\n\tM=D\n\t@5\n\tA=D-A\n\tD=M\n\t@R14\n\tM=D\n"@ + pop_d()
        + "\t@ARG\n\tA=M\n\tM=D\n\t@ARG\n\tD=M+1\n\t@SP\n\tM=D\n"@ + restore("THAT"@) + restore(
        "THIS"@,
    ) + restore("ARG"@) + restore("LCL"@) + "\t@R14\n\tA=M\n\t0;JMP\n"@
}

/// A comparison takes the next label number, unless the counter is
/// exhausted.
pub open spec fn compare_step(st: GeneratorState, jump: Seq<char>) -> Result<
    (GeneratorState, Seq<char>),
    VmErrorKind,
> {
    if st.counter >= usize::MAX {
        Err(VmErrorKind::LabelOverflow)
    } else {
        Ok((GeneratorState { counter: st.counter + 1, ..st }, compare_text(jump, st.counter)))
    }
}

/// The assembly of one command, and the state behind it. The four
/// operations on two values write `D op M` over the second value, `D`
/// being the top one; `neg` and `not` work on the top value in place.
pub open spec fn emit_step(st: GeneratorState, command: CommandView) -> Result<
    (GeneratorState, Seq<char>),
    VmErrorKind,
> {
    match command {
        CommandView::Add => Ok((st, pop_two() + "\tM=D+M\n"@)),
        CommandView::Sub => Ok((st, pop_two() + "\tM=D-M\n"@)),
        CommandView::And => Ok((st, pop_two() + "\tM=D&M\n"@)),
        CommandView::Or => Ok((st, pop_two() + "\tM=D|M\n"@)),
        CommandView::Neg => Ok((st, top() + "\tM=-M\n"@)),
        CommandView::Not => Ok((st, top() + "\tM=!M\n"@)),
        CommandView::Eq => compare_step(st, "JEQ"@),
        CommandView::Gt => compare_step(st, "JGT"@),
        CommandView::Lt => compare_step(st, "JLT"@),
        CommandView::Push(segment, index) => match fetch_text(st.stem, segment, index) {
            Some(text) => Ok((st, text + push_d())),
            None => Err(VmErrorKind::IndexOutOfRange),
        },
        CommandView::Pop(segment, index) => if segment == Segment::Constant {
            Err(VmErrorKind::PopConstant)
        } else {
            match store_text(st.stem, segment, index) {
                Some(text) => Ok((st, text)),
                None => Err(VmErrorKind::IndexOutOfRange),
            }
        },
        CommandView::Label(name) => Ok((st, mark(scoped(st.scope, name)))),
        CommandView::Goto(name) => Ok((st, load(scoped(st.scope, name)) + "\t0;JMP\n"@)),
        CommandView::IfGoto(name) => Ok(
            (st, pop_d() + load(scoped(st.scope, name)) + "\tD;JNE\n"@),
        ),
        CommandView::Function(name, count) => Ok(
            (
                GeneratorState { scope: name, ..st },
                mark(name) + repeated(push_zero(), count as nat),
            ),
        ),
        CommandView::Call(name, count) => if count + 5 > MAX_ADDRESS {
            Err(VmErrorKind::IndexOutOfRange)
        } else if st.counter >= usize::MAX {
            Err(VmErrorKind::LabelOverflow)
        } else {
            Ok(
                (
                    GeneratorState { counter: st.counter + 1, ..st },
                    call_text(name, count, st.counter),
                ),
            )
        },
        CommandView::Return => Ok((st, return_text())),
    }
}

/// The comment that echoes a line of VM code: `//`, a space and the line as
/// it was read, on a line of its own.
pub open spec fn echo(raw: Seq<char>) -> Seq<char> {
    "// "@ + raw + "\n"@
}

/// One line of VM code. A line without words emits nothing. Any other
/// line is read as a command and emits its echo and its assembly, unless
/// the command is rejected.
#[verifier::opaque]
pub open spec fn translate_step(st: GeneratorState, raw: Seq<char>) -> Result<
    (GeneratorState, Option<Seq<char>>),
    VmErrorKind,
> {
    let tokens = words(strip_comment(raw));
    if tokens.len() == 0 {
        Ok((st, None))
    } else {
        match command_of(tokens) {
            Err(kind) => Err(kind),
            Ok(command) => match emit_step(st, command) {
                Err(kind) => Err(kind),
                Ok((next, text)) => Ok((next, Some(echo(raw) + text))),
            },
        }
    }
}

/// The lines `lines`, from the state `st`: the state that the generator
/// reaches, the assembly written on the way, and the first line that it
/// rejects, if any. Nothing is read behind a rejected line.
pub open spec fn translate_lines(st: GeneratorState, lines: Seq<Seq<char>>) -> (
    GeneratorState,
    Seq<char>,
    Option<VmError>,
)
    decreases lines.len(),
{
    if lines.len() == 0 {
        (st, Seq::empty(), None)
    } else {
        let (before, text, error) = translate_lines(st, lines.drop_last());
        if error is Some {
            (before, text, error)
        } else {
            match translate_step(before, lines.last()) {
                Ok((next, Some(more))) => (next, text + more, None),
                Ok((next, None)) => (next, text, None),
                Err(kind) => (before, text, Some(VmError { line: lines.len() as usize, kind })),
            }
        }
    }
}

/// The loop without end that closes every program.
pub open spec fn epilogue_text() -> Seq<char> {
    "(INFINITE_LOOP)\n\t@INFINITE_LOOP\n\t0;JMP\n"@
}

/// The assembly of the one-file program `lines`: its commands, translated
/// by a fresh generator, and the closing loop; or the first rejected line.
pub open spec fn program_text(stem: Seq<char>, lines: Seq<Seq<char>>) -> Result<
    Seq<char>,
    VmError,
> {
    let (_, text, error) = translate_lines(fresh_state(stem), lines);
    if error is Some {
        Err(error->0)
    } else {
        Ok(text + epilogue_text())
    }
}

/// Once the generator has rejected a line it reads no further.
pub proof fn lemma_translate_lines_stops(st: GeneratorState, lines: Seq<Seq<char>>, k: int)
    requires
        0 <= k <= lines.len(),
        translate_lines(st, lines.take(k)).2 is Some,
    ensures
        translate_lines(st, lines) == translate_lines(st, lines.take(k)),
    decreases lines.len(),
{
    if k == lines.len() {
        assert(lines.take(k) == lines);
    } else {
        assert(lines.drop_last().take(k) == lines.take(k));
        lemma_translate_lines_stops(st, lines.drop_last(), k);
    }
}

/// Appends the A-instruction that loads `symbol`.
fn put_load(out: &mut String, symbol: &str)
    ensures
        final(out)@ == old(out)@ + load(symbol@),
{
    out.append("\t@");
    out.append(symbol);
    out.append("\n");
}

/// Appends the A-instruction that loads the number `n`.
fn put_load_number(out: &mut String, n: u16)
    ensures
        final(out)@ == old(out)@ + load_number(n as nat),
{
    out.append("\t@");
    push_decimal(out, n as u64);
    out.append("\n");
}

/// Appends the declaration of the label `symbol`.
fn put_mark(out: &mut String, symbol: &str)
    ensures
        final(out)@ == old(out)@ + mark(symbol@),
{
    out.append("(");
    out.append(symbol);
    out.append(")\n");
}

/// Appends what pushes the value of the pointer `symbol`.
fn put_save(out: &mut String, symbol: &str)
    ensures
        final(out)@ == old(out)@ + save(symbol@),
{
    put_load(out, symbol);
    out.append("\tD=M\n");
    out.append("\t@SP\n\tA=M\n\tM=D\n\t@SP\n\tM=M+1\n");
}

/// Appends what restores the pointer `symbol` from the frame of the caller.
fn put_restore(out: &mut String, symbol: &str)
    ensures
        final(out)@ == old(out)@ + restore(symbol@),
{
    out.append("\t@R13\n\tAM=M-1\n\tD=M\n");
    put_load(out, symbol);
    out.append("\tM=D\n");
}

/// The name of a minted label: `prefix` and the number `id`.
fn numbered(prefix: &str, id: usize) -> (label: String)
    ensures
        label@ == prefix@ + decimal_text(id as nat),
{
    let mut label = String::from_str(prefix);
    push_decimal(&mut label, id as u64);
    label
}

/// The name of the pointer that holds the base of a segment.
fn base_name(segment: Segment) -> (name: &'static str)
    requires
        base_of(segment) is Some,
    ensures
        name@ == base_of(segment)->0,
{
    match segment {
        Segment::Local => "LCL",
        Segment::Argument => "ARG",
        Segment::This => "THIS",
        _ => "THAT",
    }
}

/// The code generator: the stem of the file being translated, the label
/// counter, and the function that the commands belong to.
pub struct CodeGenerator {
    file_stem: String,
    label_counter: usize,
    function_name: String,
}

impl View for CodeGenerator {
    type V = GeneratorState;

    closed spec fn view(&self) -> GeneratorState {
        GeneratorState {
            stem: self.file_stem@,
            counter: self.label_counter as nat,
            scope: self.function_name@,
        }
    }
}

impl CodeGenerator {
    /// A generator that starts on the file `stem`, with the label counter
    /// at 0.
    pub fn new(stem: &str) -> (generator: CodeGenerator)
        ensures
            generator@ == fresh_state(stem@),
    {
        CodeGenerator {
            file_stem: String::from_str(stem),
            label_counter: 0,
            function_name: String::from_str(stem),
        }
    }

    /// A generator that starts on the file `stem` and numbers its first
    /// label `counter`: for a translation that goes on behind another one.
    pub fn starting_at(stem: &str, counter: usize) -> (generator: CodeGenerator)
        ensures
            generator@ == (GeneratorState { counter: counter as nat, ..fresh_state(stem@) }),
    {
        CodeGenerator {
            file_stem: String::from_str(stem),
            label_counter: counter,
            function_name: String::from_str(stem),
        }
    }

    /// Goes on to the file `stem`. The label counter keeps its value, so
    /// that no label is minted twice in one output.
    pub fn begin_file(&mut self, stem: &str)
        ensures
            final(self)@ == next_file(old(self)@, stem@),
    {
        self.file_stem = String::from_str(stem);
        self.function_name = String::from_str(stem);
    }

    /// The number that the next minted label gets.
    pub fn label_counter(&self) -> (counter: usize)
        ensures
            counter == self@.counter,
    {
        self.label_counter
    }

    /// Takes the next label number: returns the counter and moves it on by
    /// one.
    pub fn next_label_id(&mut self) -> (id: usize)
        requires
            old(self)@.counter < usize::MAX,
        ensures
            id == old(self)@.counter,
            final(self)@ == (GeneratorState { counter: old(self)@.counter + 1, ..old(self)@ }),
    {
        let id = self.label_counter;
        self.label_counter = id + 1;
        id
    }

    /// Writes a comparison that jumps on `jump`, with two fresh labels.
    fn write_comparison(&mut self, jump: &str) -> (r: Result<String, VmErrorKind>)
        ensures
            match compare_step(old(self)@, jump@) {
                Ok((next, text)) => r matches Ok(out) && out@ == text && final(self)@ == next,
                Err(kind) => r matches Err(k) && k == kind && final(self)@ == old(self)@,
            },
    {
        if self.label_counter >= usize::MAX {
            return Err(VmErrorKind::LabelOverflow);
        }
        let label_id = self.next_label_id();
        let on_true = numbered("TRUE.", label_id);
        let proceed = numbered("CONTINUE.", label_id);
        let mut out = String::new();
        out.append("\t@SP\n\tAM=M-1\n\tD=M\n\tA=A-1\n");
        out.append("\tD=M-D\n");
        put_load(&mut out, on_true.as_str());
        out.append("\tD;");
        out.append(jump);
        out.append("\n");
        out.append("\t@SP\n\tA=M-1\n");
        out.append("\tM=0\n");
        put_load(&mut out, proceed.as_str());
        out.append("\t0;JMP\n");
        put_mark(&mut out, on_true.as_str());
        out.append("\t@SP\n\tA=M-1\n");
        out.append("\tM=-1\n");
        put_mark(&mut out, proceed.as_str());
        Ok(out)
    }

    /// Writes what loads into `D` the value of `segment[index]`.
    fn write_fetch(&self, segment: Segment, index: u16) -> (r: Option<String>)
        ensures
            match fetch_text(self@.stem, segment, index) {
                Some(text) => r matches Some(out) && out@ == text,
                None => r is None,
            },
    {
        let mut out = String::new();
        match segment {
            Segment::Constant => {
                put_load_number(&mut out, index);
                out.append("\tD=A\n");
            },
            Segment::Static => {
                let mut symbol = self.file_stem.clone();
                symbol.append(".");
                push_decimal(&mut symbol, index as u64);
                put_load(&mut out, symbol.as_str());
                out.append("\tD=M\n");
            },
            Segment::Temp => {
                if index > 7 {
                    return None;
                }
                put_load_number(&mut out, 5 + index);
                out.append("\tD=M\n");
            },
            Segment::Pointer => {
                if index == 0 {
                    put_load(&mut out, "THIS");
                } else if index == 1 {
                    put_load(&mut out, "THAT");
                } else {
                    return None;
                }
                out.append("\tD=M\n");
            },
            _ => {
                put_load(&mut out, base_name(segment));
                out.append("\tD=M\n");
                put_load_number(&mut out, index);
                out.append("\tA=D+A\n\tD=M\n");
            },
        }
        Some(out)
    }

    /// Writes what pops the top of the stack into `segment[index]`.
    fn write_store(&self, segment: Segment, index: u16) -> (r: Option<String>)
        ensures
            match store_text(self@.stem, segment, index) {
                Some(text) => r matches Some(out) && out@ == text,
                None => r is None,
            },
    {
        let mut out = String::new();
        match segment {
            Segment::Constant => {
                return None;
            },
            Segment::Static => {
                let mut symbol = self.file_stem.clone();
                symbol.append(".");
                push_decimal(&mut symbol, index as u64);
                out.append("\t@SP\n\tAM=M-1\n\tD=M\n");
                put_load(&mut out, symbol.as_str());
                out.append("\tM=D\n");
            },
            Segment::Temp => {
                if index > 7 {
                    return None;
                }
                out.append("\t@SP\n\tAM=M-1\n\tD=M\n");
                put_load_number(&mut out, 5 + index);
                out.append("\tM=D\n");
            },
            Segment::Pointer => {
                if index > 1 {
                    return None;
                }
                out.append("\t@SP\n\tAM=M-1\n\tD=M\n");
                if index == 0 {
                    put_load(&mut out, "THIS");
                } else {
                    put_load(&mut out, "THAT");
                }
                out.append("\tM=D\n");
            },
            _ => {
                put_load(&mut out, base_name(segment));
                out.append("\tD=M\n");
                put_load_number(&mut out, index);
                out.append("\tA=D+A\n\tD=A\n\t@R13\n\tM=D\n");
                out.append("\t@SP\n\tAM=M-1\n\tD=M\n");
                out.append("\t@R13\n\tA=M\n\tM=D\n");
            },
        }
        Some(out)
    }

    /// Writes the entry of the function `name` with `count` local
    /// variables, each set to 0.
    fn write_function(name: &str, count: u16) -> (out: String)
        ensures
            out@ == mark(name@) + repeated(push_zero(), count as nat),
    {
        let mut out = String::new();
        put_mark(&mut out, name);
        let mut k: u16 = 0;
        proof {
            assert(out@ == mark(name@) + repeated(push_zero(), 0));
        }
        while k < count
            invariant
                k <= count,
                out@ == mark(name@) + repeated(push_zero(), k as nat),
            decreases count - k,
        {
            out.append("\t@0\n\tD=A\n");
            out.append("\t@SP\n\tA=M\n\tM=D\n\t@SP\n\tM=M+1\n");
            k += 1;
            proof {
                assert(out@ == mark(name@) + (repeated(push_zero(), (k - 1) as nat)
                    + push_zero()));
            }
        }
        out
    }

    /// Writes the call numbered `id` of `name` with `count` arguments.
    fn write_call(name: &str, count: u16, id: usize) -> (out: String)
        requires
            count + 5 <= MAX_ADDRESS,
        ensures
            out@ == call_text(name@, count, id as nat),
    {
        let back = numbered("RET.", id);
        let mut out = String::new();
        put_load(&mut out, back.as_str());
        out.append("\tD=A\n");
        out.append("\t@SP\n\tA=M\n\tM=D\n\t@SP\n\tM=M+1\n");
        put_save(&mut out, "LCL");
        put_save(&mut out, "ARG");
        put_save(&mut out, "THIS");
        put_save(&mut out, "THAT");
        out.append("\t@SP\n\tD=M\n");
        put_load_number(&mut out, count + 5);
        out.append("\tD=D-A\n\t@ARG\n\tM=D\n\t@SP\n\tD=M\n\t@LCL\n\tM=D\n");
        put_load(&mut out, name);
        out.append("\t0;JMP\n");
        put_mark(&mut out, back.as_str());
        out
    }

    /// Writes a return.
    fn write_return() -> (out: String)
        ensures
            out@ == return_text(),
    {
        let mut out = String::new();
        out.append("\t@LCL\n\tD=M\n\t@R13\n\tM=D\n\t@5\n\tA=D-A\n\tD=M\n\t@R14\n\tM=D\n");
        out.append("\t@SP\n\tAM=M-1\n\tD=M\n");
        out.append("\t@ARG\n\tA=M\n\tM=D\n\t@ARG\n\tD=M+1\n\t@SP\n\tM=D\n");
        put_restore(&mut out, "THAT");
        put_restore(&mut out, "THIS");
        put_restore(&mut out, "ARG");
        put_restore(&mut out, "LCL");
        out.append("\t@R14\n\tA=M\n\t0;JMP\n");
        out
    }

    /// The symbol of the label `name` inside the current function.
    fn scoped_symbol(&self, name: &str) -> (symbol: String)
        ensures
            symbol@ == scoped(self@.scope, name@),
    {
        let mut symbol = self.function_name.clone();
        symbol.append("$");
        symbol.append(name);
        symbol
    }

    /// Writes the assembly of one command. A rejected command leaves the
    /// generator as it was.
    pub fn emit(&mut self, command: &Command) -> (r: Result<String, VmErrorKind>)
        ensures
            match emit_step(old(self)@, command@) {
                Ok((next, text)) => r matches Ok(out) && out@ == text && final(self)@ == next,
                Err(kind) => r matches Err(k) && k == kind && final(self)@ == old(self)@,
            },
    {
        let mut out = String::new();
        match command {
            Command::Add => {
                out.append("\t@SP\n\tAM=M-1\n\tD=M\n\tA=A-1\n");
                out.append("\tM=D+M\n");
            },
            Command::Sub => {
                out.append("\t@SP\n\tAM=M-1\n\tD=M\n\tA=A-1\n");
                out.append("\tM=D-M\n");
            },
            Command::And => {
                out.append("\t@SP\n\tAM=M-1\n\tD=M\n\tA=A-1\n");
                out.append("\tM=D&M\n");
            },
            Command::Or => {
                out.append("\t@SP\n\tAM=M-1\n\tD=M\n\tA=A-1\n");
                out.append("\tM=D|M\n");
            },
            Command::Neg => {
                out.append("\t@SP\n\tA=M-1\n");
                out.append("\tM=-M\n");
            },
            Command::Not => {
                out.append("\t@SP\n\tA=M-1\n");
                out.append("\tM=!M\n");
            },
            Command::Eq => {
                return self.write_comparison("JEQ");
            },
            Command::Gt => {
                return self.write_comparison("JGT");
            },
            Command::Lt => {
                return self.write_comparison("JLT");
            },
            Command::Push(segment, index) => {
                match self.write_fetch(*segment, *index) {
                    Some(text) => {
                        out = text;
                        out.append("\t@SP\n\tA=M\n\tM=D\n\t@SP\n\tM=M+1\n");
                    },
                    None => {
                        return Err(VmErrorKind::IndexOutOfRange);
                    },
                }
            },
            Command::Pop(segment, index) => {
                if *segment == Segment::Constant {
                    return Err(VmErrorKind::PopConstant);
                }
                match self.write_store(*segment, *index) {
                    Some(text) => {
                        out = text;
                    },
                    None => {
                        return Err(VmErrorKind::IndexOutOfRange);
                    },
                }
            },
            Command::Label(name) => {
                let symbol = self.scoped_symbol(name.as_str());
                put_mark(&mut out, symbol.as_str());
            },
            Command::Goto(name) => {
                let symbol = self.scoped_symbol(name.as_str());
                put_load(&mut out, symbol.as_str());
                out.append("\t0;JMP\n");
            },
            Command::IfGoto(name) => {
                let symbol = self.scoped_symbol(name.as_str());
                out.append("\t@SP\n\tAM=M-1\n\tD=M\n");
                put_load(&mut out, symbol.as_str());
                out.append("\tD;JNE\n");
            },
            Command::Function(name, count) => {
                out = Self::write_function(name.as_str(), *count);
                self.function_name = name.clone();
            },
            Command::Call(name, count) => {
                if *count > MAX_ADDRESS - 5 {
                    return Err(VmErrorKind::IndexOutOfRange);
                }
                if self.label_counter >= usize::MAX {
                    return Err(VmErrorKind::LabelOverflow);
                }
                let id = self.next_label_id();
                out = Self::write_call(name.as_str(), *count, id);
            },
            Command::Return => {
                out = Self::write_return();
            },
        }
        Ok(out)
    }

    /// Translates one line of VM code: a line without words gives nothing,
    /// any other line gives its echo as a comment and its assembly. A
    /// rejected line leaves the generator as it was.
    pub fn translate_line(&mut self, raw: &str) -> (r: Result<Option<String>, VmErrorKind>)
        ensures
            match translate_step(old(self)@, raw@) {
                Ok((next, Some(text))) => r matches Ok(Some(out)) && out@ == text && final(self)@
                    == next,
                Ok((next, None)) => r matches Ok(None) && final(self)@ == next,
                Err(kind) => r matches Err(k) && k == kind && final(self)@ == old(self)@,
            },
    {
        proof {
            reveal(translate_step);
        }
        let tokens = split_words(raw);
        if tokens.len() == 0 {
            return Ok(None);
        }
        let command = parse_command(&tokens)?;
        let text = self.emit(&command)?;
        let mut out = String::from_str("// ");
        out.append(raw);
        out.append("\n");
        out.append(text.as_str());
        Ok(Some(out))
    }

    /// Translates the lines of a file, one after the other, and returns
    /// their assembly, or the first line that is rejected. The generator
    /// stays as that line found it.
    pub fn translate(&mut self, lines: &Vec<String>) -> (r: Result<String, VmError>)
        ensures
            final(self)@ == translate_lines(old(self)@, lines.deep_view()).0,
            match translate_lines(old(self)@, lines.deep_view()).2 {
                None => r matches Ok(out) && out@ == translate_lines(
                    old(self)@,
                    lines.deep_view(),
                ).1,
                Some(error) => r matches Err(e) && e == error,
            },
    {
        let ghost source = lines.deep_view();
        let ghost start = self@;
        let mut out = String::new();
        let mut i: usize = 0;
        proof {
            assert(source.take(0) == Seq::<Seq<char>>::empty());
        }
        while i < lines.len()
            invariant
                i <= lines.len(),
                source == lines.deep_view(),
                start == old(self)@,
                translate_lines(start, source.take(i as int)) == (self@, out@, None::<VmError>),
            decreases lines.len() - i,
        {
            proof {
                assert(source.take(i + 1).drop_last() == source.take(i as int));
                assert(source.take(i + 1).last() == lines[i as int]@);
            }
            match self.translate_line(lines[i].as_str()) {
                Ok(Some(text)) => {
                    out.append(text.as_str());
                },
                Ok(None) => {},
                Err(kind) => {
                    proof {
                        lemma_translate_lines_stops(start, source, i + 1);
                    }
                    return Err(VmError { line: i + 1, kind });
                },
            }
            i += 1;
        }
        proof {
            assert(source.take(i as int) == source);
        }
        Ok(out)
    }
}

/// The loop without end that closes every program.
pub fn epilogue() -> (out: String)
    ensures
        out@ == epilogue_text(),
{
    String::from_str("(INFINITE_LOOP)\n\t@INFINITE_LOOP\n\t0;JMP\n")
}

/// Translates the one-file program `lines` of the file `stem` with a fresh
/// generator, and closes it with the loop without end.
pub fn translate_program(stem: &str, lines: &Vec<String>) -> (r: Result<String, VmError>)
    ensures
        match program_text(stem@, lines.deep_view()) {
            Ok(text) => r matches Ok(out) && out@ == text,
            Err(error) => r matches Err(e) && e == error,
        },
{
    let mut generator = CodeGenerator::new(stem);
    match generator.translate(lines) {
        Ok(text) => {
            let mut out = text;
            out.append("(INFINITE_LOOP)\n\t@INFINITE_LOOP\n\t0;JMP\n");
            Ok(out)
        },
        Err(error) => Err(error),
    }
}

} // verus!
