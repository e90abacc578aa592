//! The parser of the assembler: it reads one line at a time, binds labels
//! in a first pass and encodes instructions in a second one.

use vstd::prelude::*;
use crate::code::{
    c_word, comp_table, dest_table, encode_c, jump_table, lemma_code_ranges, lookup, Code,
};
use crate::error::AsmErrorKind;
use crate::symbols::{symbols_wf, SymbolTable, FIRST_VARIABLE, MAX_ADDRESS, SCREEN_ADDRESS};
use crate::text::{
    bits_text, chars_of, decimal, decimal_value, find_char, format_bits, identifier, is_identifier,
    lemma_bits_text_shape, lemma_normalized_visible, lemma_position, lemma_position_from, normalize,
    normalized, parse_decimal, position, position_from, text_of, whitespace,
};
use crate::trusted::pattern_matches;

verus! {

/// What a line of assembly is, once its comment and whitespace are gone.
#[derive(Clone, Copy, Debug, PartialEq, Eq, Structural)]
pub enum LineKind {
    /// Nothing is left of the line.
    Blank,
    /// `(LABEL)`: binds a symbol and emits no word.
    Label,
    /// `@value`: loads a constant or the address of a symbol.
    Address,
    /// `dest=comp;jump`, with `dest=` and `;jump` optional.
    Compute,
}

/// The kind of a line: blank where nothing is left of it, else decided by
/// its first character.
pub open spec fn line_kind(raw: Seq<char>) -> LineKind {
    let s = normalized(raw);
    if s.len() == 0 {
        LineKind::Blank
    } else if s[0] == '(' {
        LineKind::Label
    } else if s[0] == '@' {
        LineKind::Address
    } else {
        LineKind::Compute
    }
}

/// Tells what kind of line `raw_content` is.
pub fn classify(raw_content: &str) -> (kind: LineKind)
    ensures
        kind == line_kind(raw_content@),
{
    let content = normalize(raw_content);
    let chars = chars_of(content.as_str());
    if chars.len() == 0 {
        LineKind::Blank
    } else if chars[0] == '(' {
        LineKind::Label
    } else if chars[0] == '@' {
        LineKind::Address
    } else {
        LineKind::Compute
    }
}

/// A real instruction: a line that emits a machine word.
pub open spec fn is_instruction(raw: Seq<char>) -> bool {
    line_kind(raw) == LineKind::Address || line_kind(raw) == LineKind::Compute
}

/// What the parser knows between two lines.
pub struct ParserState {
    /// The symbols bound so far.
    pub symbols: Map<Seq<char>, u16>,
    /// The address that the next new variable gets.
    pub next_variable: nat,
    /// The ROM address of the next instruction.
    pub rom_address: nat,
}

/// The bounds that every state of the parser keeps: well-formed symbols,
/// variables between 16 and the screen map, and at most 32768 instructions.
pub open spec fn state_wf(st: ParserState) -> bool {
    &&& symbols_wf(st.symbols)
    &&& FIRST_VARIABLE <= st.next_variable <= SCREEN_ADDRESS
    &&& st.rom_address <= MAX_ADDRESS + 1
}

/// The state in which a parser starts on the symbols of `table`.
pub open spec fn initial_state(table: Map<Seq<char>, u16>) -> ParserState {
    ParserState { symbols: table, next_variable: FIRST_VARIABLE as nat, rom_address: 0 }
}

/// The symbol that a label line declares: what stands between its first
/// and its last character.
pub open spec fn label_name(s: Seq<char>) -> Seq<char> {
    s.subrange(1, s.len() - 1)
}

/// A label line closes its parenthesis around an identifier.
pub open spec fn label_shaped(s: Seq<char>) -> bool {
    s.len() >= 2 && s.last() == ')' && identifier(label_name(s))
}

/// The first pass on one line. A label is bound to the ROM address of the
/// next instruction, unless it is malformed, its symbol is bound already or
/// the address is above 32767; an instruction moves the ROM address on by
/// one, unless the ROM is full; a blank line changes nothing.
pub open spec fn label_step(st: ParserState, raw: Seq<char>) -> Result<ParserState, AsmErrorKind> {
    let s = normalized(raw);
    match line_kind(raw) {
        LineKind::Blank => Ok(st),
        LineKind::Label => {
            if !label_shaped(s) {
                Err(AsmErrorKind::MalformedLine)
            } else if st.symbols.contains_key(label_name(s)) {
                Err(AsmErrorKind::DuplicateLabel)
            } else if st.rom_address > MAX_ADDRESS {
                Err(AsmErrorKind::AddressOverflow)
            } else {
                Ok(
                    ParserState {
                        symbols: st.symbols.insert(label_name(s), st.rom_address as u16),
                        ..st
                    },
                )
            }
        },
        _ => {
            if st.rom_address > MAX_ADDRESS {
                Err(AsmErrorKind::AddressOverflow)
            } else {
                Ok(ParserState { rom_address: st.rom_address + 1, ..st })
            }
        },
    }
}

/// The A-instruction `s`: `@` and a value. A decimal numeral encodes its
/// value, unless that is above 32767. A bound symbol encodes its address. A
/// new symbol is bound to the next free variable and encodes that, unless
/// the variables have reached the screen map. Anything else is malformed.
pub open spec fn address_step(st: ParserState, s: Seq<char>) -> Result<
    (ParserState, u16),
    AsmErrorKind,
> {
    let body = s.skip(1);
    if s.len() == 0 || s[0] != '@' {
        Err(AsmErrorKind::MalformedLine)
    } else if decimal(body) {
        if decimal_value(body) > MAX_ADDRESS {
            Err(AsmErrorKind::AddressOverflow)
        } else {
            Ok((st, decimal_value(body) as u16))
        }
    } else if !identifier(body) {
        Err(AsmErrorKind::MalformedLine)
    } else if st.symbols.contains_key(body) {
        Ok((st, st.symbols[body]))
    } else if st.next_variable >= SCREEN_ADDRESS {
        Err(AsmErrorKind::AddressOverflow)
    } else {
        Ok(
            (
                ParserState {
                    symbols: st.symbols.insert(body, st.next_variable as u16),
                    next_variable: st.next_variable + 1,
                    ..st
                },
                st.next_variable as u16,
            ),
        )
    }
}

/// A C-instruction names a destination where it holds an `=` and no line
/// feed.
pub open spec fn has_dest(s: Seq<char>) -> bool {
    s.contains('=') && !s.contains('\n')
}

/// Where the computation begins: behind the first `=` where there is a
/// destination, else at the start.
pub open spec fn comp_start(s: Seq<char>) -> int {
    if has_dest(s) {
        position(s, '=') + 1
    } else {
        0
    }
}

/// Where the computation ends: at the first `;` behind its start, or at
/// the end of the line.
pub open spec fn comp_end(s: Seq<char>) -> int {
    position_from(s, ';', comp_start(s))
}

/// A C-instruction names a jump where a `;` follows the start of the
/// computation.
pub open spec fn has_jump(s: Seq<char>) -> bool {
    comp_end(s) < s.len()
}

/// The destination mnemonic: what stands before the first `=`.
pub open spec fn dest_part(s: Seq<char>) -> Seq<char> {
    s.subrange(0, position(s, '='))
}

/// The computation mnemonic.
pub open spec fn comp_part(s: Seq<char>) -> Seq<char> {
    s.subrange(comp_start(s), comp_end(s))
}

/// The jump mnemonic: what stands behind the `;`.
pub open spec fn jump_part(s: Seq<char>) -> Seq<char> {
    s.subrange(comp_end(s) + 1, s.len() as int)
}

/// The destination bits: those of the mnemonic, or zero where none is named.
pub open spec fn dest_bits(s: Seq<char>) -> Option<u16> {
    if has_dest(s) {
        lookup(dest_table(), dest_part(s))
    } else {
        Some(0)
    }
}

/// The computation bits.
pub open spec fn comp_bits(s: Seq<char>) -> Option<u16> {
    lookup(comp_table(), comp_part(s))
}

/// The jump bits: those of the mnemonic, or zero where none is named.
pub open spec fn jump_bits(s: Seq<char>) -> Option<u16> {
    if has_jump(s) {
        lookup(jump_table(), jump_part(s))
    } else {
        Some(0)
    }
}

/// The machine word of the C-instruction `s`. Nothing behind `=` or behind
/// `;` makes the line malformed; then the destination, the computation and
/// the jump are looked up, in this order, and the first one that is unknown
/// is reported.
pub open spec fn compute_word(s: Seq<char>) -> Result<u16, AsmErrorKind> {
    if has_dest(s) && comp_start(s) == s.len() {
        Err(AsmErrorKind::MalformedLine)
    } else if has_jump(s) && comp_end(s) + 1 == s.len() {
        Err(AsmErrorKind::MalformedLine)
    } else if dest_bits(s) is None {
        Err(AsmErrorKind::UnknownDest)
    } else if comp_bits(s) is None {
        Err(AsmErrorKind::UnknownComp)
    } else if jump_bits(s) is None {
        Err(AsmErrorKind::UnknownJump)
    } else {
        Ok(c_word(comp_bits(s)->0, dest_bits(s)->0, jump_bits(s)->0))
    }
}

/// The instruction `s`, which is not blank and no label: an A-instruction
/// where it begins with `@`, else a C-instruction.
pub open spec fn instruction_step(st: ParserState, s: Seq<char>) -> Result<
    (ParserState, u16),
    AsmErrorKind,
> {
    if s.len() > 0 && s[0] == '@' {
        address_step(st, s)
    } else {
        match compute_word(s) {
            Ok(word) => Ok((st, word)),
            Err(kind) => Err(kind),
        }
    }
}

/// The second pass on one line. Blank lines and labels emit nothing. An
/// instruction emits its word and moves the ROM address on by one, unless
/// the ROM is full or the instruction is rejected.
pub open spec fn encode_step(st: ParserState, raw: Seq<char>) -> Result<
    (ParserState, Option<u16>),
    AsmErrorKind,
> {
    if !is_instruction(raw) {
        Ok((st, None))
    } else if st.rom_address > MAX_ADDRESS {
        Err(AsmErrorKind::AddressOverflow)
    } else {
        match instruction_step(st, normalized(raw)) {
            Ok((next, word)) => Ok(
                (ParserState { rom_address: next.rom_address + 1, ..next }, Some(word)),
            ),
            Err(kind) => Err(kind),
        }
    }
}

/// **A destination is named where an `=` appears, a jump where a `;`
/// appears.** In a line as the assembler reads it, the part before the
/// first `=` is the destination exactly where the line holds an `=`, and a
/// jump follows exactly where a `;` stands behind the start of the
/// computation.
pub proof fn lemma_parts_present(raw: Seq<char>)
    ensures
        has_dest(normalized(raw)) <==> normalized(raw).contains('='),
        has_jump(normalized(raw)) <==> normalized(raw).skip(comp_start(normalized(raw))).contains(
            ';',
        ),
{
    let s = normalized(raw);
    lemma_normalized_visible(raw);
    if s.contains('\n') {
        let i = choose|i: int| 0 <= i < s.len() && s[i] == '\n';
        assert(whitespace(s[i]));
    }
    lemma_position(s, '=');
    let start = comp_start(s);
    lemma_position_from(s, ';', start);
    let rest = s.skip(start);
    if has_jump(s) {
        assert(rest[comp_end(s) - start] == ';');
    }
    if rest.contains(';') {
        let i = choose|i: int| 0 <= i < rest.len() && rest[i] == ';';
        assert(s[start + i] == ';');
    }
}

/// The parser of the assembler: the symbol table, the address of the next
/// variable, the ROM address of the next instruction and the code tables.
pub struct Parser {
    symbol_table: SymbolTable,
    variable_address: u16,
    instruction_line: u16,
    c_instruction_set: Code,
}

impl View for Parser {
    type V = ParserState;

    closed spec fn view(&self) -> ParserState {
        ParserState {
            symbols: self.symbol_table@,
            next_variable: self.variable_address as nat,
            rom_address: self.instruction_line as nat,
        }
    }
}

impl Parser {
    /// The invariant of the parser: its state keeps its bounds and its code
    /// tables are those of the Hack language.
    pub closed spec fn wf(&self) -> bool {
        state_wf(self@) && self.c_instruction_set.wf()
    }

    /// A well-formed parser is in a well-formed state.
    pub proof fn lemma_wf(&self)
        requires
            self.wf(),
        ensures
            state_wf(self@),
    {
    }

    /// A parser that starts on the symbols of `table`, with the first
    /// variable at 16 and the first instruction at 0.
    pub fn new(table: SymbolTable) -> (parser: Parser)
        requires
            table.wf(),
        ensures
            parser.wf(),
            parser@ == initial_state(table@),
    {
        Parser {
            symbol_table: table,
            variable_address: FIRST_VARIABLE,
            instruction_line: 0,
            c_instruction_set: Code::new(),
        }
    }

    /// Goes back to ROM address 0, as the second pass needs it.
    pub fn reset_instruction_line(&mut self)
        requires
            old(self).wf(),
        ensures
            final(self).wf(),
            final(self)@ == (ParserState { rom_address: 0, ..old(self)@ }),
    {
        self.instruction_line = 0
    }

    /// The ROM address of the next instruction.
    pub fn instruction_line(&self) -> (line: u16)
        ensures
            line == self@.rom_address,
    {
        self.instruction_line
    }

    /// The address that the next new variable gets.
    pub fn variable_address(&self) -> (address: u16)
        ensures
            address == self@.next_variable,
    {
        self.variable_address
    }

    /// The address bound to `name`, if any.
    pub fn lookup(&self, name: &str) -> (address: Option<u16>)
        ensures
            address == (if self@.symbols.contains_key(name@) {
                Some(self@.symbols[name@])
            } else {
                None
            }),
    {
        self.symbol_table.get(name)
    }

    /// Gives the symbol table back.
    pub fn into_symbols(self) -> (table: SymbolTable)
        requires
            self.wf(),
        ensures
            table.wf(),
            table@ == self@.symbols,
    {
        self.symbol_table
    }

    /// The first pass on one line: binds a label to the ROM address of the
    /// next instruction, counts an instruction, skips a blank line. A
    /// rejected line leaves the parser as it was.
    pub fn parse_labels(&mut self, raw_content: &str) -> (r: Result<(), AsmErrorKind>)
        requires
            old(self).wf(),
        ensures
            final(self).wf(),
            match label_step(old(self)@, raw_content@) {
                Ok(next) => r is Ok && final(self)@ == next,
                Err(kind) => r == Err::<(), AsmErrorKind>(kind) && final(self)@ == old(self)@,
            },
    {
        let content = normalize(raw_content);
        let chars = chars_of(content.as_str());
        let len = chars.len();
        if len == 0 {
            return Ok(());
        }
        if chars[0] == '(' {
            if len < 2 || chars[len - 1] != ')' || !is_identifier(&chars, 1, len - 1) {
                return Err(AsmErrorKind::MalformedLine);
            }
            let label = text_of(&chars, 1, len - 1);
            if self.symbol_table.contains(label.as_str()) {
                return Err(AsmErrorKind::DuplicateLabel);
            }
            if self.instruction_line > MAX_ADDRESS {
                return Err(AsmErrorKind::AddressOverflow);
            }
            self.symbol_table.bind(label, self.instruction_line);
            Ok(())
        } else {
            if self.instruction_line > MAX_ADDRESS {
                return Err(AsmErrorKind::AddressOverflow);
            }
            self.instruction_line = self.instruction_line + 1;
            Ok(())
        }
    }

    /// The second pass on one line: encodes an instruction as sixteen
    /// binary digits, skips labels and blank lines. A rejected line leaves
    /// the parser as it was.
    pub fn parse_instructions(&mut self, raw_content: &str) -> (r: Result<
        Option<String>,
        AsmErrorKind,
    >)
        requires
            old(self).wf(),
        ensures
            final(self).wf(),
            match encode_step(old(self)@, raw_content@) {
                Ok((next, Some(word))) => r matches Ok(Some(line)) && line@ == bits_text(
                    word as nat,
                    16,
                ) && final(self)@ == next,
                Ok((next, None)) => r matches Ok(None) && final(self)@ == next,
                Err(kind) => r matches Err(k) && k == kind && final(self)@ == old(self)@,
            },
            r matches Ok(Some(line)) ==> line@.len() == 16 && forall|i: int|
                0 <= i < 16 ==> #[trigger] line@[i] == '0' || line@[i] == '1',
            r matches Ok(Some(_)) <==> is_instruction(raw_content@) && encode_step(
                old(self)@,
                raw_content@,
            ) is Ok,
    {
        let content = normalize(raw_content);
        let chars = chars_of(content.as_str());
        if chars.len() == 0 || chars[0] == '(' {
            return Ok(None);
        }
        if self.instruction_line > MAX_ADDRESS {
            return Err(AsmErrorKind::AddressOverflow);
        }
        let word = if chars[0] == '@' {
            self.decode_a_instructions(content)?
        } else {
            self.decode_c_instruction(content)?
        };
        self.instruction_line = self.instruction_line + 1;
        let line = format_bits(word);
        proof {
            lemma_bits_text_shape(word as nat, 16);
        }
        Ok(Some(line))
    }

    /// Encodes the A-instruction `content` and binds its symbol to the next
    /// free variable where it is new. A rejected instruction leaves the
    /// parser as it was.
    pub fn decode_a_instructions(&mut self, content: String) -> (r: Result<u16, AsmErrorKind>)
        requires
            old(self).wf(),
        ensures
            final(self).wf(),
            match address_step(old(self)@, content@) {
                Ok((next, word)) => r == Ok::<u16, AsmErrorKind>(word) && final(self)@ == next,
                Err(kind) => r == Err::<u16, AsmErrorKind>(kind) && final(self)@ == old(self)@,
            },
            r matches Ok(word) ==> word <= MAX_ADDRESS,
    {
        let chars = chars_of(content.as_str());
        let len = chars.len();
        if len == 0 || chars[0] != '@' {
            return Err(AsmErrorKind::MalformedLine);
        }
        let a_instruction = text_of(&chars, 1, len);
        assert(chars@.subrange(1, len as int) == content@.skip(1));
        if pattern_matches("^[0-9]+$", a_instruction.as_str()) {
            match parse_decimal(&chars, 1, len, MAX_ADDRESS) {
                Some(value) => Ok(value),
                None => Err(AsmErrorKind::AddressOverflow),
            }
        } else if !is_identifier(&chars, 1, len) {
            Err(AsmErrorKind::MalformedLine)
        } else {
            match self.symbol_table.get(a_instruction.as_str()) {
                Some(value) => Ok(value),
                None => {
                    if self.variable_address >= SCREEN_ADDRESS {
                        return Err(AsmErrorKind::AddressOverflow);
                    }
                    let var = self.variable_address;
                    self.symbol_table.bind(a_instruction, var);
                    self.variable_address = var + 1;
                    Ok(var)
                },
            }
        }
    }

    /// Encodes the C-instruction `instruction`: `dest=comp;jump`, where
    /// `dest=` and `;jump` may be missing.
    pub fn decode_c_instruction(&self, instruction: String) -> (r: Result<u16, AsmErrorKind>)
        requires
            self.wf(),
        ensures
            r == compute_word(instruction@),
            r matches Ok(word) ==> word >= 57344,
    {
        let chars = chars_of(instruction.as_str());
        let len = chars.len();
        proof {
            lemma_position(chars@, '=');
            lemma_code_ranges();
        }
        let assign = find_char(&chars, '=', 0);
        let with_dest = assign < len && pattern_matches("^.*?=.*?(;.)?$", instruction.as_str());
        let start = if with_dest { assign + 1 } else { 0 };
        let end = find_char(&chars, ';', start);
        let with_jump = end < len;
        if with_dest && start == len {
            return Err(AsmErrorKind::MalformedLine);
        }
        if with_jump && end + 1 == len {
            return Err(AsmErrorKind::MalformedLine);
        }
        let mut dest_instruction: u16 = 0;
        if with_dest {
            let dest = text_of(&chars, 0, assign);
            match self.c_instruction_set.dest(dest.as_str()) {
                Some(code) => {
                    dest_instruction = code;
                },
                None => {
                    return Err(AsmErrorKind::UnknownDest);
                },
            }
        }
        let comp = text_of(&chars, start, end);
        let comp_instruction = match self.c_instruction_set.comp(comp.as_str()) {
            Some(code) => code,
            None => {
                return Err(AsmErrorKind::UnknownComp);
            },
        };
        let mut jump_instruction: u16 = 0;
        if with_jump {
            let jump = text_of(&chars, end + 1, len);
            match self.c_instruction_set.jump(jump.as_str()) {
                Some(code) => {
                    jump_instruction = code;
                },
                None => {
                    return Err(AsmErrorKind::UnknownJump);
                },
            }
        }
        Ok(encode_c(comp_instruction, dest_instruction, jump_instruction))
    }
}

} // verus!
