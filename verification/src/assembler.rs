//! The two-pass assembler: the first pass binds every label to the ROM
//! address of the instruction that follows it, the second one encodes the
//! instructions and gives each new symbol the next free variable.

use vstd::prelude::*;
use vstd::string::StringExecFns;
use crate::error::AsmError;
use crate::parser::{encode_step, initial_state, label_step, Parser, ParserState};
use crate::symbols::{symbols_wf, with_predefined, SymbolTable};
use crate::text::bits_text;

verus! {

/// The first pass over `lines`, from the state `st`: the state that it
/// reaches, and the first line that it rejects, if any. Nothing is read
/// behind a rejected line.
pub open spec fn scan_labels(st: ParserState, lines: Seq<Seq<char>>) -> (
    ParserState,
    Option<AsmError>,
)
    decreases lines.len(),
{
    if lines.len() == 0 {
        (st, None)
    } else {
        let (before, error) = scan_labels(st, lines.drop_last());
        if error is Some {
            (before, error)
        } else {
            match label_step(before, lines.last()) {
                Ok(next) => (next, None),
                Err(kind) => (before, Some(AsmError { line: lines.len() as usize, kind })),
            }
        }
    }
}

/// The second pass over `lines`, from the state `st`: the state that it
/// reaches, the words emitted on the way, and the first line that it
/// rejects, if any. Nothing is read behind a rejected line.
pub open spec fn encode_lines(st: ParserState, lines: Seq<Seq<char>>) -> (
    ParserState,
    Seq<u16>,
    Option<AsmError>,
)
    decreases lines.len(),
{
    if lines.len() == 0 {
        (st, Seq::empty(), None)
    } else {
        let (before, words, error) = encode_lines(st, lines.drop_last());
        if error is Some {
            (before, words, error)
        } else {
            match encode_step(before, lines.last()) {
                Ok((next, Some(word))) => (next, words.push(word), None),
                Ok((next, None)) => (next, words, None),
                Err(kind) => (
                    before,
                    words,
                    Some(AsmError { line: lines.len() as usize, kind }),
                ),
            }
        }
    }
}

/// The state in which the second pass starts: that of the end of the first
/// pass, back at ROM address 0.
pub open spec fn labelled(table: Map<Seq<char>, u16>, lines: Seq<Seq<char>>) -> ParserState {
    ParserState { rom_address: 0, ..scan_labels(initial_state(table), lines).0 }
}

/// The symbols that an assembly of `lines` leaves behind, from the symbols
/// of `table`: those of the line at which it stopped.
pub open spec fn assembled_symbols(table: Map<Seq<char>, u16>, lines: Seq<Seq<char>>) -> Map<
    Seq<char>,
    u16,
> {
    if scan_labels(initial_state(table), lines).1 is Some {
        scan_labels(initial_state(table), lines).0.symbols
    } else {
        encode_lines(labelled(table, lines), lines).0.symbols
    }
}

/// The machine words of the program `lines`, assembled on the symbols of
/// `table`, or the first line that one of the two passes rejects.
pub open spec fn assembled_words(table: Map<Seq<char>, u16>, lines: Seq<Seq<char>>) -> Result<
    Seq<u16>,
    AsmError,
> {
    let first = scan_labels(initial_state(table), lines);
    let second = encode_lines(labelled(table, lines), lines);
    if first.1 is Some {
        Err(first.1->0)
    } else if second.2 is Some {
        Err(second.2->0)
    } else {
        Ok(second.1)
    }
}

/// The lines of a `.hack` file: each word as sixteen binary digits.
pub open spec fn hack_lines(words: Seq<u16>) -> Seq<Seq<char>> {
    Seq::new(words.len(), |i: int| bits_text(words[i] as nat, 16))
}

/// The text of a file that holds `lines`, each closed by a line feed.
pub open spec fn file_text(lines: Seq<Seq<char>>) -> Seq<char>
    decreases lines.len(),
{
    if lines.len() == 0 {
        Seq::empty()
    } else {
        file_text(lines.drop_last()) + lines.last() + seq!['\n']
    }
}

/// Once the first pass has rejected a line it reads no further.
pub proof fn lemma_scan_labels_stops(st: ParserState, lines: Seq<Seq<char>>, k: int)
    requires
        0 <= k <= lines.len(),
        scan_labels(st, lines.take(k)).1 is Some,
    ensures
        scan_labels(st, lines) == scan_labels(st, lines.take(k)),
    decreases lines.len(),
{
    if k == lines.len() {
        assert(lines.take(k) == lines);
    } else {
        assert(lines.drop_last().take(k) == lines.take(k));
        lemma_scan_labels_stops(st, lines.drop_last(), k);
    }
}

/// Once the second pass has rejected a line it reads no further.
pub proof fn lemma_encode_lines_stops(st: ParserState, lines: Seq<Seq<char>>, k: int)
    requires
        0 <= k <= lines.len(),
        encode_lines(st, lines.take(k)).2 is Some,
    ensures
        encode_lines(st, lines) == encode_lines(st, lines.take(k)),
    decreases lines.len(),
{
    if k == lines.len() {
        assert(lines.take(k) == lines);
    } else {
        assert(lines.drop_last().take(k) == lines.take(k));
        lemma_encode_lines_stops(st, lines.drop_last(), k);
    }
}

/// The assembler: a symbol table, and the path of the `.asm` file that its
/// caller reads the program from.
pub struct Assembler {
    symbol_table: SymbolTable,
    path: std::path::PathBuf,
}

impl Assembler {
    /// The symbols bound so far.
    pub closed spec fn symbols(&self) -> Map<Seq<char>, u16> {
        self.symbol_table@
    }

    /// The path that the assembler was made with.
    pub closed spec fn source_path(&self) -> std::path::PathBuf {
        self.path
    }

    /// The invariant of the assembler: its symbols are well formed.
    pub closed spec fn wf(&self) -> bool {
        self.symbol_table.wf()
    }

    /// A well-formed assembler holds well-formed symbols.
    pub proof fn lemma_wf(&self)
        requires
            self.wf(),
        ensures
            symbols_wf(self.symbols()),
    {
    }

    /// Creates a new Assembler, with no symbol bound.
    pub fn new(file_path: std::path::PathBuf) -> (assembler: Assembler)
        ensures
            assembler.wf(),
            assembler.symbols() == Map::<Seq<char>, u16>::empty(),
            assembler.source_path() == file_path,
    {
        Assembler { symbol_table: SymbolTable::new(), path: file_path }
    }

    /// Binds all the predefined symbols to their addresses: `R0` to `R15`,
    /// `SP`, `LCL`, `ARG`, `THIS`, `THAT`, `SCREEN` and `KBD`.
    pub fn initialize(&mut self)
        requires
            old(self).wf(),
        ensures
            final(self).wf(),
            final(self).symbols() == with_predefined(old(self).symbols()),
            final(self).source_path() == old(self).source_path(),
    {
        self.symbol_table.bind_predefined();
    }

    /// The path of the `.asm` file.
    pub fn path(&self) -> (path: &std::path::PathBuf)
        ensures
            *path == self.source_path(),
    {
        &self.path
    }

    /// The address bound to `name`, if any.
    pub fn lookup(&self, name: &str) -> (address: Option<u16>)
        ensures
            address == (if self.symbols().contains_key(name@) {
                Some(self.symbols()[name@])
            } else {
                None
            }),
    {
        self.symbol_table.get(name)
    }

    /// Assembles the program `lines` in two passes over it, and returns one
    /// line of sixteen binary digits for each of its instructions, in their
    /// order, or the first line that a pass rejects. The labels and the
    /// variables of the program stay bound.
    pub fn assemble(&mut self, lines: &Vec<String>) -> (r: Result<Vec<String>, AsmError>)
        requires
            old(self).wf(),
        ensures
            final(self).wf(),
            final(self).source_path() == old(self).source_path(),
            final(self).symbols() == assembled_symbols(old(self).symbols(), lines.deep_view()),
            match assembled_words(old(self).symbols(), lines.deep_view()) {
                Ok(words) => r matches Ok(out) && out.deep_view() == hack_lines(words),
                Err(error) => r matches Err(e) && e == error,
            },
    {
        let ghost source = lines.deep_view();
        let ghost start = initial_state(self.symbols());
        let mut table = SymbolTable::new();
        std::mem::swap(&mut self.symbol_table, &mut table);
        let mut parser = Parser::new(table);

        let mut i: usize = 0;
        proof {
            assert(source.take(0) == Seq::<Seq<char>>::empty());
        }
        while i < lines.len()
            invariant
                i <= lines.len(),
                source == lines.deep_view(),
                parser.wf(),
                self.wf(),
                self.source_path() == old(self).source_path(),
                start == initial_state(old(self).symbols()),
                scan_labels(start, source.take(i as int)) == (parser@, None::<AsmError>),
            decreases lines.len() - i,
        {
            proof {
                assert(source.take(i + 1).drop_last() == source.take(i as int));
                assert(source.take(i + 1).last() == lines[i as int]@);
            }
            match parser.parse_labels(lines[i].as_str()) {
                Ok(()) => {},
                Err(kind) => {
                    proof {
                        lemma_scan_labels_stops(start, source, i + 1);
                    }
                    self.symbol_table = parser.into_symbols();
                    return Err(AsmError { line: i + 1, kind });
                },
            }
            i += 1;
        }
        proof {
            assert(source.take(i as int) == source);
        }

        parser.reset_instruction_line();
        let ghost middle = parser@;
        let mut out: Vec<String> = Vec::new();
        let ghost mut words: Seq<u16> = Seq::empty();
        let mut j: usize = 0;
        proof {
            assert(source.take(0) == Seq::<Seq<char>>::empty());
        }
        while j < lines.len()
            invariant
                j <= lines.len(),
                source == lines.deep_view(),
                parser.wf(),
                self.wf(),
                self.source_path() == old(self).source_path(),
                scan_labels(initial_state(old(self).symbols()), source).1 is None,
                middle == labelled(old(self).symbols(), source),
                encode_lines(middle, source.take(j as int)) == (parser@, words, None::<AsmError>),
                out.deep_view() == hack_lines(words),
            decreases lines.len() - j,
        {
            proof {
                assert(source.take(j + 1).drop_last() == source.take(j as int));
                assert(source.take(j + 1).last() == lines[j as int]@);
            }
            match parser.parse_instructions(lines[j].as_str()) {
                Ok(Some(line)) => {
                    let ghost previous = out.deep_view();
                    out.push(line);
                    proof {
                        let word = encode_step(
                            encode_lines(middle, source.take(j as int)).0,
                            lines[j as int]@,
                        )->Ok_0.1->0;
                        assert(out.deep_view() == previous.push(line@));
                        words = words.push(word);
                        assert(out.deep_view() == hack_lines(words));
                    }
                },
                Ok(None) => {},
                Err(kind) => {
                    proof {
                        lemma_encode_lines_stops(middle, source, j + 1);
                    }
                    self.symbol_table = parser.into_symbols();
                    return Err(AsmError { line: j + 1, kind });
                },
            }
            j += 1;
        }
        proof {
            assert(source.take(j as int) == source);
        }
        self.symbol_table = parser.into_symbols();
        Ok(out)
    }
}

/// The text of a `.hack` file: the lines in their order, each closed by a
/// line feed and nothing else.
pub fn hack_file(lines: &Vec<String>) -> (text: String)
    ensures
        text@ == file_text(lines.deep_view()),
{
    let ghost all = lines.deep_view();
    let mut text = String::new();
    let mut i: usize = 0;
    proof {
        assert(all.take(0) == Seq::<Seq<char>>::empty());
    }
    while i < lines.len()
        invariant
            i <= lines.len(),
            all == lines.deep_view(),
            text@ == file_text(all.take(i as int)),
        decreases lines.len() - i,
    {
        text.append(lines[i].as_str());
        text.push('\n');
        proof {
            assert(all.take(i + 1).drop_last() == all.take(i as int));
            assert(all.take(i + 1).last() == lines[i as int]@);
        }
        i += 1;
    }
    proof {
        assert(all.take(i as int) == all);
    }
    text
}

} // verus!
