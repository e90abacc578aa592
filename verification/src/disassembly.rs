//! A reference disassembler, as a specification, and the law that ties it
//! to the assembler: what the assembler emits can be written back as
//! assembly, and that assembly assembles to the very same words.

use vstd::prelude::*;
use crate::assembler::{assembled_words, encode_lines, labelled, scan_labels};
use crate::assembly_laws::lemma_encode_lines_counts;
use crate::code::{c_word, comp_table, dest_table, jump_table, lemma_code_ranges, lookup, shape};
use crate::error::AsmError;
use crate::parser::{
    comp_bits, comp_end, comp_part, comp_start, compute_word, dest_bits, dest_part, encode_step,
    has_dest, has_jump, initial_state, is_instruction, jump_bits, jump_part, label_step, state_wf,
    ParserState,
};
use crate::symbols::{symbols_wf, MAX_ADDRESS};
use crate::text::{
    decimal_text, lemma_decimal_text_digits, lemma_decimal_text_value, lemma_normalized_plain,
    lemma_position, lemma_position_from, normalized, position, whitespace,
};

verus! {

/// The mnemonic of the destination bits `bits`, which are not all zero.
pub open spec fn dest_mnemonic(bits: u16) -> Seq<char> {
    if bits == 1 {
        "M"@
    } else if bits == 2 {
        "D"@
    } else if bits == 3 {
        "DM"@
    } else if bits == 4 {
        "A"@
    } else if bits == 5 {
        "AM"@
    } else if bits == 6 {
        "AD"@
    } else {
        "ADM"@
    }
}

/// The mnemonic of the jump bits `bits`, which are not all zero.
pub open spec fn jump_mnemonic(bits: u16) -> Seq<char> {
    if bits == 1 {
        "JGT"@
    } else if bits == 2 {
        "JEQ"@
    } else if bits == 3 {
        "JGE"@
    } else if bits == 4 {
        "JLT"@
    } else if bits == 5 {
        "JNE"@
    } else if bits == 6 {
        "JLE"@
    } else {
        "JMP"@
    }
}

/// The mnemonic of the computation bits `bits`, where they stand for a
/// computation of the Hack machine.
pub open spec fn comp_mnemonic(bits: u16) -> Option<Seq<char>> {
    if bits == 0b0101010 {
        Some("0"@)
    } else if bits == 0b0111111 {
        Some("1"@)
    } else if bits == 0b0111010 {
        Some("-1"@)
    } else if bits == 0b0001100 {
        Some("D"@)
    } else if bits == 0b0110000 {
        Some("A"@)
    } else if bits == 0b0001101 {
        Some("!D"@)
    } else if bits == 0b0110001 {
        Some("!A"@)
    } else if bits == 0b0001111 {
        Some("-D"@)
    } else if bits == 0b0110011 {
        Some("-A"@)
    } else if bits == 0b0011111 {
        Some("D+1"@)
    } else if bits == 0b0110111 {
        Some("A+1"@)
    } else if bits == 0b0001110 {
        Some("D-1"@)
    } else if bits == 0b0110010 {
        Some("A-1"@)
    } else if bits == 0b0000010 {
        Some("D+A"@)
    } else if bits == 0b0010011 {
        Some("D-A"@)
    } else if bits == 0b0000111 {
        Some("A-D"@)
    } else if bits == 0b0000000 {
        Some("D&A"@)
    } else if bits == 0b0010101 {
        Some("D|A"@)
    } else if bits == 0b1110000 {
        Some("M"@)
    } else if bits == 0b1110001 {
        Some("!M"@)
    } else if bits == 0b1110011 {
        Some("-M"@)
    } else if bits == 0b1110111 {
        Some("M+1"@)
    } else if bits == 0b1110010 {
        Some("M-1"@)
    } else if bits == 0b1000010 {
        Some("D+M"@)
    } else if bits == 0b1010011 {
        Some("D-M"@)
    } else if bits == 0b1000111 {
        Some("M-D"@)
    } else if bits == 0b1000000 {
        Some("D&M"@)
    } else if bits == 0b1010101 {
        Some("D|M"@)
    } else {
        None
    }
}

/// The destination of a C-instruction as it is written: nothing where no
/// register is named, else the mnemonic and `=`.
pub open spec fn dest_prefix(bits: u16) -> Seq<char> {
    if bits == 0 {
        Seq::empty()
    } else {
        dest_mnemonic(bits) + seq!['=']
    }
}

/// The jump of a C-instruction as it is written: nothing where it never
/// jumps, else `;` and the mnemonic.
pub open spec fn jump_suffix(bits: u16) -> Seq<char> {
    if bits == 0 {
        Seq::empty()
    } else {
        seq![';'] + jump_mnemonic(bits)
    }
}

/// The computation field of a machine word.
pub open spec fn comp_field(word: u16) -> u16 {
    ((word / 64) % 128) as u16
}

/// The destination field of a machine word.
pub open spec fn dest_field(word: u16) -> u16 {
    ((word / 8) % 8) as u16
}

/// The jump field of a machine word.
pub open spec fn jump_field(word: u16) -> u16 {
    (word % 8) as u16
}

/// The assembly of a machine word: `@` and the value for a word below
/// 32768; `dest=comp;jump`, with the parts that are zero left out, for a
/// word that begins with `111` and holds a computation of the Hack
/// machine; nothing for any other word.
pub open spec fn disassembled(word: u16) -> Option<Seq<char>> {
    if word <= MAX_ADDRESS {
        Some(seq!['@'] + decimal_text(word as nat))
    } else if word < 57344 {
        None
    } else {
        match comp_mnemonic(comp_field(word)) {
            Some(comp) => Some(dest_prefix(dest_field(word)) + comp + jump_suffix(jump_field(word))),
            None => None,
        }
    }
}

/// The assembly of each of `words`, one line for each.
pub open spec fn disassembled_lines(words: Seq<u16>) -> Seq<Seq<char>> {
    Seq::new(words.len(), |i: int| disassembled(words[i])->0)
}

/// A mnemonic as the disassembler writes it: not empty, and free of the
/// characters that part a line (`=`, `;`, `/`, `(`, `@`, whitespace).
pub open spec fn solid(m: Seq<char>) -> bool {
    &&& m.len() > 0
    &&& forall|i: int|
        0 <= i < m.len() ==> {
            let c = #[trigger] m[i];
            c != '=' && c != ';' && c != '/' && c != '(' && c != '@' && !whitespace(c)
        }
}

/// A destination mnemonic is solid and stands for its bits.
proof fn lemma_dest_mnemonics(bits: u16)
    requires
        1 <= bits < 8,
    ensures
        solid(dest_mnemonic(bits)),
        lookup(dest_table(), dest_mnemonic(bits)) == Some(bits),
{
    reveal_strlit("null");
    reveal_strlit("M");
    reveal_strlit("D");
    reveal_strlit("DM");
    reveal_strlit("MD");
    reveal_strlit("A");
    reveal_strlit("AM");
    reveal_strlit("MA");
    reveal_strlit("AD");
    reveal_strlit("DA");
    reveal_strlit("ADM");
    reveal_strlit("AMD");
    reveal_strlit("DAM");
    reveal_strlit("DMA");
    reveal_strlit("MAD");
    reveal_strlit("MDA");
    let shapes = seq![
        shape("null"@),
        shape("M"@),
        shape("D"@),
        shape("DM"@),
        shape("MD"@),
        shape("A"@),
        shape("AM"@),
        shape("MA"@),
        shape("AD"@),
        shape("DA"@),
        shape("ADM"@),
        shape("AMD"@),
        shape("DAM"@),
        shape("DMA"@),
        shape("MAD"@),
        shape("MDA"@),
    ];
}

/// A jump mnemonic is solid and stands for its bits.
proof fn lemma_jump_mnemonics(bits: u16)
    requires
        1 <= bits < 8,
    ensures
        solid(jump_mnemonic(bits)),
        lookup(jump_table(), jump_mnemonic(bits)) == Some(bits),
{
    reveal_strlit("null");
    reveal_strlit("JGT");
    reveal_strlit("JEQ");
    reveal_strlit("JGE");
    reveal_strlit("JLT");
    reveal_strlit("JNE");
    reveal_strlit("JLE");
    reveal_strlit("JMP");
    let shapes = seq![
        shape("null"@),
        shape("JGT"@),
        shape("JEQ"@),
        shape("JGE"@),
        shape("JLT"@),
        shape("JNE"@),
        shape("JLE"@),
        shape("JMP"@),
    ];
}

/// A computation mnemonic is solid and stands for its bits.
proof fn lemma_comp_mnemonics(bits: u16)
    requires
        comp_mnemonic(bits) is Some,
    ensures
        solid(comp_mnemonic(bits)->0),
        lookup(comp_table(), comp_mnemonic(bits)->0) == Some(bits),
{
    reveal_strlit("0");
    reveal_strlit("1");
    reveal_strlit("-1");
    reveal_strlit("D");
    reveal_strlit("A");
    reveal_strlit("!D");
    reveal_strlit("!A");
    reveal_strlit("-D");
    reveal_strlit("-A");
    reveal_strlit("D+1");
    reveal_strlit("A+1");
    reveal_strlit("D-1");
    reveal_strlit("A-1");
    reveal_strlit("D+A");
    reveal_strlit("D-A");
    reveal_strlit("A-D");
    reveal_strlit("D&A");
    reveal_strlit("D|A");
    reveal_strlit("M");
    reveal_strlit("!M");
    reveal_strlit("-M");
    reveal_strlit("M+1");
    reveal_strlit("M-1");
    reveal_strlit("D+M");
    reveal_strlit("D-M");
    reveal_strlit("M-D");
    reveal_strlit("D&M");
    reveal_strlit("D|M");
    let shapes = seq![
        shape("0"@),
        shape("1"@),
        shape("-1"@),
        shape("D"@),
        shape("A"@),
        shape("!D"@),
        shape("!A"@),
        shape("-D"@),
        shape("-A"@),
        shape("D+1"@),
        shape("A+1"@),
        shape("D-1"@),
        shape("A-1"@),
        shape("D+A"@),
        shape("D-A"@),
        shape("A-D"@),
        shape("D&A"@),
        shape("D|A"@),
        shape("M"@),
        shape("!M"@),
        shape("-M"@),
        shape("M+1"@),
        shape("M-1"@),
        shape("D+M"@),
        shape("D-M"@),
        shape("M-D"@),
        shape("D&M"@),
        shape("D|M"@),
    ];
}

/// Every entry of the computation table has a mnemonic to be written
/// back with.
proof fn lemma_comp_table_known(key: Seq<char>)
    requires
        comp_table().contains_key(key),
    ensures
        comp_mnemonic(comp_table()[key]) is Some,
{
}

/// A C-instruction as it is written: the destination and `=` where one is
/// named, the computation, `;` and the jump where one is named.
pub open spec fn written(dest: Option<Seq<char>>, comp: Seq<char>, jump: Option<Seq<char>>) -> Seq<
    char,
> {
    (match dest {
        Some(m) => m + seq!['='],
        None => Seq::empty(),
    }) + comp + (match jump {
        Some(m) => seq![';'] + m,
        None => Seq::empty(),
    })
}

/// A written C-instruction is read back into the parts that it was
/// written from.
proof fn lemma_written_parts(dest: Option<Seq<char>>, comp: Seq<char>, jump: Option<Seq<char>>)
    requires
        dest matches Some(m) ==> solid(m),
        solid(comp),
        jump matches Some(m) ==> solid(m),
    ensures
        ({
            let text = written(dest, comp, jump);
            &&& text.len() > 0
            &&& text[0] != '('
            &&& text[0] != '@'
            &&& normalized(text) == text
            &&& has_dest(text) == (dest is Some)
            &&& dest is Some ==> dest_part(text) == dest->0
            &&& comp_part(text) == comp
            &&& comp_start(text) < text.len()
            &&& has_jump(text) == (jump is Some)
            &&& jump is Some ==> jump_part(text) == jump->0 && comp_end(text) + 1 < text.len()
        }),
{
    let text = written(dest, comp, jump);
    let head: Seq<char> = match dest {
        Some(m) => m + seq!['='],
        None => Seq::empty(),
    };
    let tail: Seq<char> = match jump {
        Some(m) => seq![';'] + m,
        None => Seq::empty(),
    };
    let start = head.len() as int;
    let end = start + comp.len();
    assert(text == head + comp + tail);
    assert(text.len() == head.len() + comp.len() + tail.len());
    assert forall|i: int| 0 <= i < text.len() implies !whitespace(#[trigger] text[i]) && text[i]
        != '/' by {
        if i < start {
            if i < start - 1 {
                assert(text[i] == dest->0[i]);
            } else {
                assert(text[i] == '=');
            }
        } else if i < end {
            assert(text[i] == comp[i - start]);
        } else if i == end {
            assert(text[i] == ';');
        } else {
            assert(text[i] == jump->0[i - end - 1]);
        }
    }
    lemma_normalized_plain(text);
    assert(!text.contains('\n')) by {
        if text.contains('\n') {
            let i = choose|i: int| 0 <= i < text.len() && text[i] == '\n';
            assert(whitespace(text[i]));
        }
    }
    lemma_position(text, '=');
    assert forall|i: int| start <= i < end implies text[i] != '=' && text[i] != ';' by {
        assert(text[i] == comp[i - start]);
    }
    assert forall|i: int| end < i < text.len() implies text[i] != '=' by {
        assert(text[i] == jump->0[i - end - 1]);
    }
    if dest is Some {
        let m = dest->0;
        assert(text[m.len() as int] == '=');
        assert forall|i: int| 0 <= i < m.len() implies text[i] != '=' by {
            assert(text[i] == m[i]);
        }
        assert(position(text, '=') == m.len());
        assert(text[0] == m[0]);
        assert(dest_part(text) == m);
    } else {
        assert(text[0] == comp[0]);
        if text.contains('=') {
            let i = choose|i: int| 0 <= i < text.len() && text[i] == '=';
            if i == end {
                assert(text[i] == ';');
            }
        }
    }
    assert(comp_start(text) == start);
    lemma_position_from(text, ';', start);
    if jump is Some {
        assert(text[end] == ';');
        assert(comp_end(text) == end);
        assert(jump_part(text) == jump->0);
    } else {
        assert(comp_end(text) == text.len());
    }
    assert(comp_part(text) == comp);
}

/// The three fields of a C-instruction make up its word, and the word
/// gives them back.
proof fn lemma_fields(word: u16)
    requires
        word >= 57344,
    ensures
        comp_field(word) < 128,
        dest_field(word) < 8,
        jump_field(word) < 8,
        c_word(comp_field(word), dest_field(word), jump_field(word)) == word,
{
}

/// The fields of a word that is packed from three fields are those three.
proof fn lemma_fields_of_c_word(comp: u16, dest: u16, jump: u16)
    requires
        comp < 128,
        dest < 8,
        jump < 8,
    ensures
        c_word(comp, dest, jump) >= 57344,
        comp_field(c_word(comp, dest, jump)) == comp,
        dest_field(c_word(comp, dest, jump)) == dest,
        jump_field(c_word(comp, dest, jump)) == jump,
{
}

/// **A disassembled word assembles to itself.** Where a word has an
/// assembly, the assembler reads that assembly as one instruction, in any
/// state in which the ROM is not full, encodes it as the same word and
/// binds no symbol.
pub proof fn lemma_reassembled_word(st: ParserState, word: u16)
    requires
        disassembled(word) is Some,
        st.rom_address <= MAX_ADDRESS,
    ensures
        is_instruction(disassembled(word)->0),
        encode_step(st, disassembled(word)->0) == Ok::<
            (ParserState, Option<u16>),
            crate::error::AsmErrorKind,
        >((ParserState { rom_address: st.rom_address + 1, ..st }, Some(word))),
        label_step(st, disassembled(word)->0) == Ok::<ParserState, crate::error::AsmErrorKind>(
            ParserState { rom_address: st.rom_address + 1, ..st },
        ),
{
    let text = disassembled(word)->0;
    if word <= MAX_ADDRESS {
        let digits = decimal_text(word as nat);
        lemma_decimal_text_digits(word as nat);
        lemma_decimal_text_value(word as nat);
        assert(text[0] == '@');
        assert forall|i: int| 0 <= i < text.len() implies !whitespace(#[trigger] text[i])
            && text[i] != '/' by {
            if i > 0 {
                assert(text[i] == digits[i - 1]);
            }
        }
        lemma_normalized_plain(text);
        assert(text.skip(1) == digits);
    } else {
        lemma_fields(word);
        let comp = comp_mnemonic(comp_field(word))->0;
        let dest = if dest_field(word) == 0 {
            None
        } else {
            Some(dest_mnemonic(dest_field(word)))
        };
        let jump = if jump_field(word) == 0 {
            None
        } else {
            Some(jump_mnemonic(jump_field(word)))
        };
        lemma_comp_mnemonics(comp_field(word));
        if dest is Some {
            lemma_dest_mnemonics(dest_field(word));
        }
        if jump is Some {
            lemma_jump_mnemonics(jump_field(word));
        }
        assert(text == written(dest, comp, jump));
        lemma_written_parts(dest, comp, jump);
        assert(compute_word(text) == Ok::<u16, crate::error::AsmErrorKind>(word));
    }
}

/// **What the assembler emits can be disassembled.** Every word that the
/// second pass emits from a well-formed state has an assembly.
pub proof fn lemma_emitted_word_known(st: ParserState, raw: Seq<char>)
    requires
        state_wf(st),
        encode_step(st, raw) matches Ok((_, Some(_))),
    ensures
        disassembled(encode_step(st, raw)->Ok_0.1->0) is Some,
{
    let s = normalized(raw);
    let word = encode_step(st, raw)->Ok_0.1->0;
    if s[0] == '@' {
        assert(word <= MAX_ADDRESS);
    } else {
        lemma_code_ranges();
        let comp = comp_bits(s)->0;
        let dest = dest_bits(s)->0;
        let jump = jump_bits(s)->0;
        lemma_comp_table_known(comp_part(s));
        lemma_fields_of_c_word(comp, dest, jump);
    }
}

/// A second pass that rejects nothing keeps the bounds of the state, and
/// every word that it emits has an assembly.
pub proof fn lemma_encode_lines_known(st: ParserState, lines: Seq<Seq<char>>)
    requires
        state_wf(st),
        encode_lines(st, lines).2 is None,
    ensures
        state_wf(encode_lines(st, lines).0),
        forall|i: int|
            0 <= i < encode_lines(st, lines).1.len() ==> disassembled(
                #[trigger] encode_lines(st, lines).1[i],
            ) is Some,
    decreases lines.len(),
{
    if lines.len() > 0 {
        lemma_encode_lines_known(st, lines.drop_last());
        let before = encode_lines(st, lines.drop_last());
        if encode_step(before.0, lines.last()) matches Ok((_, Some(_))) {
            lemma_emitted_word_known(before.0, lines.last());
        }
    }
}

/// Both passes over the assembly of the first `n` of `words`: each line
/// counts as one instruction, binds nothing and is encoded as the word
/// that it was written from.
proof fn lemma_reassembled_prefix(st: ParserState, words: Seq<u16>, n: int)
    requires
        forall|i: int| 0 <= i < words.len() ==> disassembled(#[trigger] words[i]) is Some,
        0 <= n <= words.len(),
        st.rom_address + n <= MAX_ADDRESS + 1,
    ensures
        scan_labels(st, disassembled_lines(words).take(n)) == (
            ParserState { rom_address: (st.rom_address + n) as nat, ..st },
            None::<AsmError>,
        ),
        encode_lines(st, disassembled_lines(words).take(n)) == (
            ParserState { rom_address: (st.rom_address + n) as nat, ..st },
            words.take(n),
            None::<AsmError>,
        ),
    decreases n,
{
    let lines = disassembled_lines(words).take(n);
    if n == 0 {
        assert(words.take(0) == Seq::<u16>::empty());
    } else {
        lemma_reassembled_prefix(st, words, n - 1);
        assert(lines.drop_last() == disassembled_lines(words).take(n - 1));
        assert(lines.last() == disassembled(words[n - 1])->0);
        let before = ParserState { rom_address: (st.rom_address + n - 1) as nat, ..st };
        lemma_reassembled_word(before, words[n - 1]);
        assert(words.take(n - 1).push(words[n - 1]) == words.take(n));
    }
}

/// **Assembling, disassembling and assembling again changes nothing.**
/// The words of a program that the assembler accepts can all be written
/// back as assembly, one line for each word, and that assembly assembles,
/// on any symbols, to the very same words.
pub proof fn lemma_round_trip(
    table: Map<Seq<char>, u16>,
    lines: Seq<Seq<char>>,
    other: Map<Seq<char>, u16>,
)
    requires
        symbols_wf(table),
        assembled_words(table, lines) is Ok,
    ensures
        forall|i: int|
            0 <= i < assembled_words(table, lines)->Ok_0.len() ==> disassembled(
                #[trigger] assembled_words(table, lines)->Ok_0[i],
            ) is Some,
        assembled_words(other, disassembled_lines(assembled_words(table, lines)->Ok_0))
            == assembled_words(table, lines),
{
    let words = assembled_words(table, lines)->Ok_0;
    let middle = labelled(table, lines);
    crate::assembly_laws::lemma_scan_labels_counts(initial_state(table), lines);
    lemma_encode_lines_known(middle, lines);
    lemma_encode_lines_counts(middle, lines);
    let again = disassembled_lines(words);
    assert(again.take(words.len() as int) == again);
    assert(words.take(words.len() as int) == words);
    lemma_reassembled_prefix(initial_state(other), words, words.len() as int);
    lemma_reassembled_prefix(labelled(other, again), words, words.len() as int);
}

} // verus!
