//! What holds of every program that the assembler accepts: one word for
//! each instruction, labels that stand for the instruction behind them, and
//! variables numbered in the order in which they are first named.

use vstd::prelude::*;
use crate::assembler::{
    assembled_symbols, assembled_words, encode_lines, hack_lines, labelled, scan_labels,
};
use crate::error::AsmErrorKind;
use crate::parser::{
    encode_step, initial_state, is_instruction, label_name, line_kind, state_wf, LineKind,
    ParserState,
};
use crate::symbols::{symbols_wf, FIRST_VARIABLE};
use crate::text::{bits_text, decimal, identifier, lemma_bits_text_shape, normalized};

verus! {

/// The number of real instructions among `lines`: those that are neither
/// blank nor a label.
pub open spec fn instruction_count(lines: Seq<Seq<char>>) -> nat
    decreases lines.len(),
{
    if lines.len() == 0 {
        0
    } else {
        instruction_count(lines.drop_last()) + if is_instruction(lines.last()) {
            1nat
        } else {
            0nat
        }
    }
}

/// The symbol that the A-instruction `raw` names.
pub open spec fn referenced_symbol(raw: Seq<char>) -> Seq<char> {
    normalized(raw).skip(1)
}

/// The line `raw` names a symbol that is neither bound in `known` nor among
/// `seen`.
pub open spec fn names_new_symbol(
    known: Map<Seq<char>, u16>,
    seen: Seq<Seq<char>>,
    raw: Seq<char>,
) -> bool {
    &&& line_kind(raw) == LineKind::Address
    &&& identifier(referenced_symbol(raw))
    &&& !known.contains_key(referenced_symbol(raw))
    &&& !seen.contains(referenced_symbol(raw))
}

/// The symbols that `lines` name and `known` does not bind, each once, in
/// the order in which they are first named.
pub open spec fn new_symbols(known: Map<Seq<char>, u16>, lines: Seq<Seq<char>>) -> Seq<Seq<char>>
    decreases lines.len(),
{
    if lines.len() == 0 {
        Seq::empty()
    } else {
        let seen = new_symbols(known, lines.drop_last());
        if names_new_symbol(known, seen, lines.last()) {
            seen.push(referenced_symbol(lines.last()))
        } else {
            seen
        }
    }
}

/// An identifier is no decimal numeral.
pub proof fn lemma_identifier_not_decimal(s: Seq<char>)
    requires
        identifier(s),
    ensures
        !decimal(s),
{
    assert(!crate::text::digit(s[0]));
}

/// A pass that reads all of `lines` without rejecting one has read each of
/// their prefixes without rejecting one.
pub proof fn lemma_scan_labels_prefix(st: ParserState, lines: Seq<Seq<char>>, k: int)
    requires
        0 <= k <= lines.len(),
        scan_labels(st, lines).1 is None,
    ensures
        scan_labels(st, lines.take(k)).1 is None,
    decreases lines.len(),
{
    if k == lines.len() {
        assert(lines.take(k) == lines);
    } else {
        assert(lines.drop_last().take(k) == lines.take(k));
        lemma_scan_labels_prefix(st, lines.drop_last(), k);
    }
}

/// The first pass counts the instructions: it ends at the ROM address at
/// which it began plus the number of instructions read, and it touches
/// neither the variables nor, where it rejects nothing, the bounds of the
/// state.
pub proof fn lemma_scan_labels_counts(st: ParserState, lines: Seq<Seq<char>>)
    requires
        state_wf(st),
        scan_labels(st, lines).1 is None,
    ensures
        scan_labels(st, lines).0.rom_address == st.rom_address + instruction_count(lines),
        scan_labels(st, lines).0.next_variable == st.next_variable,
        state_wf(scan_labels(st, lines).0),
    decreases lines.len(),
{
    if lines.len() > 0 {
        lemma_scan_labels_counts(st, lines.drop_last());
    }
}

/// After a first pass that rejects nothing, the label declared on line `i`
/// is bound to the ROM address of the instruction that follows it.
pub proof fn lemma_scan_labels_binds(st: ParserState, lines: Seq<Seq<char>>, i: int)
    requires
        state_wf(st),
        scan_labels(st, lines).1 is None,
        0 <= i < lines.len(),
        line_kind(lines[i]) == LineKind::Label,
    ensures
        scan_labels(st, lines).0.symbols.contains_key(label_name(normalized(lines[i]))),
        scan_labels(st, lines).0.symbols[label_name(normalized(lines[i]))] == st.rom_address
            + instruction_count(lines.take(i)),
    decreases lines.len(),
{
    let rest = lines.drop_last();
    if i == lines.len() - 1 {
        assert(lines.take(i) == rest);
        lemma_scan_labels_counts(st, rest);
    } else {
        assert(rest.take(i) == lines.take(i));
        assert(rest[i] == lines[i]);
        lemma_scan_labels_binds(st, rest, i);
    }
}

/// A second pass that reads all of `lines` without rejecting one has read
/// each of their prefixes without rejecting one, and has emitted the words
/// of the prefix first.
pub proof fn lemma_encode_lines_prefix(st: ParserState, lines: Seq<Seq<char>>, k: int)
    requires
        0 <= k <= lines.len(),
        encode_lines(st, lines).2 is None,
    ensures
        encode_lines(st, lines.take(k)).2 is None,
        encode_lines(st, lines.take(k)).1.len() <= encode_lines(st, lines).1.len(),
        encode_lines(st, lines.take(k)).1 == encode_lines(st, lines).1.take(
            encode_lines(st, lines.take(k)).1.len() as int,
        ),
    decreases lines.len(),
{
    if k == lines.len() {
        assert(lines.take(k) == lines);
        assert(encode_lines(st, lines).1.take(encode_lines(st, lines).1.len() as int)
            == encode_lines(st, lines).1);
    } else {
        assert(lines.drop_last().take(k) == lines.take(k));
        lemma_encode_lines_prefix(st, lines.drop_last(), k);
        let shorter = encode_lines(st, lines.drop_last()).1;
        let prefix = encode_lines(st, lines.take(k)).1;
        assert(prefix == encode_lines(st, lines).1.take(prefix.len() as int)) by {
            assert(shorter.take(prefix.len() as int) == encode_lines(st, lines).1.take(
                prefix.len() as int,
            ));
        }
    }
}

/// The second pass emits one word for each instruction, and moves the ROM
/// address on by as many.
pub proof fn lemma_encode_lines_counts(st: ParserState, lines: Seq<Seq<char>>)
    requires
        encode_lines(st, lines).2 is None,
    ensures
        encode_lines(st, lines).1.len() == instruction_count(lines),
        encode_lines(st, lines).0.rom_address == st.rom_address + instruction_count(lines),
    decreases lines.len(),
{
    if lines.len() > 0 {
        lemma_encode_lines_counts(st, lines.drop_last());
    }
}

/// The second pass binds nothing anew that was bound before it: each
/// symbol of its first state keeps its address, whether a line is rejected
/// or not.
pub proof fn lemma_encode_lines_keeps(st: ParserState, lines: Seq<Seq<char>>, name: Seq<char>)
    requires
        st.symbols.contains_key(name),
    ensures
        encode_lines(st, lines).0.symbols.contains_key(name),
        encode_lines(st, lines).0.symbols[name] == st.symbols[name],
    decreases lines.len(),
{
    if lines.len() > 0 {
        lemma_encode_lines_keeps(st, lines.drop_last(), name);
    }
}

/// In a second pass that rejects nothing, the A-instruction on line `j`
/// that names a symbol bound before the pass emits the address of that
/// symbol, as the word of its own ROM address.
pub proof fn lemma_encode_lines_resolves(st: ParserState, lines: Seq<Seq<char>>, j: int)
    requires
        encode_lines(st, lines).2 is None,
        0 <= j < lines.len(),
        line_kind(lines[j]) == LineKind::Address,
        identifier(referenced_symbol(lines[j])),
        st.symbols.contains_key(referenced_symbol(lines[j])),
    ensures
        instruction_count(lines.take(j)) < encode_lines(st, lines).1.len(),
        encode_lines(st, lines).1[instruction_count(lines.take(j)) as int]
            == st.symbols[referenced_symbol(lines[j])],
{
    let name = referenced_symbol(lines[j]);
    let head = lines.take(j);
    let upto = lines.take(j + 1);
    lemma_encode_lines_prefix(st, lines, j + 1);
    assert(upto.drop_last() == head);
    assert(upto.last() == lines[j]);
    lemma_encode_lines_counts(st, head);
    lemma_encode_lines_keeps(st, head, name);
    lemma_identifier_not_decimal(name);
    let before = encode_lines(st, head);
    assert(encode_lines(st, upto).1 == before.1.push(st.symbols[name]));
    assert(encode_lines(st, upto).1[before.1.len() as int] == st.symbols[name]);
}

/// **An instruction gives one line, anything else none.** In the second
/// pass a blank line and a label emit nothing and leave the state as it
/// was; an instruction that is not rejected emits exactly one word, whose
/// line is made of sixteen binary digits.
pub proof fn lemma_line_output(st: ParserState, raw: Seq<char>)
    ensures
        !is_instruction(raw) ==> encode_step(st, raw) == Ok::<
            (ParserState, Option<u16>),
            AsmErrorKind,
        >((st, None)),
        is_instruction(raw) && encode_step(st, raw) is Ok ==> {
            let line = bits_text(encode_step(st, raw)->Ok_0.1->0 as nat, 16);
            &&& encode_step(st, raw)->Ok_0.1 is Some
            &&& line.len() == 16
            &&& forall|b: int| 0 <= b < 16 ==> #[trigger] line[b] == '0' || line[b] == '1'
        },
{
    if is_instruction(raw) && encode_step(st, raw) is Ok {
        lemma_bits_text_shape(encode_step(st, raw)->Ok_0.1->0 as nat, 16);
    }
}

/// **The words stand in the order of their instructions.** In a second
/// pass that rejects nothing, the instruction on line `j` emits the word
/// whose index is the number of instructions above it.
pub proof fn lemma_words_in_order(st: ParserState, lines: Seq<Seq<char>>, j: int)
    requires
        encode_lines(st, lines).2 is None,
        0 <= j < lines.len(),
        is_instruction(lines[j]),
    ensures
        instruction_count(lines.take(j)) < encode_lines(st, lines).1.len(),
        encode_step(encode_lines(st, lines.take(j)).0, lines[j]) matches Ok((_, Some(word)))
            && encode_lines(st, lines).1[instruction_count(lines.take(j)) as int] == word,
{
    let head = lines.take(j);
    let upto = lines.take(j + 1);
    lemma_encode_lines_prefix(st, lines, j + 1);
    assert(upto.drop_last() == head);
    assert(upto.last() == lines[j]);
    lemma_encode_lines_counts(st, head);
    let before = encode_lines(st, head);
    let word = encode_step(before.0, lines[j])->Ok_0.1->0;
    assert(encode_lines(st, upto).1 == before.1.push(word));
    assert(encode_lines(st, upto).1[before.1.len() as int] == word);
}

/// **One word for each instruction.** A program that the assembler accepts
/// yields as many lines as it has real instructions (blank lines, comments
/// and labels yield none), and each line is made of sixteen binary digits.
pub proof fn lemma_one_line_per_instruction(table: Map<Seq<char>, u16>, lines: Seq<Seq<char>>)
    requires
        assembled_words(table, lines) is Ok,
    ensures
        hack_lines(assembled_words(table, lines)->Ok_0).len() == instruction_count(lines),
        forall|i: int|
            0 <= i < instruction_count(lines) ==> {
                let line = #[trigger] hack_lines(assembled_words(table, lines)->Ok_0)[i];
                line.len() == 16 && forall|b: int|
                    0 <= b < 16 ==> #[trigger] line[b] == '0' || line[b] == '1'
            },
{
    let words = assembled_words(table, lines)->Ok_0;
    lemma_encode_lines_counts(labelled(table, lines), lines);
    assert forall|i: int| 0 <= i < instruction_count(lines) implies {
        let line = #[trigger] hack_lines(words)[i];
        line.len() == 16 && forall|b: int|
            0 <= b < 16 ==> #[trigger] line[b] == '0' || line[b] == '1'
    } by {
        lemma_bits_text_shape(words[i] as nat, 16);
    }
}

/// **Labels stand for the instruction behind them.** In a program that the
/// assembler accepts, an A-instruction on line `j` that names the label
/// declared on line `i`, before or behind it, emits the number of real
/// instructions above line `i`: the ROM address of the instruction that
/// follows the label.
pub proof fn lemma_label_reference(
    table: Map<Seq<char>, u16>,
    lines: Seq<Seq<char>>,
    i: int,
    j: int,
)
    requires
        symbols_wf(table),
        assembled_words(table, lines) is Ok,
        0 <= i < lines.len(),
        line_kind(lines[i]) == LineKind::Label,
        0 <= j < lines.len(),
        line_kind(lines[j]) == LineKind::Address,
        referenced_symbol(lines[j]) == label_name(normalized(lines[i])),
    ensures
        instruction_count(lines.take(j)) < instruction_count(lines),
        assembled_words(table, lines)->Ok_0[instruction_count(lines.take(j)) as int]
            == instruction_count(lines.take(i)),
        assembled_symbols(table, lines)[label_name(normalized(lines[i]))] == instruction_count(
            lines.take(i),
        ),
{
    let start = initial_state(table);
    let middle = labelled(table, lines);
    let name = label_name(normalized(lines[i]));
    lemma_scan_labels_binds(start, lines, i);
    lemma_scan_labels_prefix(start, lines, i + 1);
    assert(lines.take(i + 1).drop_last() == lines.take(i));
    assert(lines.take(i + 1).last() == lines[i]);
    assert(identifier(name));
    lemma_encode_lines_resolves(middle, lines, j);
    lemma_encode_lines_counts(middle, lines);
    lemma_encode_lines_keeps(middle, lines, name);
}

/// What the second pass keeps true of the variables: from a state `st`, a
/// pass that rejects nothing binds the new symbols of `lines`, in the order
/// in which they are first named, to the addresses from `st.next_variable`
/// upward, and ends with the next free address behind them.
pub proof fn lemma_encode_lines_allocates(st: ParserState, lines: Seq<Seq<char>>)
    requires
        encode_lines(st, lines).2 is None,
    ensures
        encode_lines(st, lines).0.next_variable == st.next_variable + new_symbols(
            st.symbols,
            lines,
        ).len(),
        forall|name: Seq<char>|
            encode_lines(st, lines).0.symbols.contains_key(name) <==> st.symbols.contains_key(name)
                || new_symbols(st.symbols, lines).contains(name),
        forall|k: int|
            0 <= k < new_symbols(st.symbols, lines).len() ==> encode_lines(
                st,
                lines,
            ).0.symbols[#[trigger] new_symbols(st.symbols, lines)[k]] == st.next_variable + k,
        new_symbols(st.symbols, lines).no_duplicates(),
    decreases lines.len(),
{
    if lines.len() > 0 {
        let rest = lines.drop_last();
        let raw = lines.last();
        lemma_encode_lines_allocates(st, rest);
        let before = encode_lines(st, rest).0;
        let seen = new_symbols(st.symbols, rest);
        let after = encode_lines(st, lines).0;
        let all = new_symbols(st.symbols, lines);
        let name = referenced_symbol(raw);
        if line_kind(raw) == LineKind::Address && identifier(name) {
            lemma_identifier_not_decimal(name);
        }
        if names_new_symbol(st.symbols, seen, raw) {
            assert(!before.symbols.contains_key(name));
            assert(all == seen.push(name));
            assert(after.symbols == before.symbols.insert(name, before.next_variable as u16));
            assert forall|n: Seq<char>| after.symbols.contains_key(n) <==> st.symbols.contains_key(
                n,
            ) || all.contains(n) by {
                assert(before.symbols.contains_key(n) <==> st.symbols.contains_key(n)
                    || seen.contains(n));
                assert(after.symbols.contains_key(n) <==> n == name || before.symbols.contains_key(
                    n,
                ));
                assert(all.contains(n) <==> n == name || seen.contains(n)) by {
                    assert(all[seen.len() as int] == name);
                    if all.contains(n) {
                        let k = choose|k: int| 0 <= k < all.len() && all[k] == n;
                        if k < seen.len() {
                            assert(seen[k] == n);
                        }
                    }
                    if seen.contains(n) {
                        let k = choose|k: int| 0 <= k < seen.len() && seen[k] == n;
                        assert(all[k] == n);
                    }
                }
            }
            assert forall|k: int| 0 <= k < all.len() implies after.symbols[#[trigger] all[k]]
                == st.next_variable + k by {
                if k < seen.len() {
                    assert(all[k] == seen[k]);
                    assert(seen.contains(seen[k]));
                }
            }
        } else {
            assert(all == seen);
            assert(after.symbols == before.symbols);
        }
    }
}

/// **Variables are numbered in the order of their first use.** In a program
/// that the assembler accepts, the symbols that are neither predefined nor
/// declared as labels get the addresses 16, 17, 18, … in the order in which
/// the program first names them, and no other symbol is bound.
pub proof fn lemma_variables_in_order(table: Map<Seq<char>, u16>, lines: Seq<Seq<char>>)
    requires
        symbols_wf(table),
        assembled_words(table, lines) is Ok,
    ensures
        ({
            let known = labelled(table, lines).symbols;
            let variables = new_symbols(known, lines);
            &&& variables.no_duplicates()
            &&& forall|k: int|
                0 <= k < variables.len() ==> assembled_symbols(table, lines)[#[trigger] variables[k]]
                    == FIRST_VARIABLE + k
            &&& forall|name: Seq<char>|
                assembled_symbols(table, lines).contains_key(name) <==> known.contains_key(name)
                    || variables.contains(name)
        }),
{
    lemma_scan_labels_counts(initial_state(table), lines);
    lemma_encode_lines_allocates(labelled(table, lines), lines);
}

} // verus!
