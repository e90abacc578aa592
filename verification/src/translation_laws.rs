//! What holds of every translation of VM code: the label numbers only
//! grow, two comparisons never share a label, and the same source gives the
//! same assembly.

use vstd::prelude::*;
use crate::error::VmError;
use crate::generator::{
    compare_text, continue_label, echo, epilogue_text, fresh_state, next_file, program_text,
    return_label, translate_lines, translate_step, true_label, GeneratorState,
};
use crate::text::{lemma_decimal_text_injective, strip_comment, words};
use crate::vm::{command_of, CommandView};

verus! {

/// The jump on which a comparison branches, for the three comparisons.
pub open spec fn jump_of(command: CommandView) -> Option<Seq<char>> {
    match command {
        CommandView::Eq => Some("JEQ"@),
        CommandView::Gt => Some("JGT"@),
        CommandView::Lt => Some("JLT"@),
        _ => None,
    }
}

/// The line spells one of the comparisons `eq`, `gt` and `lt`.
pub open spec fn is_comparison(raw: Seq<char>) -> bool {
    command_of(words(strip_comment(raw))) matches Ok(command) && jump_of(command) is Some
}

/// The state in which the generator reads line `i` of `lines`.
pub open spec fn state_at(st: GeneratorState, lines: Seq<Seq<char>>, i: int) -> GeneratorState {
    translate_lines(st, lines.take(i)).0
}

/// A translation that reads all of `lines` without rejecting one has read
/// each of their prefixes without rejecting one.
pub proof fn lemma_translate_lines_prefix(st: GeneratorState, lines: Seq<Seq<char>>, k: int)
    requires
        0 <= k <= lines.len(),
        translate_lines(st, lines).2 is None,
    ensures
        translate_lines(st, lines.take(k)).2 is None,
    decreases lines.len(),
{
    if k == lines.len() {
        assert(lines.take(k) == lines);
    } else {
        assert(lines.drop_last().take(k) == lines.take(k));
        lemma_translate_lines_prefix(st, lines.drop_last(), k);
    }
}

/// No line makes the label counter smaller, and nothing but the counter
/// and the current function ever changes.
pub proof fn lemma_step_counter(st: GeneratorState, raw: Seq<char>)
    requires
        translate_step(st, raw) is Ok,
    ensures
        translate_step(st, raw)->Ok_0.0.counter >= st.counter,
        translate_step(st, raw)->Ok_0.0.stem == st.stem,
        is_comparison(raw) ==> translate_step(st, raw)->Ok_0.0.counter == st.counter + 1,
{
    reveal(translate_step);
}

/// **The label counter only grows.** Over any lines the generator ends
/// with a counter that is at least the one it began with.
pub proof fn lemma_counter_grows(st: GeneratorState, lines: Seq<Seq<char>>)
    ensures
        translate_lines(st, lines).0.counter >= st.counter,
        translate_lines(st, lines).0.stem == st.stem,
    decreases lines.len(),
{
    if lines.len() > 0 {
        lemma_counter_grows(st, lines.drop_last());
        let before = translate_lines(st, lines.drop_last());
        if before.2 is None && translate_step(before.0, lines.last()) is Ok {
            lemma_step_counter(before.0, lines.last());
        }
    }
}

/// The counter at a later line is at least the counter at an earlier one.
pub proof fn lemma_counter_monotonic(st: GeneratorState, lines: Seq<Seq<char>>, i: int, j: int)
    requires
        0 <= i <= j <= lines.len(),
    ensures
        state_at(st, lines, i).counter <= state_at(st, lines, j).counter,
    decreases j - i,
{
    if i < j {
        lemma_counter_monotonic(st, lines, i, j - 1);
        let upto = lines.take(j);
        assert(upto.drop_last() == lines.take(j - 1));
        let before = translate_lines(st, lines.take(j - 1));
        if before.2 is None && translate_step(before.0, upto.last()) is Ok {
            lemma_step_counter(before.0, upto.last());
        }
    }
}

/// Minted labels with different numbers are different symbols, and labels
/// of different kinds are different whatever their numbers.
pub proof fn lemma_minted_labels_differ(a: nat, b: nat)
    ensures
        a != b ==> true_label(a) != true_label(b),
        a != b ==> continue_label(a) != continue_label(b),
        a != b ==> return_label(a) != return_label(b),
        true_label(a) != continue_label(b),
        true_label(a) != return_label(b),
        continue_label(a) != return_label(b),
{
    reveal_strlit("TRUE.");
    reveal_strlit("CONTINUE.");
    reveal_strlit("RET.");
    let t = "TRUE."@;
    let c = "CONTINUE."@;
    let r = "RET."@;
    assert(true_label(a)[0] == 'T' && true_label(b)[0] == 'T');
    assert(continue_label(a)[0] == 'C' && continue_label(b)[0] == 'C');
    assert(return_label(a)[0] == 'R' && return_label(b)[0] == 'R');
    if a != b {
        if true_label(a) == true_label(b) {
            assert(true_label(a).skip(t.len() as int) == crate::text::decimal_text(a));
            assert(true_label(b).skip(t.len() as int) == crate::text::decimal_text(b));
            lemma_decimal_text_injective(a, b);
        }
        if continue_label(a) == continue_label(b) {
            assert(continue_label(a).skip(c.len() as int) == crate::text::decimal_text(a));
            assert(continue_label(b).skip(c.len() as int) == crate::text::decimal_text(b));
            lemma_decimal_text_injective(a, b);
        }
        if return_label(a) == return_label(b) {
            assert(return_label(a).skip(r.len() as int) == crate::text::decimal_text(a));
            assert(return_label(b).skip(r.len() as int) == crate::text::decimal_text(b));
            lemma_decimal_text_injective(a, b);
        }
    }
}

/// **No two comparisons share a label.** In a translation that rejects no
/// line, the comparison on line `i` writes its echo and the comparison
/// code with the labels numbered by the counter of that line, and a later
/// comparison on line `j` has a larger number: its two labels differ from
/// the two of line `i`.
pub proof fn lemma_comparison_labels_unique(
    st: GeneratorState,
    lines: Seq<Seq<char>>,
    i: int,
    j: int,
)
    requires
        translate_lines(st, lines).2 is None,
        0 <= i < j < lines.len(),
        is_comparison(lines[i]),
        is_comparison(lines[j]),
    ensures
        ({
            let first = state_at(st, lines, i).counter;
            let second = state_at(st, lines, j).counter;
            let tokens = words(strip_comment(lines[i]));
            &&& translate_step(state_at(st, lines, i), lines[i]) matches Ok((_, Some(text)))
            &&& text == echo(lines[i]) + compare_text(
                jump_of(command_of(tokens)->Ok_0)->0,
                first,
            )
            &&& first < second
            &&& true_label(first) != true_label(second)
            &&& continue_label(first) != continue_label(second)
            &&& true_label(first) != continue_label(second)
            &&& continue_label(first) != true_label(second)
        }),
{
    let first = state_at(st, lines, i).counter;
    let second = state_at(st, lines, j).counter;
    lemma_translate_lines_prefix(st, lines, i + 1);
    let upto = lines.take(i + 1);
    assert(upto.drop_last() == lines.take(i));
    assert(upto.last() == lines[i]);
    lemma_step_counter(state_at(st, lines, i), lines[i]);
    assert(state_at(st, lines, i + 1).counter == first + 1);
    lemma_counter_monotonic(st, lines, i + 1, j);
    lemma_minted_labels_differ(first, second);
    lemma_minted_labels_differ(second, first);
    reveal(translate_step);
}

/// **No two comparisons share a label across files.** Where a generator
/// has translated the lines `first` without rejecting one and goes on to
/// the file `stem` with the lines `second`, a comparison of the second file
/// has a larger number than any comparison of the first one: their labels
/// differ.
pub proof fn lemma_labels_unique_across_files(
    st: GeneratorState,
    first: Seq<Seq<char>>,
    stem: Seq<char>,
    second: Seq<Seq<char>>,
    i: int,
    j: int,
)
    requires
        translate_lines(st, first).2 is None,
        0 <= i < first.len(),
        is_comparison(first[i]),
        0 <= j < second.len(),
        is_comparison(second[j]),
    ensures
        ({
            let earlier = state_at(st, first, i).counter;
            let later = state_at(next_file(translate_lines(st, first).0, stem), second, j).counter;
            &&& earlier < later
            &&& true_label(earlier) != true_label(later)
            &&& continue_label(earlier) != continue_label(later)
            &&& true_label(earlier) != continue_label(later)
            &&& continue_label(earlier) != true_label(later)
        }),
{
    let earlier = state_at(st, first, i).counter;
    let middle = next_file(translate_lines(st, first).0, stem);
    let later = state_at(middle, second, j).counter;
    lemma_translate_lines_prefix(st, first, i + 1);
    let upto = first.take(i + 1);
    assert(upto.drop_last() == first.take(i));
    assert(upto.last() == first[i]);
    lemma_step_counter(state_at(st, first, i), first[i]);
    lemma_counter_monotonic(st, first, i + 1, first.len() as int);
    assert(first.take(first.len() as int) == first);
    lemma_counter_grows(middle, second.take(j));
    lemma_minted_labels_differ(earlier, later);
    lemma_minted_labels_differ(later, earlier);
}

/// **The same source gives the same assembly.** Two fresh generators for
/// the same stem translate the same lines alike: they write the same text
/// and end in the same state, or stop at the same line for the same reason.
/// So does the translation of a whole program.
pub proof fn lemma_translation_repeats(
    stem: Seq<char>,
    lines: Seq<Seq<char>>,
    first: GeneratorState,
    second: GeneratorState,
)
    requires
        first == fresh_state(stem),
        second == fresh_state(stem),
    ensures
        translate_lines(first, lines) == translate_lines(second, lines),
        program_text(stem, lines) == (if translate_lines(first, lines).2 is Some {
            Err::<Seq<char>, VmError>(translate_lines(second, lines).2->0)
        } else {
            Ok::<Seq<char>, VmError>(translate_lines(second, lines).1 + epilogue_text())
        }),
{
}

} // verus!
