//! Characters and character sequences: whitespace, comments, decimal
//! numerals, binary numerals and identifiers.

use vstd::prelude::*;
use vstd::arithmetic::div_mod::{lemma_fundamental_div_mod, lemma_fundamental_div_mod_converse};
use vstd::arithmetic::power2::{lemma2_to64, lemma_pow2_pos, lemma_pow2_unfold, pow2};

verus! {

/// The characters with the Unicode property `White_Space`.
pub open spec fn whitespace(c: char) -> bool {
    ||| '\u{9}' <= c <= '\u{D}'
    ||| c == ' '
    ||| c == '\u{85}'
    ||| c == '\u{A0}'
    ||| c == '\u{1680}'
    ||| '\u{2000}' <= c <= '\u{200A}'
    ||| c == '\u{2028}'
    ||| c == '\u{2029}'
    ||| c == '\u{202F}'
    ||| c == '\u{205F}'
    ||| c == '\u{3000}'
}

/// Tells whether `c` is whitespace.
pub fn is_whitespace(c: char) -> (r: bool)
    ensures
        r == whitespace(c),
{
    ('\u{9}' <= c && c <= '\u{D}') || c == ' ' || c == '\u{85}' || c == '\u{A0}' || c
        == '\u{1680}' || ('\u{2000}' <= c && c <= '\u{200A}') || c == '\u{2028}' || c
        == '\u{2029}' || c == '\u{202F}' || c == '\u{205F}' || c == '\u{3000}'
}

/// One of the ten ASCII digits.
pub open spec fn digit(c: char) -> bool {
    '0' <= c <= '9'
}

/// The number that an ASCII digit stands for.
pub open spec fn digit_value(c: char) -> nat {
    (c as int - '0' as int) as nat
}

/// The ASCII digit that stands for `d`, for `d` below ten.
pub open spec fn digit_char(d: nat) -> char {
    (d + '0' as nat) as char
}

/// A decimal numeral: one or more ASCII digits.
pub open spec fn decimal(s: Seq<char>) -> bool {
    s.len() > 0 && forall|i: int| 0 <= i < s.len() ==> digit(#[trigger] s[i])
}

/// The number that a decimal numeral denotes, leading zeros allowed.
pub open spec fn decimal_value(s: Seq<char>) -> nat
    decreases s.len(),
{
    if s.len() == 0 {
        0
    } else {
        10 * decimal_value(s.drop_last()) + digit_value(s.last())
    }
}

/// The shortest decimal numeral that denotes `n`.
pub open spec fn decimal_text(n: nat) -> Seq<char>
    decreases n,
{
    if n < 10 {
        seq![digit_char(n)]
    } else {
        decimal_text(n / 10).push(digit_char(n % 10))
    }
}

/// The low `width` binary digits of `n`, most significant first.
pub open spec fn bits_text(n: nat, width: nat) -> Seq<char>
    decreases width,
{
    if width == 0 {
        Seq::empty()
    } else {
        bits_text(n / 2, (width - 1) as nat).push(if n % 2 == 1 { '1' } else { '0' })
    }
}

/// The number that a binary numeral denotes.
pub open spec fn binary_value(s: Seq<char>) -> nat
    decreases s.len(),
{
    if s.len() == 0 {
        0
    } else {
        2 * binary_value(s.drop_last()) + if s.last() == '1' {
            1nat
        } else {
            0nat
        }
    }
}

/// A character that may open a symbol: a letter or one of `_ . $ :`.
pub open spec fn symbol_start(c: char) -> bool {
    ||| 'A' <= c <= 'Z'
    ||| 'a' <= c <= 'z'
    ||| c == '_'
    ||| c == '.'
    ||| c == '$'
    ||| c == ':'
}

/// A character that may follow the first one of a symbol.
pub open spec fn symbol_char(c: char) -> bool {
    symbol_start(c) || digit(c)
}

/// A Hack identifier: `[A-Za-z_.$:][A-Za-z0-9_.$:]*`.
pub open spec fn identifier(s: Seq<char>) -> bool {
    &&& s.len() > 0
    &&& symbol_start(s[0])
    &&& forall|i: int| 0 <= i < s.len() ==> symbol_char(#[trigger] s[i])
}

/// The index of the first `c` in `s` at or after `from`, or `s.len()` where
/// there is none.
pub open spec fn position_from(s: Seq<char>, c: char, from: int) -> int
    decreases s.len() - from,
{
    if from >= s.len() {
        s.len() as int
    } else if s[from] == c {
        from
    } else {
        position_from(s, c, from + 1)
    }
}

/// The index of the first `c` in `s`, or `s.len()` where there is none.
pub open spec fn position(s: Seq<char>, c: char) -> int {
    position_from(s, c, 0)
}

/// Two slashes stand at `i` and `i + 1`.
pub open spec fn opens_comment(s: Seq<char>, i: int) -> bool {
    0 <= i && i + 1 < s.len() && s[i] == '/' && s[i + 1] == '/'
}

/// The index of the first `//` in `s` at or after `from`, or `s.len()`.
pub open spec fn comment_start_from(s: Seq<char>, from: int) -> int
    decreases s.len() - from,
{
    if from >= s.len() {
        s.len() as int
    } else if opens_comment(s, from) {
        from
    } else {
        comment_start_from(s, from + 1)
    }
}

/// The index at which the comment of a line begins: that of its first `//`,
/// or the length of the line where it has none.
pub open spec fn comment_start(s: Seq<char>) -> int {
    comment_start_from(s, 0)
}

/// The line without its comment.
pub open spec fn strip_comment(s: Seq<char>) -> Seq<char> {
    s.take(comment_start(s))
}

/// The test that keeps what is not whitespace.
pub open spec fn visible() -> spec_fn(char) -> bool {
    |c: char| !whitespace(c)
}

/// The line without its whitespace.
pub open spec fn squeeze(s: Seq<char>) -> Seq<char> {
    s.filter(visible())
}

/// A line of assembly as the assembler reads it: the comment is stripped
/// first, then all whitespace.
pub open spec fn normalized(raw: Seq<char>) -> Seq<char> {
    squeeze(strip_comment(raw))
}

/// The index of the first whitespace character in `s` at or after `from`,
/// or `s.len()` where there is none.
pub open spec fn next_blank(s: Seq<char>, from: int) -> int
    decreases s.len() - from,
{
    if from >= s.len() {
        s.len() as int
    } else if whitespace(s[from]) {
        from
    } else {
        next_blank(s, from + 1)
    }
}

/// The words of `s` that begin at or after `from`: the longest runs of
/// characters that are no whitespace, in their order.
pub open spec fn words_from(s: Seq<char>, from: int) -> Seq<Seq<char>>
    decreases s.len() - from,
    via words_from_decreases
{
    if from < 0 || from >= s.len() {
        Seq::empty()
    } else if whitespace(s[from]) {
        words_from(s, from + 1)
    } else {
        seq![s.subrange(from, next_blank(s, from))] + words_from(s, next_blank(s, from))
    }
}

#[via_fn]
proof fn words_from_decreases(s: Seq<char>, from: int) {
    if 0 <= from < s.len() && !whitespace(s[from]) {
        lemma_next_blank(s, from);
    }
}

/// The words of a line: what whitespace separates.
pub open spec fn words(s: Seq<char>) -> Seq<Seq<char>> {
    words_from(s, 0)
}

/// Where `next_blank` points: behind a run without whitespace, and at a
/// whitespace character unless it is the length of `s`.
pub proof fn lemma_next_blank(s: Seq<char>, from: int)
    requires
        0 <= from <= s.len(),
    ensures
        from <= next_blank(s, from) <= s.len(),
        forall|j: int| from <= j < next_blank(s, from) ==> !whitespace(s[j]),
        next_blank(s, from) < s.len() ==> whitespace(s[next_blank(s, from)]),
        from < s.len() && !whitespace(s[from]) ==> next_blank(s, from) > from,
    decreases s.len() - from,
{
    if from < s.len() && !whitespace(s[from]) {
        lemma_next_blank(s, from + 1);
    }
}

/// Where `position` points: no `c` before it, and a `c` at it unless it is
/// the length of `s`.
pub proof fn lemma_position(s: Seq<char>, c: char)
    ensures
        0 <= position(s, c) <= s.len(),
        forall|j: int| 0 <= j < position(s, c) ==> s[j] != c,
        position(s, c) < s.len() ==> s[position(s, c)] == c,
        position(s, c) < s.len() <==> s.contains(c),
{
    lemma_position_from(s, c, 0);
    if s.contains(c) {
        let j = choose|j: int| 0 <= j < s.len() && s[j] == c;
        assert(position(s, c) <= j);
    }
}

/// Where `position_from` points: no `c` between `from` and it, and a `c` at
/// it unless it is the length of `s`.
pub proof fn lemma_position_from(s: Seq<char>, c: char, from: int)
    requires
        0 <= from <= s.len(),
    ensures
        from <= position_from(s, c, from) <= s.len(),
        forall|j: int| from <= j < position_from(s, c, from) ==> s[j] != c,
        position_from(s, c, from) < s.len() ==> s[position_from(s, c, from)] == c,
    decreases s.len() - from,
{
    if from < s.len() && s[from] != c {
        lemma_position_from(s, c, from + 1);
    }
}

/// Where `comment_start` points: no `//` opens before it, and one opens at
/// it unless it is the length of `s`.
pub proof fn lemma_comment_start(s: Seq<char>)
    ensures
        0 <= comment_start(s) <= s.len(),
        forall|j: int| 0 <= j < comment_start(s) ==> !opens_comment(s, j),
        comment_start(s) < s.len() ==> opens_comment(s, comment_start(s)),
{
    lemma_comment_start_from(s, 0);
}

/// Where `comment_start_from` points.
proof fn lemma_comment_start_from(s: Seq<char>, from: int)
    requires
        0 <= from <= s.len(),
    ensures
        from <= comment_start_from(s, from) <= s.len(),
        forall|j: int| from <= j < comment_start_from(s, from) ==> !opens_comment(s, j),
        comment_start_from(s, from) < s.len() ==> opens_comment(
            s,
            comment_start_from(s, from),
        ),
    decreases s.len() - from,
{
    if from < s.len() && !opens_comment(s, from) {
        lemma_comment_start_from(s, from + 1);
    }
}

/// A line as the assembler reads it holds no whitespace.
pub proof fn lemma_normalized_visible(raw: Seq<char>)
    ensures
        forall|i: int| 0 <= i < normalized(raw).len() ==> !whitespace(#[trigger] normalized(raw)[i]),
{
    assert forall|i: int| 0 <= i < normalized(raw).len() implies !whitespace(
        #[trigger] normalized(raw)[i],
    ) by {
        strip_comment(raw).lemma_filter_pred(visible(), i);
    }
}

/// A text without whitespace reads the same once squeezed.
pub proof fn lemma_squeeze_plain(s: Seq<char>)
    requires
        forall|i: int| 0 <= i < s.len() ==> !whitespace(#[trigger] s[i]),
    ensures
        squeeze(s) == s,
    decreases s.len(),
{
    reveal(Seq::filter);
    if s.len() > 0 {
        lemma_squeeze_plain(s.drop_last());
        assert(s.drop_last().push(s.last()) == s);
    }
}

/// A text without whitespace and without a slash is a line as the
/// assembler reads it.
pub proof fn lemma_normalized_plain(s: Seq<char>)
    requires
        forall|i: int| 0 <= i < s.len() ==> !whitespace(#[trigger] s[i]) && s[i] != '/',
    ensures
        normalized(s) == s,
{
    lemma_comment_start(s);
    assert(comment_start(s) == s.len());
    assert(s.take(s.len() as int) == s);
    lemma_squeeze_plain(s);
}

/// The shortest numeral of a number is a decimal numeral.
pub proof fn lemma_decimal_text_digits(n: nat)
    ensures
        decimal(decimal_text(n)),
    decreases n,
{
    if n >= 10 {
        lemma_decimal_text_digits(n / 10);
    }
}

/// The shortest numeral of a number denotes that number.
pub proof fn lemma_decimal_text_value(n: nat)
    ensures
        decimal_value(decimal_text(n)) == n,
    decreases n,
{
    if n < 10 {
        let s = decimal_text(n);
        assert(s.drop_last() == Seq::<char>::empty());
        assert(decimal_value(s.drop_last()) == 0);
    } else {
        lemma_decimal_text_value(n / 10);
        assert(decimal_text(n).drop_last() == decimal_text(n / 10));
    }
}

/// Two numbers with the same shortest numeral are the same number.
pub proof fn lemma_decimal_text_injective(a: nat, b: nat)
    requires
        decimal_text(a) == decimal_text(b),
    ensures
        a == b,
{
    lemma_decimal_text_value(a);
    lemma_decimal_text_value(b);
}

/// The characters of a string slice.
pub fn chars_of(s: &str) -> (v: Vec<char>)
    ensures
        v@ == s@,
{
    broadcast use vstd::string::axiom_spec_iter;

    let mut v: Vec<char> = Vec::new();
    for c in it: s.chars()
        invariant
            it.seq() == s@,
            v@ == s@.take(it.index()),
    {
        v.push(c);
        proof {
            assert(s@.take(it.index() + 1) == s@.take(it.index()).push(s@[it.index()]));
        }
    }
    proof {
        assert(s@.take(s@.len() as int) == s@);
    }
    v
}

/// The string made of the characters `v[from..to]`.
pub(crate) fn text_of(v: &Vec<char>, from: usize, to: usize) -> (s: String)
    requires
        from <= to <= v.len(),
    ensures
        s@ == v@.subrange(from as int, to as int),
{
    let mut s = String::new();
    let mut i: usize = from;
    while i < to
        invariant
            from <= i <= to <= v.len(),
            s@ == v@.subrange(from as int, i as int),
        decreases to - i,
    {
        s.push(v[i]);
        proof {
            assert(v@.subrange(from as int, i + 1) == v@.subrange(from as int, i as int).push(
                v@[i as int],
            ));
        }
        i += 1;
    }
    s
}

/// Finds the first `c` at or after `from`.
pub(crate) fn find_char(v: &Vec<char>, c: char, from: usize) -> (k: usize)
    requires
        from <= v.len(),
    ensures
        k == position_from(v@, c, from as int),
        from <= k <= v.len(),
{
    let mut i: usize = from;
    while i < v.len() && v[i] != c
        invariant
            from <= i <= v.len(),
            position_from(v@, c, from as int) == position_from(v@, c, i as int),
        decreases v.len() - i,
    {
        i += 1;
    }
    i
}

/// Finds where the comment of a line begins.
pub(crate) fn find_comment(v: &Vec<char>) -> (k: usize)
    ensures
        k == comment_start(v@),
        k <= v.len(),
{
    let mut i: usize = 0;
    while i < v.len() && !(i + 1 < v.len() && v[i] == '/' && v[i + 1] == '/')
        invariant
            i <= v.len(),
            comment_start(v@) == comment_start_from(v@, i as int),
        decreases v.len() - i,
    {
        i += 1;
    }
    i
}

/// Strips the comment and all whitespace from a line.
pub fn normalize(raw: &str) -> (out: String)
    ensures
        out@ == normalized(raw@),
{
    let chars = chars_of(raw);
    let end = find_comment(&chars);
    let mut out = String::new();
    let mut i: usize = 0;
    proof {
        reveal(Seq::filter);
        assert(chars@.take(0).filter(visible()) == Seq::<char>::empty());
    }
    while i < end
        invariant
            i <= end <= chars.len(),
            out@ == chars@.take(i as int).filter(visible()),
        decreases end - i,
    {
        let c = chars[i];
        proof {
            reveal(Seq::filter);
            assert(chars@.take(i + 1).drop_last() == chars@.take(i as int));
        }
        if !is_whitespace(c) {
            out.push(c);
        }
        i += 1;
    }
    out
}

/// Finds the first whitespace character at or after `from`.
pub(crate) fn find_blank(v: &Vec<char>, from: usize) -> (k: usize)
    requires
        from <= v.len(),
    ensures
        k == next_blank(v@, from as int),
        from <= k <= v.len(),
{
    let mut i: usize = from;
    while i < v.len() && !is_whitespace(v[i])
        invariant
            from <= i <= v.len(),
            next_blank(v@, from as int) == next_blank(v@, i as int),
        decreases v.len() - i,
    {
        i += 1;
    }
    i
}

/// Splits a line into its words, its comment left out.
pub fn split_words(raw: &str) -> (tokens: Vec<String>)
    ensures
        tokens.deep_view() == words(strip_comment(raw@)),
{
    let mut line = chars_of(raw);
    let end = find_comment(&line);
    line.truncate(end);
    let ghost s = line@;
    assert(s == strip_comment(raw@));
    let mut tokens: Vec<String> = Vec::new();
    let mut i: usize = 0;
    proof {
        assert(tokens.deep_view() == Seq::<Seq<char>>::empty());
        assert(Seq::<Seq<char>>::empty() + words_from(s, 0) == words(s));
    }
    while i < line.len()
        invariant
            i <= line.len(),
            s == line@,
            words(s) == tokens.deep_view() + words_from(s, i as int),
        decreases line.len() - i,
    {
        if is_whitespace(line[i]) {
            i += 1;
        } else {
            proof {
                lemma_next_blank(s, i as int);
            }
            let stop = find_blank(&line, i);
            let word = text_of(&line, i, stop);
            let ghost before = tokens.deep_view();
            tokens.push(word);
            proof {
                assert(tokens.deep_view() == before.push(word@));
                assert(before.push(word@) + words_from(s, stop as int) == before + (seq![word@]
                    + words_from(s, stop as int)));
            }
            i = stop;
        }
    }
    proof {
        assert(tokens.deep_view() + Seq::<Seq<char>>::empty() == tokens.deep_view());
    }
    tokens
}

/// Tells whether two texts hold the same characters.
pub fn same_text(a: &str, b: &str) -> (r: bool)
    ensures
        r == (a@ == b@),
{
    let x = chars_of(a);
    let y = chars_of(b);
    if x.len() != y.len() {
        return false;
    }
    let mut i: usize = 0;
    while i < x.len()
        invariant
            i <= x.len(),
            x.len() == y.len(),
            x@ == a@,
            y@ == b@,
            forall|j: int| 0 <= j < i ==> x@[j] == y@[j],
        decreases x.len() - i,
    {
        if x[i] != y[i] {
            assert(a@[i as int] != b@[i as int]);
            return false;
        }
        i += 1;
    }
    assert(x@ =~= y@);
    true
}

/// Tells whether `v[from..to]` is a decimal numeral.
pub(crate) fn is_decimal(v: &Vec<char>, from: usize, to: usize) -> (r: bool)
    requires
        from <= to <= v.len(),
    ensures
        r == decimal(v@.subrange(from as int, to as int)),
{
    let ghost s = v@.subrange(from as int, to as int);
    if from == to {
        return false;
    }
    let mut i: usize = from;
    while i < to
        invariant
            from <= i <= to <= v.len(),
            s == v@.subrange(from as int, to as int),
            forall|j: int| 0 <= j < i - from ==> digit(#[trigger] s[j]),
        decreases to - i,
    {
        assert(s[i - from] == v@[i as int]);
        if !is_digit(v[i]) {
            return false;
        }
        i += 1;
    }
    true
}

/// Tells whether `c` is an ASCII digit.
pub fn is_digit(c: char) -> (r: bool)
    ensures
        r == digit(c),
{
    '0' <= c && c <= '9'
}

/// Tells whether `c` may open a symbol.
pub fn is_symbol_start(c: char) -> (r: bool)
    ensures
        r == symbol_start(c),
{
    ('A' <= c && c <= 'Z') || ('a' <= c && c <= 'z') || c == '_' || c == '.' || c == '$' || c
        == ':'
}

/// Tells whether `v[from..to]` is a Hack identifier.
pub(crate) fn is_identifier(v: &Vec<char>, from: usize, to: usize) -> (r: bool)
    requires
        from <= to <= v.len(),
    ensures
        r == identifier(v@.subrange(from as int, to as int)),
{
    let ghost s = v@.subrange(from as int, to as int);
    if from == to || !is_symbol_start(v[from]) {
        assert(from < to ==> s[0] == v@[from as int]);
        return false;
    }
    assert(s[0] == v@[from as int]);
    let mut i: usize = from;
    while i < to
        invariant
            from <= i <= to <= v.len(),
            s == v@.subrange(from as int, to as int),
            forall|j: int| 0 <= j < i - from ==> symbol_char(#[trigger] s[j]),
        decreases to - i,
    {
        let c = v[i];
        assert(s[i - from] == c);
        if !(is_symbol_start(c) || is_digit(c)) {
            return false;
        }
        i += 1;
    }
    true
}

/// Reads `v[from..to]` as a decimal numeral no greater than `limit`.
pub(crate) fn parse_decimal(v: &Vec<char>, from: usize, to: usize, limit: u16) -> (r: Option<u16>)
    requires
        from <= to <= v.len(),
    ensures
        r == ({
            let s = v@.subrange(from as int, to as int);
            if decimal(s) && decimal_value(s) <= limit {
                Some(decimal_value(s) as u16)
            } else {
                None
            }
        }),
{
    let ghost s = v@.subrange(from as int, to as int);
    if from == to {
        return None;
    }
    let mut acc: u32 = 0;
    let mut i: usize = from;
    let mut over: bool = false;
    proof {
        assert(s.take(0) == Seq::<char>::empty());
    }
    while i < to
        invariant
            from <= i <= to <= v.len(),
            s == v@.subrange(from as int, to as int),
            forall|j: int| 0 <= j < i - from ==> digit(#[trigger] s[j]),
            !over ==> acc == decimal_value(s.take(i - from)) && acc <= limit,
            over ==> decimal_value(s.take(i - from)) > limit,
        decreases to - i,
    {
        let c = v[i];
        assert(s[i - from] == c);
        if !is_digit(c) {
            return None;
        }
        proof {
            let t = s.take(i - from + 1);
            assert(t.drop_last() == s.take(i - from));
            assert(t.last() == c);
        }
        if !over {
            let next: u32 = acc * 10 + (c as u32 - '0' as u32);
            if next > limit as u32 {
                over = true;
            } else {
                acc = next;
            }
        }
        i += 1;
    }
    proof {
        assert(s.take(to - from) == s);
    }
    if over {
        None
    } else {
        Some(acc as u16)
    }
}

/// Appends the shortest decimal numeral of `n` to `out`.
pub fn push_decimal(out: &mut String, n: u64)
    ensures
        final(out)@ == old(out)@ + decimal_text(n as nat),
    decreases n,
{
    if n >= 10 {
        push_decimal(out, n / 10);
    }
    let d: u8 = (n % 10) as u8;
    out.push((d + 48) as char);
    proof {
        assert('0' as nat == 48);
        if n >= 10 {
            assert(old(out)@ + decimal_text(n as nat) == (old(out)@ + decimal_text(
                (n / 10) as nat,
            )).push(digit_char((n % 10) as nat)));
        } else {
            assert(old(out)@ + decimal_text(n as nat) == old(out)@.push(digit_char(n as nat)));
        }
    }
}

/// Appends the low `width` binary digits of `n` to `out`, most significant
/// first.
pub fn push_bits(out: &mut String, n: u16, width: u8)
    ensures
        final(out)@ == old(out)@ + bits_text(n as nat, width as nat),
    decreases width,
{
    if width > 0 {
        push_bits(out, n / 2, width - 1);
        out.push(if n % 2 == 1 { '1' } else { '0' });
        proof {
            assert(old(out)@ + bits_text(n as nat, width as nat) == (old(out)@ + bits_text(
                (n / 2) as nat,
                (width - 1) as nat,
            )).push(if n % 2 == 1 { '1' } else { '0' }));
        }
    } else {
        assert(old(out)@ + bits_text(n as nat, 0) == old(out)@);
    }
}

/// The sixteen binary digits of a machine word, most significant first.
pub fn format_bits(word: u16) -> (s: String)
    ensures
        s@ == bits_text(word as nat, 16),
{
    let mut s = String::new();
    push_bits(&mut s, word, 16);
    assert(Seq::<char>::empty() + bits_text(word as nat, 16) == bits_text(word as nat, 16));
    s
}

/// A binary numeral of `width` digits has `width` characters, each `0` or `1`.
pub proof fn lemma_bits_text_shape(n: nat, width: nat)
    ensures
        bits_text(n, width).len() == width,
        forall|i: int|
            0 <= i < width ==> #[trigger] bits_text(n, width)[i] == '0' || bits_text(
                n,
                width,
            )[i] == '1',
    decreases width,
{
    if width > 0 {
        lemma_bits_text_shape(n / 2, (width - 1) as nat);
    }
}

/// The binary numeral of `width` digits denotes `n` modulo two to the power
/// of `width`.
pub proof fn lemma_bits_text_value(n: nat, width: nat)
    ensures
        binary_value(bits_text(n, width)) == n % pow2(width),
    decreases width,
{
    if width == 0 {
        lemma2_to64();
    } else {
        let rest = (width - 1) as nat;
        let m = pow2(rest);
        lemma_bits_text_value(n / 2, rest);
        lemma_pow2_unfold(width);
        lemma_pow2_pos(rest);
        assert(bits_text(n, width).drop_last() == bits_text(n / 2, rest));
        let half = (n / 2) as int;
        lemma_fundamental_div_mod(half, m as int);
        assert(n == (half / (m as int)) * (2 * m) + (2 * (half % (m as int)) + n % 2))
            by (nonlinear_arith)
            requires
                half == n / 2,
                half == (m as int) * (half / (m as int)) + half % (m as int),
        ;
        lemma_fundamental_div_mod_converse(
            n as int,
            2 * (m as int),
            half / (m as int),
            2 * (half % (m as int)) + n % 2,
        );
    }
}

/// The line of a machine word denotes that word.
pub proof fn lemma_word_line_value(word: u16)
    ensures
        binary_value(bits_text(word as nat, 16)) == word,
{
    lemma_bits_text_value(word as nat, 16);
    lemma2_to64();
}

} // verus!
