//! The items whose contracts Verus takes on trust: they describe code that
//! lives outside this crate, in `std` and in the `regex` crate.

use vstd::prelude::*;
use crate::text::decimal;

verus! {

/// `String::push` appends one character to the end of the string and leaves
/// the characters before it untouched.
pub assume_specification[ String::push ](s: &mut String, ch: char)
    ensures
        final(s)@ == old(s)@.push(ch),
;

/// `std::path::PathBuf`, carried through as an opaque value.
#[verifier::external_type_specification]
#[verifier::external_body]
pub struct ExPathBuf(std::path::PathBuf);

/// The pattern of a decimal numeral.
pub open spec fn decimal_pattern() -> Seq<char> {
    "^[0-9]+$"@
}

/// The pattern of a C-instruction that names a destination.
pub open spec fn assignment_pattern() -> Seq<char> {
    "^.*?=.*?(;.)?$"@
}

/// Compiles `pattern` with `regex::Regex::new` and matches `text` against
/// it with `regex::Regex::is_match`, for the two patterns of this crate;
/// both compile. In the syntax of the `regex` crate `^` and `$` stand for
/// the two ends of the text, `[0-9]` for the ten ASCII digits and `.` for
/// every character but the line feed. So the first pattern matches exactly
/// the non-empty texts made of ASCII digits. In the second one the group
/// `(;.)?` may match nothing, so it matches exactly the texts that hold an
/// `=` and no line feed.
#[verifier::external_body]
pub(crate) fn pattern_matches(pattern: &str, text: &str) -> (r: bool)
    requires
        pattern@ == decimal_pattern() || pattern@ == assignment_pattern(),
    ensures
        pattern@ == decimal_pattern() ==> r == decimal(text@),
        pattern@ == assignment_pattern() ==> r == (text@.contains('=') && !text@.contains('\n')),
{
    regex::Regex::new(pattern).unwrap().is_match(text)
}

} // verus!
