//! What the two pipelines report when a source line cannot be translated.

use vstd::prelude::*;

verus! {

/// The reasons for which the assembler rejects a line.
#[derive(Clone, Copy, Debug, PartialEq, Eq, Structural)]
pub enum AsmErrorKind {
    /// The part before `=` is no destination mnemonic.
    UnknownDest,
    /// The computation part is no computation mnemonic.
    UnknownComp,
    /// The part after `;` is no jump mnemonic.
    UnknownJump,
    /// Nothing follows `=` or `;`, a label lacks its closing parenthesis, or
    /// a symbol is no identifier.
    MalformedLine,
    /// A constant or an address is above 32767, or the variables have
    /// reached the screen map.
    AddressOverflow,
    /// A label is declared for a symbol that is bound already.
    DuplicateLabel,
}

/// A rejected line of assembly: its number, counted from one, and the reason.
#[derive(Clone, Copy, Debug, PartialEq, Eq, Structural)]
pub struct AsmError {
    pub line: usize,
    pub kind: AsmErrorKind,
}

/// The reasons for which the VM translator rejects a line.
#[derive(Clone, Copy, Debug, PartialEq, Eq, Structural)]
pub enum VmErrorKind {
    /// The first word is no VM command.
    UnknownCommand,
    /// The segment of a `push` or `pop` is none of the eight segments.
    UnknownSegment,
    /// The command has too few or too many arguments, an index that is no
    /// decimal numeral, or a name that is no identifier.
    MalformedCommand,
    /// The index is outside its segment, or too large for an address.
    IndexOutOfRange,
    /// A `pop` names the `constant` segment.
    PopConstant,
    /// The label counter cannot grow any further.
    LabelOverflow,
}

/// A rejected line of VM code: its number, counted from one, and the reason.
#[derive(Clone, Copy, Debug, PartialEq, Eq, Structural)]
pub struct VmError {
    pub line: usize,
    pub kind: VmErrorKind,
}

} // verus!
