//! The VM translator: it reads one command of the stack machine at a time
//! and writes the Hack assembly that carries it out.

use vstd::prelude::*;
use crate::error::VmErrorKind;
use crate::symbols::MAX_ADDRESS;
use crate::text::{
    chars_of, decimal, decimal_value, identifier, is_decimal, is_identifier, parse_decimal,
    same_text,
};

verus! {

/// The eight memory segments of the stack machine.
#[derive(Clone, Copy, Debug, PartialEq, Eq, Structural)]
pub enum Segment {
    Local,
    Argument,
    This,
    That,
    Temp,
    Pointer,
    Static,
    Constant,
}

/// A command of the stack machine.
#[derive(Debug, PartialEq, Eq)]
pub enum Command {
    Add,
    Sub,
    And,
    Or,
    Neg,
    Not,
    Eq,
    Gt,
    Lt,
    Push(Segment, u16),
    Pop(Segment, u16),
    Label(String),
    Goto(String),
    IfGoto(String),
    Function(String, u16),
    Call(String, u16),
    Return,
}

/// A command as contracts speak of it: the names are character sequences.
pub enum CommandView {
    Add,
    Sub,
    And,
    Or,
    Neg,
    Not,
    Eq,
    Gt,
    Lt,
    Push(Segment, u16),
    Pop(Segment, u16),
    Label(Seq<char>),
    Goto(Seq<char>),
    IfGoto(Seq<char>),
    Function(Seq<char>, u16),
    Call(Seq<char>, u16),
    Return,
}

impl View for Command {
    type V = CommandView;

    open spec fn view(&self) -> CommandView {
        match self {
            Command::Add => CommandView::Add,
            Command::Sub => CommandView::Sub,
            Command::And => CommandView::And,
            Command::Or => CommandView::Or,
            Command::Neg => CommandView::Neg,
            Command::Not => CommandView::Not,
            Command::Eq => CommandView::Eq,
            Command::Gt => CommandView::Gt,
            Command::Lt => CommandView::Lt,
            Command::Push(segment, index) => CommandView::Push(*segment, *index),
            Command::Pop(segment, index) => CommandView::Pop(*segment, *index),
            Command::Label(name) => CommandView::Label(name@),
            Command::Goto(name) => CommandView::Goto(name@),
            Command::IfGoto(name) => CommandView::IfGoto(name@),
            Command::Function(name, count) => CommandView::Function(name@, *count),
            Command::Call(name, count) => CommandView::Call(name@, *count),
            Command::Return => CommandView::Return,
        }
    }
}

/// The segment that a word names.
pub open spec fn segment_of(word: Seq<char>) -> Option<Segment> {
    if word == "local"@ {
        Some(Segment::Local)
    } else if word == "argument"@ {
        Some(Segment::Argument)
    } else if word == "this"@ {
        Some(Segment::This)
    } else if word == "that"@ {
        Some(Segment::That)
    } else if word == "temp"@ {
        Some(Segment::Temp)
    } else if word == "pointer"@ {
        Some(Segment::Pointer)
    } else if word == "static"@ {
        Some(Segment::Static)
    } else if word == "constant"@ {
        Some(Segment::Constant)
    } else {
        None
    }
}

/// The number that a word denotes: a decimal numeral of at most 32767.
pub open spec fn index_of(word: Seq<char>) -> Result<u16, VmErrorKind> {
    if !decimal(word) {
        Err(VmErrorKind::MalformedCommand)
    } else if decimal_value(word) > MAX_ADDRESS {
        Err(VmErrorKind::IndexOutOfRange)
    } else {
        Ok(decimal_value(word) as u16)
    }
}

/// A command that stands alone on its line.
pub open spec fn plain(tokens: Seq<Seq<char>>, command: CommandView) -> Result<
    CommandView,
    VmErrorKind,
> {
    if tokens.len() == 1 {
        Ok(command)
    } else {
        Err(VmErrorKind::MalformedCommand)
    }
}

/// The segment and the index of a `push` or a `pop`: the segment is looked
/// up first, then the index is read.
pub open spec fn place(tokens: Seq<Seq<char>>) -> Result<(Segment, u16), VmErrorKind> {
    if tokens.len() != 3 {
        Err(VmErrorKind::MalformedCommand)
    } else if segment_of(tokens[1]) is None {
        Err(VmErrorKind::UnknownSegment)
    } else {
        match index_of(tokens[2]) {
            Ok(index) => Ok((segment_of(tokens[1])->0, index)),
            Err(kind) => Err(kind),
        }
    }
}

/// The name that a branching command carries: an identifier.
pub open spec fn target(tokens: Seq<Seq<char>>) -> Result<Seq<char>, VmErrorKind> {
    if tokens.len() != 2 || !identifier(tokens[1]) {
        Err(VmErrorKind::MalformedCommand)
    } else {
        Ok(tokens[1])
    }
}

/// The name and the count of a `function` or a `call`.
pub open spec fn routine(tokens: Seq<Seq<char>>) -> Result<(Seq<char>, u16), VmErrorKind> {
    if tokens.len() != 3 || !identifier(tokens[1]) {
        Err(VmErrorKind::MalformedCommand)
    } else {
        match index_of(tokens[2]) {
            Ok(count) => Ok((tokens[1], count)),
            Err(kind) => Err(kind),
        }
    }
}

/// The command that the words of a line spell. The first word decides;
/// then the number and the shape of the arguments are checked.
pub open spec fn command_of(tokens: Seq<Seq<char>>) -> Result<CommandView, VmErrorKind> {
    if tokens.len() == 0 {
        Err(VmErrorKind::MalformedCommand)
    } else if tokens[0] == "add"@ {
        plain(tokens, CommandView::Add)
    } else if tokens[0] == "sub"@ {
        plain(tokens, CommandView::Sub)
    } else if tokens[0] == "and"@ {
        plain(tokens, CommandView::And)
    } else if tokens[0] == "or"@ {
        plain(tokens, CommandView::Or)
    } else if tokens[0] == "neg"@ {
        plain(tokens, CommandView::Neg)
    } else if tokens[0] == "not"@ {
        plain(tokens, CommandView::Not)
    } else if tokens[0] == "eq"@ {
        plain(tokens, CommandView::Eq)
    } else if tokens[0] == "gt"@ {
        plain(tokens, CommandView::Gt)
    } else if tokens[0] == "lt"@ {
        plain(tokens, CommandView::Lt)
    } else if tokens[0] == "return"@ {
        plain(tokens, CommandView::Return)
    } else if tokens[0] == "push"@ {
        match place(tokens) {
            Ok((segment, index)) => Ok(CommandView::Push(segment, index)),
            Err(kind) => Err(kind),
        }
    } else if tokens[0] == "pop"@ {
        match place(tokens) {
            Ok((segment, index)) => Ok(CommandView::Pop(segment, index)),
            Err(kind) => Err(kind),
        }
    } else if tokens[0] == "label"@ {
        match target(tokens) {
            Ok(name) => Ok(CommandView::Label(name)),
            Err(kind) => Err(kind),
        }
    } else if tokens[0] == "goto"@ {
        match target(tokens) {
            Ok(name) => Ok(CommandView::Goto(name)),
            Err(kind) => Err(kind),
        }
    } else if tokens[0] == "if-goto"@ {
        match target(tokens) {
            Ok(name) => Ok(CommandView::IfGoto(name)),
            Err(kind) => Err(kind),
        }
    } else if tokens[0] == "function"@ {
        match routine(tokens) {
            Ok((name, count)) => Ok(CommandView::Function(name, count)),
            Err(kind) => Err(kind),
        }
    } else if tokens[0] == "call"@ {
        match routine(tokens) {
            Ok((name, count)) => Ok(CommandView::Call(name, count)),
            Err(kind) => Err(kind),
        }
    } else {
        Err(VmErrorKind::UnknownCommand)
    }
}

/// Reads a word as an index.
pub fn parse_index(word: &str) -> (r: Result<u16, VmErrorKind>)
    ensures
        r == index_of(word@),
{
    let chars = chars_of(word);
    let len = chars.len();
    assert(chars@.subrange(0, len as int) == word@);
    if !is_decimal(&chars, 0, len) {
        return Err(VmErrorKind::MalformedCommand);
    }
    match parse_decimal(&chars, 0, len, MAX_ADDRESS) {
        Some(index) => Ok(index),
        None => Err(VmErrorKind::IndexOutOfRange),
    }
}

/// Tells whether a word is a Hack identifier.
pub fn is_name(word: &str) -> (r: bool)
    ensures
        r == identifier(word@),
{
    let chars = chars_of(word);
    assert(chars@.subrange(0, chars.len() as int) == word@);
    is_identifier(&chars, 0, chars.len())
}

/// Looks a segment up by its name.
pub fn parse_segment(word: &str) -> (r: Option<Segment>)
    ensures
        r == segment_of(word@),
{
    if same_text(word, "local") {
        Some(Segment::Local)
    } else if same_text(word, "argument") {
        Some(Segment::Argument)
    } else if same_text(word, "this") {
        Some(Segment::This)
    } else if same_text(word, "that") {
        Some(Segment::That)
    } else if same_text(word, "temp") {
        Some(Segment::Temp)
    } else if same_text(word, "pointer") {
        Some(Segment::Pointer)
    } else if same_text(word, "static") {
        Some(Segment::Static)
    } else if same_text(word, "constant") {
        Some(Segment::Constant)
    } else {
        None
    }
}

/// Reads a command that stands alone on its line.
fn parse_plain(tokens: &Vec<String>, command: Command) -> (r: Result<Command, VmErrorKind>)
    ensures
        match plain(tokens.deep_view(), command@) {
            Ok(c) => r matches Ok(parsed) && parsed@ == c,
            Err(kind) => r matches Err(k) && k == kind,
        },
{
    if tokens.len() == 1 {
        Ok(command)
    } else {
        Err(VmErrorKind::MalformedCommand)
    }
}

/// Reads the segment and the index of a `push` or a `pop`.
fn parse_place(tokens: &Vec<String>) -> (r: Result<(Segment, u16), VmErrorKind>)
    ensures
        r == place(tokens.deep_view()),
{
    if tokens.len() != 3 {
        return Err(VmErrorKind::MalformedCommand);
    }
    assert(tokens.deep_view()[1] == tokens[1]@);
    assert(tokens.deep_view()[2] == tokens[2]@);
    match parse_segment(tokens[1].as_str()) {
        None => Err(VmErrorKind::UnknownSegment),
        Some(segment) => match parse_index(tokens[2].as_str()) {
            Ok(index) => Ok((segment, index)),
            Err(kind) => Err(kind),
        },
    }
}

/// Reads the name that a branching command carries.
fn parse_target(tokens: &Vec<String>) -> (r: Result<String, VmErrorKind>)
    ensures
        match target(tokens.deep_view()) {
            Ok(name) => r matches Ok(n) && n@ == name,
            Err(kind) => r matches Err(k) && k == kind,
        },
{
    if tokens.len() != 2 {
        return Err(VmErrorKind::MalformedCommand);
    }
    assert(tokens.deep_view()[1] == tokens[1]@);
    if !is_name(tokens[1].as_str()) {
        return Err(VmErrorKind::MalformedCommand);
    }
    Ok(tokens[1].clone())
}

/// Reads the name and the count of a `function` or a `call`.
fn parse_routine(tokens: &Vec<String>) -> (r: Result<(String, u16), VmErrorKind>)
    ensures
        match routine(tokens.deep_view()) {
            Ok((name, count)) => r matches Ok((n, c)) && n@ == name && c == count,
            Err(kind) => r matches Err(k) && k == kind,
        },
{
    if tokens.len() != 3 {
        return Err(VmErrorKind::MalformedCommand);
    }
    assert(tokens.deep_view()[1] == tokens[1]@);
    assert(tokens.deep_view()[2] == tokens[2]@);
    if !is_name(tokens[1].as_str()) {
        return Err(VmErrorKind::MalformedCommand);
    }
    match parse_index(tokens[2].as_str()) {
        Ok(count) => Ok((tokens[1].clone(), count)),
        Err(kind) => Err(kind),
    }
}

/// Reads the words of a line as a command.
pub fn parse_command(tokens: &Vec<String>) -> (r: Result<Command, VmErrorKind>)
    ensures
        match command_of(tokens.deep_view()) {
            Ok(command) => r matches Ok(parsed) && parsed@ == command,
            Err(kind) => r matches Err(k) && k == kind,
        },
{
    if tokens.len() == 0 {
        return Err(VmErrorKind::MalformedCommand);
    }
    assert(tokens.deep_view()[0] == tokens[0]@);
    let command = tokens[0].as_str();
    if same_text(command, "add") {
        parse_plain(tokens, Command::Add)
    } else if same_text(command, "sub") {
        parse_plain(tokens, Command::Sub)
    } else if same_text(command, "and") {
        parse_plain(tokens, Command::And)
    } else if same_text(command, "or") {
        parse_plain(tokens, Command::Or)
    } else if same_text(command, "neg") {
        parse_plain(tokens, Command::Neg)
    } else if same_text(command, "not") {
        parse_plain(tokens, Command::Not)
    } else if same_text(command, "eq") {
        parse_plain(tokens, Command::Eq)
    } else if same_text(command, "gt") {
        parse_plain(tokens, Command::Gt)
    } else if same_text(command, "lt") {
        parse_plain(tokens, Command::Lt)
    } else if same_text(command, "return") {
        parse_plain(tokens, Command::Return)
    } else if same_text(command, "push") {
        match parse_place(tokens) {
            Ok((segment, index)) => Ok(Command::Push(segment, index)),
            Err(kind) => Err(kind),
        }
    } else if same_text(command, "pop") {
        match parse_place(tokens) {
            Ok((segment, index)) => Ok(Command::Pop(segment, index)),
            Err(kind) => Err(kind),
        }
    } else if same_text(command, "label") {
        match parse_target(tokens) {
            Ok(name) => Ok(Command::Label(name)),
            Err(kind) => Err(kind),
        }
    } else if same_text(command, "goto") {
        match parse_target(tokens) {
            Ok(name) => Ok(Command::Goto(name)),
            Err(kind) => Err(kind),
        }
    } else if same_text(command, "if-goto") {
        match parse_target(tokens) {
            Ok(name) => Ok(Command::IfGoto(name)),
            Err(kind) => Err(kind),
        }
    } else if same_text(command, "function") {
        match parse_routine(tokens) {
            Ok((name, count)) => Ok(Command::Function(name, count)),
            Err(kind) => Err(kind),
        }
    } else if same_text(command, "call") {
        match parse_routine(tokens) {
            Ok((name, count)) => Ok(Command::Call(name, count)),
            Err(kind) => Err(kind),
        }
    } else {
        Err(VmErrorKind::UnknownCommand)
    }
}

} // verus!
