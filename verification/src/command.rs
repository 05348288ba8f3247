//! The abstract syntax of the command language.

use crate::position::BTreePosition;
use crate::text::{is_token, CharClass};
use vstd::prelude::*;

verus! {

/// How an update changes a field: `=` sets it, `+=` adds to it.
#[derive(Clone, Copy, Debug, PartialEq, Eq, Structural)]
pub enum UpdateOperator {
    /// `=`: the field takes the value.
    Assign,
    /// `+=`: the value is added to the field.
    Add,
}

/// `dump <btree> <position>`: show the key at a position.
#[derive(Debug, PartialEq, Eq)]
pub struct DumpCommand {
    pub btree_name: String,
    pub position: BTreePosition,
}

/// `update <btree> <position> <key type>.<field><operator><value>`: change
/// one field of the key at a position.
#[derive(Debug, PartialEq, Eq)]
pub struct UpdateCommand {
    pub btree_name: String,
    pub position: BTreePosition,
    /// The name of the key type as it was written, prefix included.
    pub key_type_name: String,
    pub field_path: String,
    pub operator: UpdateOperator,
    pub value: u64,
}

/// A command of the debugger.
#[derive(Debug, PartialEq, Eq)]
pub enum Command {
    Dump(DumpCommand),
    Update(UpdateCommand),
}

/// Why a line is no command.
#[derive(Debug, PartialEq, Eq)]
pub enum ParseError {
    /// The line starts with a keyword but does not follow its form.
    /// `remainder` is the rest of the line from the place where the form
    /// is broken: from the element that is missing or out of range, or from
    /// the first character behind a complete command.
    Syntax { remainder: String },
    /// The line starts with no keyword of the language.
    UnknownCommand { line: String },
}

/// A dump command with its name as a sequence of characters.
pub struct DumpCommandView {
    pub btree_name: Seq<char>,
    pub position: BTreePosition,
}

/// An update command with its names as sequences of characters.
pub struct UpdateCommandView {
    pub btree_name: Seq<char>,
    pub position: BTreePosition,
    pub key_type_name: Seq<char>,
    pub field_path: Seq<char>,
    pub operator: UpdateOperator,
    pub value: u64,
}

/// A command as contracts speak of it.
pub enum CommandView {
    Dump(DumpCommandView),
    Update(UpdateCommandView),
}

/// A parse error as contracts speak of it.
pub enum ParseErrorView {
    Syntax { remainder: Seq<char> },
    UnknownCommand { line: Seq<char> },
}

impl View for DumpCommand {
    type V = DumpCommandView;

    open spec fn view(&self) -> DumpCommandView {
        DumpCommandView { btree_name: self.btree_name@, position: self.position }
    }
}

impl View for UpdateCommand {
    type V = UpdateCommandView;

    open spec fn view(&self) -> UpdateCommandView {
        UpdateCommandView {
            btree_name: self.btree_name@,
            position: self.position,
            key_type_name: self.key_type_name@,
            field_path: self.field_path@,
            operator: self.operator,
            value: self.value,
        }
    }
}

impl View for Command {
    type V = CommandView;

    open spec fn view(&self) -> CommandView {
        match self {
            Command::Dump(dump) => CommandView::Dump(dump@),
            Command::Update(update) => CommandView::Update(update@),
        }
    }
}

impl View for ParseError {
    type V = ParseErrorView;

    open spec fn view(&self) -> ParseErrorView {
        match self {
            ParseError::Syntax { remainder } => ParseErrorView::Syntax { remainder: remainder@ },
            ParseError::UnknownCommand { line } => ParseErrorView::UnknownCommand { line: line@ },
        }
    }
}

impl CommandView {
    /// Whether the names of the command are tokens of the grammar: the
    /// B-tree letters, the key type letters, digits and `_`, the field path
    /// those and `.`, and none of them empty.
    pub open spec fn well_formed(self) -> bool {
        match self {
            CommandView::Dump(dump) => is_token(dump.btree_name, CharClass::Letter),
            CommandView::Update(update) => {
                &&& is_token(update.btree_name, CharClass::Letter)
                &&& is_token(update.key_type_name, CharClass::Word)
                &&& is_token(update.field_path, CharClass::Path)
            },
        }
    }
}

impl ParseErrorView {
    /// The text that tells the user what is wrong with the line.
    pub open spec fn message_text(self) -> Seq<char> {
        match self {
            ParseErrorView::Syntax { remainder } => "syntax error at '"@ + remainder + "'"@,
            ParseErrorView::UnknownCommand { line } => "unknown command '"@ + line + "'"@,
        }
    }
}

impl ParseError {
    /// Renders the error for the user.
    pub fn message(&self) -> (text: String)
        ensures
            text@ == self@.message_text(),
    {
        match self {
            ParseError::Syntax { remainder } => {
                let mut text = String::from_str("syntax error at '");
                text.append(remainder.as_str());
                text.append("'");
                text
            },
            ParseError::UnknownCommand { line } => {
                let mut text = String::from_str("unknown command '");
                text.append(line.as_str());
                text.append("'");
                text
            },
        }
    }
}

} // verus!
