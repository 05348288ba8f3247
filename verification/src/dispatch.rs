//! From a command to what has to be done for it: an operation of the
//! storage engine, or a report to the user.
//!
//! Nothing here touches the engine. The caller carries the instruction out.

use crate::catalog::Catalog;
use crate::command::{
    Command, CommandView, DumpCommand, DumpCommandView, ParseErrorView, UpdateCommand,
    UpdateCommandView,
};
use crate::parser::{command_of, parse_command};
use crate::position::BTreePosition;
use crate::resolver::{
    resolution, resolve, FieldResolutionError, FieldResolutionErrorView, ResolvedUpdate, Stream,
};
use vstd::prelude::*;

verus! {

/// What the caller has to do for a command.
#[derive(Debug, PartialEq, Eq)]
pub enum Instruction {
    /// Call the engine's dump operation.
    DumpKey { btree_id: u32, position: BTreePosition },
    /// Call the engine's update operation.
    UpdateKey(ResolvedUpdate),
    /// Print `text` and a line break on `stream`; the engine is not called.
    Report { stream: Stream, text: String },
}

/// An instruction as contracts speak of it.
pub enum InstructionView {
    DumpKey { btree_id: u32, position: BTreePosition },
    UpdateKey(ResolvedUpdate),
    Report { stream: Stream, text: Seq<char> },
}

impl View for Instruction {
    type V = InstructionView;

    open spec fn view(&self) -> InstructionView {
        match self {
            Instruction::DumpKey { btree_id, position } => InstructionView::DumpKey {
                btree_id: *btree_id,
                position: *position,
            },
            Instruction::UpdateKey(resolved) => InstructionView::UpdateKey(*resolved),
            Instruction::Report { stream, text } => InstructionView::Report {
                stream: *stream,
                text: text@,
            },
        }
    }
}

/// What became of a line: the instruction for it, and a status that is 0
/// where the line was a command and 1 where it was not.
#[derive(Debug, PartialEq, Eq)]
pub struct CommandOutcome {
    pub status: i32,
    pub instruction: Instruction,
}

/// An outcome as contracts speak of it.
pub struct CommandOutcomeView {
    pub status: i32,
    pub instruction: InstructionView,
}

impl View for CommandOutcome {
    type V = CommandOutcomeView;

    open spec fn view(&self) -> CommandOutcomeView {
        CommandOutcomeView { status: self.status, instruction: self.instruction@ }
    }
}

/// The report that an unresolved name leads to.
pub open spec fn unresolved(error: FieldResolutionErrorView) -> InstructionView {
    InstructionView::Report { stream: error.stream(), text: error.message_text() }
}

/// The instruction for a dump command: the dump operation on the B-tree of
/// that name, or a diagnostic where the catalog has no such B-tree.
pub open spec fn dump_instruction(catalog: Catalog, dump: DumpCommandView) -> InstructionView {
    match catalog.btree_named(dump.btree_name) {
        Some(btree_id) => InstructionView::DumpKey { btree_id, position: dump.position },
        None => unresolved(FieldResolutionErrorView::UnknownBtree { name: dump.btree_name }),
    }
}

/// The instruction for an update command: the update operation with what
/// the command resolves to, or the report of the name that is unknown.
pub open spec fn update_instruction(catalog: Catalog, update: UpdateCommandView) -> InstructionView {
    match resolution(catalog, update) {
        Ok(resolved) => InstructionView::UpdateKey(resolved),
        Err(error) => unresolved(error),
    }
}

/// The instruction for a command.
pub open spec fn instruction_for(catalog: Catalog, command: CommandView) -> InstructionView {
    match command {
        CommandView::Dump(dump) => dump_instruction(catalog, dump),
        CommandView::Update(update) => update_instruction(catalog, update),
    }
}

/// The two forms of the language, as the user is reminded of them.
pub open spec fn usage_text() -> Seq<char> {
    "Usage:\n    dump <btree_type> <bpos>\n    update <btree_type> <bpos> <bkey_type>.<field>=<value>"@
}

/// The report on a line that is no command: the error, and below it the
/// usage.
pub open spec fn rejection(error: ParseErrorView) -> InstructionView {
    InstructionView::Report {
        stream: Stream::Output,
        text: error.message_text() + "\n"@ + usage_text(),
    }
}

/// What becomes of a line.
pub open spec fn line_outcome(catalog: Catalog, line: Seq<char>) -> CommandOutcomeView {
    match command_of(line) {
        Ok(command) => CommandOutcomeView {
            status: 0,
            instruction: instruction_for(catalog, command),
        },
        Err(error) => CommandOutcomeView { status: 1, instruction: rejection(error) },
    }
}

/// Turns an unresolved name into the report of it.
fn report(error: FieldResolutionError) -> (r: Instruction)
    ensures
        r@ == unresolved(error@),
{
    Instruction::Report { stream: error.stream(), text: error.message() }
}

/// Plans a dump command.
pub fn dump(catalog: &Catalog, cmd: &DumpCommand) -> (r: Instruction)
    ensures
        r@ == dump_instruction(*catalog, cmd@),
{
    match catalog.btree_id(cmd.btree_name.as_str()) {
        Some(btree_id) => Instruction::DumpKey { btree_id, position: cmd.position },
        None => report(FieldResolutionError::UnknownBtree { name: cmd.btree_name.clone() }),
    }
}

/// Plans an update command.
pub fn update(catalog: &Catalog, cmd: &UpdateCommand) -> (r: Instruction)
    ensures
        r@ == update_instruction(*catalog, cmd@),
{
    match resolve(catalog, cmd) {
        Ok(resolved) => Instruction::UpdateKey(resolved),
        Err(error) => report(error),
    }
}

/// Plans a command of either kind.
pub fn execute(catalog: &Catalog, command: &Command) -> (r: Instruction)
    ensures
        r@ == instruction_for(*catalog, command@),
{
    match command {
        Command::Dump(cmd) => dump(catalog, cmd),
        Command::Update(cmd) => update(catalog, cmd),
    }
}

/// The usage, without a line break at its end.
pub fn usage() -> (text: String)
    ensures
        text@ == usage_text(),
{
    String::from_str(
        "Usage:\n    dump <btree_type> <bpos>\n    update <btree_type> <bpos> <bkey_type>.<field>=<value>",
    )
}

/// Parses a line and plans the command it spells. A line that is no
/// command is answered with the error and the usage, never with a failure.
pub fn do_command(catalog: &Catalog, line: &str) -> (r: CommandOutcome)
    ensures
        r@ == line_outcome(*catalog, line@),
{
    match parse_command(line) {
        Ok(command) => CommandOutcome { status: 0, instruction: execute(catalog, &command) },
        Err(error) => {
            let mut text = error.message();
            text.append("\n");
            text.append(usage().as_str());
            CommandOutcome {
                status: 1,
                instruction: Instruction::Report { stream: Stream::Output, text },
            }
        },
    }
}

} // verus!
