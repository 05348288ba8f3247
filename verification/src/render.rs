//! The canonical text of positions and commands: one space between the
//! parts, numbers without leading zeros, and the sentinel for the greatest
//! snapshot. Parsing the text of a command gives the command back.

use crate::command::{
    Command, CommandView, DumpCommand, DumpCommandView, UpdateCommand, UpdateCommandView,
    UpdateOperator,
};
use crate::parser::{dump_keyword, update_keyword};
use crate::position::{snapshot_sentinel, BTreePosition};
use crate::text::{numeral, render_number};
use vstd::prelude::*;

verus! {

/// Three fields with a colon between them.
pub open spec fn position_form(inode: Seq<char>, offset: Seq<char>, snapshot: Seq<char>) -> Seq<
    char,
> {
    inode + ":"@ + offset + ":"@ + snapshot
}

/// The text of a snapshot: its numeral, or the sentinel for the greatest.
pub open spec fn snapshot_text(snapshot: u32) -> Seq<char> {
    if snapshot == u32::MAX {
        snapshot_sentinel()
    } else {
        numeral(snapshot as nat)
    }
}

/// The text of a position.
pub open spec fn position_text(position: BTreePosition) -> Seq<char> {
    position_form(
        numeral(position.inode as nat),
        numeral(position.offset as nat),
        snapshot_text(position.snapshot),
    )
}

/// The text of an operator.
pub open spec fn operator_text(operator: UpdateOperator) -> Seq<char> {
    match operator {
        UpdateOperator::Assign => "="@,
        UpdateOperator::Add => "+="@,
    }
}

/// The text of what both commands name first: the name of the B-tree and
/// the position, each behind a space.
pub open spec fn target_text(btree_name: Seq<char>, position: BTreePosition) -> Seq<char> {
    " "@ + btree_name + " "@ + position_text(position)
}

/// The text of the change of an update command, behind a space.
pub open spec fn change_text(update: UpdateCommandView) -> Seq<char> {
    " "@ + update.key_type_name + "."@ + update.field_path + operator_text(update.operator)
        + numeral(update.value as nat)
}

/// The text of a dump command.
pub open spec fn dump_text(dump: DumpCommandView) -> Seq<char> {
    dump_keyword() + target_text(dump.btree_name, dump.position)
}

/// The text of an update command.
pub open spec fn update_text(update: UpdateCommandView) -> Seq<char> {
    update_keyword() + target_text(update.btree_name, update.position) + change_text(update)
}

/// The text of a command.
pub open spec fn command_text(command: CommandView) -> Seq<char> {
    match command {
        CommandView::Dump(dump) => dump_text(dump),
        CommandView::Update(update) => update_text(update),
    }
}

impl BTreePosition {
    /// Writes the position as the grammar reads it.
    pub fn render(&self) -> (text: String)
        ensures
            text@ == position_text(*self),
    {
        let mut text = render_number(self.inode);
        text.append(":");
        text.append(render_number(self.offset).as_str());
        text.append(":");
        if self.snapshot == u32::MAX {
            text.append("U32_MAX");
        } else {
            text.append(render_number(self.snapshot as u64).as_str());
        }
        text
    }
}

impl UpdateOperator {
    /// The operator as it is written.
    pub fn render(&self) -> (text: &'static str)
        ensures
            text@ == operator_text(*self),
    {
        match self {
            UpdateOperator::Assign => "=",
            UpdateOperator::Add => "+=",
        }
    }
}

/// Writes the name of a B-tree and a position, each behind a space.
fn render_target(btree_name: &str, position: &BTreePosition) -> (text: String)
    ensures
        text@ == target_text(btree_name@, *position),
{
    let mut text = String::from_str(" ");
    text.append(btree_name);
    text.append(" ");
    text.append(position.render().as_str());
    text
}

impl DumpCommand {
    /// Writes the command as the grammar reads it.
    pub fn render(&self) -> (text: String)
        ensures
            text@ == dump_text(self@),
    {
        let mut text = String::from_str("dump");
        text.append(render_target(self.btree_name.as_str(), &self.position).as_str());
        text
    }
}

impl UpdateCommand {
    /// Writes the change of the command, behind a space.
    fn render_change(&self) -> (text: String)
        ensures
            text@ == change_text(self@),
    {
        let mut text = String::from_str(" ");
        text.append(self.key_type_name.as_str());
        text.append(".");
        text.append(self.field_path.as_str());
        text.append(self.operator.render());
        text.append(render_number(self.value).as_str());
        text
    }

    /// Writes the command as the grammar reads it.
    pub fn render(&self) -> (text: String)
        ensures
            text@ == update_text(self@),
    {
        let mut text = String::from_str("update");
        text.append(render_target(self.btree_name.as_str(), &self.position).as_str());
        text.append(self.render_change().as_str());
        text
    }
}

impl Command {
    /// Writes the command as the grammar reads it.
    pub fn render(&self) -> (text: String)
        ensures
            text@ == command_text(self@),
    {
        match self {
            Command::Dump(dump) => dump.render(),
            Command::Update(update) => update.render(),
        }
    }
}

} // verus!
