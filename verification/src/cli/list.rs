//! Listing the commands of a project.

use crate::yaml::project_config::{
    clone_lines, CommandDef, CommandModel, CommandValue, ProjectConfig,
};
use vstd::prelude::*;

verus! {

/// A request to list the commands of the project.
#[derive(Debug, PartialEq, Eq)]
pub struct ListArgs {}

/// What the listing shows of one command.
#[derive(Debug, PartialEq, Eq)]
pub struct ListEntry {
    /// The name of the command.
    pub name: String,
    /// Its help text, where it has one.
    pub help: Option<String>,
    /// Its command lines as they were declared, in order.
    pub cmds: Vec<String>,
}

/// What a `ListEntry` stands for.
pub struct ListEntryModel {
    pub name: Seq<char>,
    pub help: Option<Seq<char>>,
    pub cmds: Seq<Seq<char>>,
}

impl DeepView for ListEntry {
    type V = ListEntryModel;

    open spec fn deep_view(&self) -> ListEntryModel {
        ListEntryModel { name: self.name@, help: self.help.deep_view(), cmds: self.cmds.deep_view() }
    }
}

impl View for ListEntry {
    type V = ListEntryModel;

    open spec fn view(&self) -> ListEntryModel {
        self.deep_view()
    }
}

/// What the listing shows of the command `command`, declared as `name`.
pub open spec fn list_entry_of(name: Seq<char>, command: CommandModel) -> ListEntryModel {
    ListEntryModel { name, help: command.help, cmds: command.cmd.steps() }
}

/// The listing of a command table: one entry for each command, in the order
/// of declaration.
pub open spec fn listing_of(commands: Seq<(Seq<char>, CommandModel)>) -> Seq<ListEntryModel> {
    commands.map_values(|entry: (Seq<char>, CommandModel)| list_entry_of(entry.0, entry.1))
}

fn list_entry(name: &String, command: &CommandDef) -> (entry: ListEntry)
    ensures
        entry@ == list_entry_of(name@, command@),
{
    let cmds = match &command.cmd {
        CommandValue::List(lines) => clone_lines(lines),
        CommandValue::String(line) => {
            let mut one: Vec<String> = Vec::new();
            one.push(line.clone());
            assert(one.deep_view() =~= seq![line@]);
            one
        },
    };
    let help = match &command.help {
        Some(text) => Some(text.clone()),
        None => None,
    };
    ListEntry { name: name.clone(), help, cmds }
}

/// Lists the commands of the project in the order of their declaration: for
/// each its name, its help text where it has one, and its command lines as
/// declared, without any substitution.
pub fn handle_list(_data: &ListArgs, project: &ProjectConfig) -> (listing: Vec<ListEntry>)
    ensures
        listing.deep_view() == listing_of(project@.commands),
{
    let mut listing: Vec<ListEntry> = Vec::new();
    let mut i: usize = 0;
    while i < project.commands.len()
        invariant
            i <= project.commands.len(),
            listing.len() == i,
            forall|j: int|
                0 <= j < i ==> (#[trigger] listing[j])@ == list_entry_of(
                    project.commands[j].0@,
                    project.commands[j].1@,
                ),
        decreases project.commands.len() - i,
    {
        listing.push(list_entry(&project.commands[i].0, &project.commands[i].1));
        i = i + 1;
    }
    assert(listing.deep_view() =~= listing_of(project@.commands));
    listing
}

} // verus!
