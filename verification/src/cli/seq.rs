//! Running a sequence: a named list of commands taken one after the other.
//!
//! A sequence names its commands by their own names, never by an alias. An
//! entry that names no command is skipped, and a command that fails does not
//! keep the entries after it from running.

use crate::cli::cmd::{plan_of, CommandPlan, PlanModel, Progress, ProgressModel};
use crate::yaml::project_config::{
    lemma_first_at_unique, lookup, position, ProjectConfig, ProjectModel,
};
use vstd::prelude::*;

verus! {

/// A request to run one sequence.
#[derive(Debug, PartialEq, Eq)]
pub struct SeqArgs {
    /// The name of the sequence.
    pub seq: String,
    /// Show each step instead of running it.
    pub dryrun: bool,
    /// Announce each step and report each success.
    pub verbose: bool,
}

/// One entry of a sequence, resolved.
#[derive(Debug, PartialEq, Eq)]
pub enum SequenceEntry {
    /// No command has this name: the entry is reported and skipped.
    Missing(String),
    /// The run of the command of this name.
    Command(CommandPlan),
}

/// What a `SequenceEntry` stands for.
pub enum EntryModel {
    Missing(Seq<char>),
    Command(PlanModel),
}

/// The entries of one sequence, laid out for a run.
#[derive(Debug, PartialEq, Eq)]
pub struct SequencePlan {
    /// The name of the sequence.
    pub name: String,
    /// The entries in the order in which they are taken.
    pub entries: Vec<SequenceEntry>,
}

/// What a `SequencePlan` stands for.
pub struct SequenceModel {
    pub name: Seq<char>,
    pub entries: Seq<EntryModel>,
}

/// How far the run of a sequence has come.
pub struct SequenceProgressModel {
    /// The number of entries dealt with so far; also the index of the next.
    pub handled: nat,
    /// How many of them were commands whose run did not succeed.
    pub failed: nat,
    /// How many of them named no command.
    pub missing: nat,
}

impl DeepView for SequenceEntry {
    type V = EntryModel;

    open spec fn deep_view(&self) -> EntryModel {
        match self {
            SequenceEntry::Missing(name) => EntryModel::Missing(name@),
            SequenceEntry::Command(plan) => EntryModel::Command(plan@),
        }
    }
}

impl View for SequenceEntry {
    type V = EntryModel;

    open spec fn view(&self) -> EntryModel {
        self.deep_view()
    }
}

impl DeepView for SequencePlan {
    type V = SequenceModel;

    open spec fn deep_view(&self) -> SequenceModel {
        SequenceModel { name: self.name@, entries: self.entries.deep_view() }
    }
}

impl View for SequencePlan {
    type V = SequenceModel;

    open spec fn view(&self) -> SequenceModel {
        self.deep_view()
    }
}

/// The entry that the command name `name` makes: the run of the command of
/// that name, or a missing entry where the project has none. Aliases do not
/// count here.
pub open spec fn entry_of(
    name: Seq<char>,
    project: ProjectModel,
    dry_run: bool,
    verbose: bool,
) -> EntryModel {
    match lookup(project.commands, name) {
        Some(command) => EntryModel::Command(plan_of(name, command, project, dry_run, verbose)),
        None => EntryModel::Missing(name),
    }
}

/// The plan for the sequence `name` of the project: one entry for each
/// command name of its list, in order. `None` where the project has no
/// sequence of that name.
pub open spec fn sequence_of(
    project: ProjectModel,
    name: Seq<char>,
    dry_run: bool,
    verbose: bool,
) -> Option<SequenceModel> {
    match project.sequence {
        Some(table) => match lookup(table, name) {
            Some(names) => Some(
                SequenceModel {
                    name,
                    entries: names.map_values(
                        |entry: Seq<char>| entry_of(entry, project, dry_run, verbose),
                    ),
                },
            ),
            None => None,
        },
        None => None,
    }
}

impl SequenceProgressModel {
    /// Before the first entry.
    pub open spec fn start() -> SequenceProgressModel {
        SequenceProgressModel { handled: 0, failed: 0, missing: 0 }
    }
}

impl SequenceModel {
    /// Every entry has been dealt with.
    pub open spec fn finished(self, progress: SequenceProgressModel) -> bool {
        progress.handled >= self.entries.len()
    }

    /// The index of the entry to deal with next, while one is left.
    pub open spec fn current(self, progress: SequenceProgressModel) -> Option<usize> {
        if self.finished(progress) {
            None
        } else {
            Some(progress.handled as usize)
        }
    }

    /// The progress after the current entry has been dealt with, `run` being
    /// where the run of its command ended. A missing entry counts as missing
    /// whatever `run` is; a command counts as failed unless its run is over
    /// without a failed step. Either way the next entry is the current one.
    pub open spec fn after(
        self,
        progress: SequenceProgressModel,
        run: ProgressModel,
    ) -> SequenceProgressModel {
        if self.finished(progress) {
            progress
        } else {
            match self.entries[progress.handled as int] {
                EntryModel::Missing(_) => SequenceProgressModel {
                    handled: progress.handled + 1,
                    missing: progress.missing + 1,
                    ..progress
                },
                EntryModel::Command(plan) => SequenceProgressModel {
                    handled: progress.handled + 1,
                    failed: if plan.succeeded(run) {
                        progress.failed
                    } else {
                        progress.failed + 1
                    },
                    ..progress
                },
            }
        }
    }

    /// The run is over, every entry named a command, and every command
    /// succeeded.
    pub open spec fn succeeded(self, progress: SequenceProgressModel) -> bool {
        self.finished(progress) && progress.failed == 0 && progress.missing == 0
    }
}

/// A sequence moves on whatever happens: after an entry was dealt with,
/// missing, failed or succeeded, the entry behind it is the next one.
pub proof fn sequence_moves_on(
    sequence: SequenceModel,
    progress: SequenceProgressModel,
    run: ProgressModel,
)
    requires
        !sequence.finished(progress),
        sequence.entries.len() <= usize::MAX,
    ensures
        sequence.after(progress, run).handled == progress.handled + 1,
        sequence.current(sequence.after(progress, run)) == if progress.handled + 1
            < sequence.entries.len() {
            Some((progress.handled + 1) as usize)
        } else {
            None
        },
        sequence.after(progress, run).failed >= progress.failed,
        sequence.after(progress, run).missing >= progress.missing,
{
}

/// A command of a sequence that has not succeeded is counted as failed,
/// and the sequence as a whole has then not succeeded.
pub proof fn failed_command_is_counted(
    sequence: SequenceModel,
    progress: SequenceProgressModel,
    run: ProgressModel,
)
    requires
        !sequence.finished(progress),
        sequence.entries[progress.handled as int] matches EntryModel::Command(plan)
            && !plan.succeeded(run),
    ensures
        sequence.after(progress, run).failed == progress.failed + 1,
        !sequence.succeeded(sequence.after(progress, run)),
{
}

/// How far the run of a sequence has come: how many entries were dealt
/// with, how many commands failed, and how many entries named no command.
#[derive(Clone, Copy, Debug, PartialEq, Eq)]
pub struct SequenceProgress {
    handled: usize,
    failed: usize,
    missing: usize,
}

impl View for SequenceProgress {
    type V = SequenceProgressModel;

    closed spec fn view(&self) -> SequenceProgressModel {
        SequenceProgressModel {
            handled: self.handled as nat,
            failed: self.failed as nat,
            missing: self.missing as nat,
        }
    }
}

impl SequenceProgress {
    #[verifier::type_invariant]
    spec fn counted(self) -> bool {
        self.failed + self.missing <= self.handled
    }

    /// Before the first entry.
    pub fn start() -> (progress: SequenceProgress)
        ensures
            progress@ == SequenceProgressModel::start(),
    {
        SequenceProgress { handled: 0, failed: 0, missing: 0 }
    }

    /// The number of entries dealt with so far.
    pub fn handled(&self) -> (n: usize)
        ensures
            n == self@.handled,
            self@.failed + self@.missing <= self@.handled,
    {
        proof {
            use_type_invariant(self);
        }
        self.handled
    }

    /// The number of commands whose run did not succeed.
    pub fn failed(&self) -> (n: usize)
        ensures
            n == self@.failed,
    {
        self.failed
    }

    /// The number of entries that named no command.
    pub fn missing(&self) -> (n: usize)
        ensures
            n == self@.missing,
    {
        self.missing
    }
}

impl SequencePlan {
    /// The index of the entry to deal with next, or `None` once every entry
    /// has been dealt with.
    pub fn current(&self, progress: SequenceProgress) -> (at: Option<usize>)
        ensures
            at == self@.current(progress@),
            at matches Some(i) ==> i < self.entries.len(),
    {
        if progress.handled >= self.entries.len() {
            None
        } else {
            Some(progress.handled)
        }
    }

    /// Records that the current entry has been dealt with: skipped where it
    /// names no command, or run, `run` being where the run of its command
    /// ended.
    ///
    /// The sequence always moves on to the next entry: neither a missing
    /// command nor a failed one ends it. Recording on a finished sequence
    /// changes nothing.
    pub fn record(&self, progress: SequenceProgress, run: Progress) -> (next: SequenceProgress)
        ensures
            next@ == self@.after(progress@, run@),
    {
        proof {
            use_type_invariant(progress);
        }
        if progress.handled >= self.entries.len() {
            return progress;
        }
        match &self.entries[progress.handled] {
            SequenceEntry::Missing(_) => SequenceProgress {
                handled: progress.handled + 1,
                failed: progress.failed,
                missing: progress.missing + 1,
            },
            SequenceEntry::Command(plan) => {
                let failed: usize = if plan.succeeded(run) {
                    progress.failed
                } else {
                    progress.failed + 1
                };
                SequenceProgress {
                    handled: progress.handled + 1,
                    failed,
                    missing: progress.missing,
                }
            },
        }
    }

    /// Whether the run is over with every entry found and every command
    /// succeeded.
    pub fn succeeded(&self, progress: SequenceProgress) -> (succeeded: bool)
        ensures
            succeeded == self@.succeeded(progress@),
    {
        progress.handled >= self.entries.len() && progress.failed == 0 && progress.missing == 0
    }
}

fn resolve_entry(name: &String, project: &ProjectConfig, dry_run: bool, verbose: bool) -> (entry:
    SequenceEntry)
    ensures
        entry@ == entry_of(name@, project@, dry_run, verbose),
{
    match position(&project.commands, name) {
        Some(at) => {
            proof {
                lemma_first_at_unique(project@.commands, name@, at as int);
            }
            SequenceEntry::Command(
                CommandPlan::new(name, &project.commands[at].1, project, dry_run, verbose),
            )
        },
        None => SequenceEntry::Missing(name.clone()),
    }
}

/// Lays out the run of the sequence that the request names.
///
/// Each entry of the sequence is resolved as the name of a command; an alias
/// does not count. `None` where the project has no sequence of that name.
pub fn handle_seq(data: &SeqArgs, project: &ProjectConfig) -> (plan: Option<SequencePlan>)
    ensures
        plan.deep_view() == sequence_of(project@, data.seq@, data.dryrun, data.verbose),
{
    let table = match &project.sequence {
        Some(table) => table,
        None => {
            return None;
        },
    };
    let at = match position(table, &data.seq) {
        Some(at) => at,
        None => {
            return None;
        },
    };
    proof {
        lemma_first_at_unique(table.deep_view(), data.seq@, at as int);
    }
    let names = &table[at].1;
    let mut entries: Vec<SequenceEntry> = Vec::new();
    let mut i: usize = 0;
    while i < names.len()
        invariant
            i <= names.len(),
            entries.len() == i,
            forall|j: int|
                0 <= j < i ==> (#[trigger] entries[j])@ == entry_of(
                    names[j]@,
                    project@,
                    data.dryrun,
                    data.verbose,
                ),
        decreases names.len() - i,
    {
        entries.push(resolve_entry(&names[i], project, data.dryrun, data.verbose));
        i = i + 1;
    }
    let plan = SequencePlan { name: data.seq.clone(), entries };
    assert(plan@.entries =~= sequence_of(
        project@,
        data.seq@,
        data.dryrun,
        data.verbose,
    ).unwrap().entries);
    Some(plan)
}

} // verus!
