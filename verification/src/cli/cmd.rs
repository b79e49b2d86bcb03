//! Running one command: finding it by name or alias, laying out its steps,
//! and deciding after each step whether the next one runs.

use crate::cli::command_handler::{
    invocation_of, prepare_shell_command, resolve, script_of, select_shell, Invocation,
    InvocationModel, StepError,
};
use crate::yaml::project_config::{
    first_at, has_key, index_of, lemma_first_at_unique, position, unique_keys, CommandDef,
    CommandModel, CommandValue, ProjectConfig, ProjectModel,
};
use vstd::prelude::*;

verus! {

/// A request to run one command.
#[derive(Debug, PartialEq, Eq)]
pub struct CmdArgs {
    /// The name or the alias of the command.
    pub cmd: String,
    /// Show each step instead of running it.
    pub dryrun: bool,
    /// Announce each step and report each success.
    pub verbose: bool,
}

/// Entry `at` is the first command of the table whose alias is `name`.
pub open spec fn alias_at(commands: Seq<(Seq<char>, CommandModel)>, name: Seq<char>, at: int) -> bool {
    &&& 0 <= at < commands.len()
    &&& commands[at].1.alias == Some(name)
    &&& forall|j: int| 0 <= j < at ==> (#[trigger] commands[j]).1.alias != Some(name)
}

/// Some command of the table has the alias `name`.
pub open spec fn has_alias(commands: Seq<(Seq<char>, CommandModel)>, name: Seq<char>) -> bool {
    exists|at: int| alias_at(commands, name, at)
}

/// The index of the command that `name` stands for: the first command of
/// that name, or, where no command has that name, the first command with
/// that alias.
///
/// A name wins over an alias, and among equal aliases the command declared
/// first wins.
pub open spec fn command_at(commands: Seq<(Seq<char>, CommandModel)>, name: Seq<char>) -> Option<
    int,
> {
    if has_key(commands, name) {
        Some(index_of(commands, name))
    } else if has_alias(commands, name) {
        Some(choose|at: int| alias_at(commands, name, at))
    } else {
        None
    }
}

/// The command that `name` stands for, by name or by alias.
pub open spec fn resolve_command(
    commands: Seq<(Seq<char>, CommandModel)>,
    name: Seq<char>,
) -> Option<CommandModel> {
    match command_at(commands, name) {
        Some(at) => Some(commands[at].1),
        None => None,
    }
}

/// The first command with the alias `name` is the only index that
/// `alias_at` accepts.
pub proof fn lemma_alias_at_unique(
    commands: Seq<(Seq<char>, CommandModel)>,
    name: Seq<char>,
    at: int,
)
    requires
        alias_at(commands, name, at),
    ensures
        has_alias(commands, name),
        (choose|i: int| alias_at(commands, name, i)) == at,
{
    let other = choose|i: int| alias_at(commands, name, i);
    assert(alias_at(commands, name, other));
    if other < at {
        assert(commands[other].1.alias == Some(name));
    } else if at < other {
        assert(commands[at].1.alias == Some(name));
    }
}

/// A command found by its alias is the command found by its name.
///
/// Take a table without repeated names and a command of it that has the
/// alias `alias`, where no other command is named `alias` and no command
/// declared before it has that alias. Asking for the alias and asking for
/// the command's own name give the same command: this one.
pub proof fn alias_finds_same_command(
    commands: Seq<(Seq<char>, CommandModel)>,
    at: int,
    alias: Seq<char>,
)
    requires
        unique_keys(commands),
        0 <= at < commands.len(),
        commands[at].1.alias == Some(alias),
        forall|j: int| 0 <= j < commands.len() && (#[trigger] commands[j]).0 == alias ==> j == at,
        forall|j: int| 0 <= j < at ==> (#[trigger] commands[j]).1.alias != Some(alias),
    ensures
        resolve_command(commands, alias) == Some(commands[at].1),
        resolve_command(commands, commands[at].0) == Some(commands[at].1),
        resolve_command(commands, alias) == resolve_command(commands, commands[at].0),
{
    let name = commands[at].0;
    assert(first_at(commands, name, at));
    lemma_first_at_unique(commands, name, at);
    if has_key(commands, alias) {
        let found = index_of(commands, alias);
        assert(first_at(commands, alias, found));
        assert(found == at);
    } else {
        assert(alias_at(commands, alias, at));
        lemma_alias_at_unique(commands, alias, at);
    }
}

fn alias_position(commands: &Vec<(String, CommandDef)>, name: &String) -> (found: Option<usize>)
    ensures
        match found {
            Some(at) => alias_at(commands.deep_view(), name@, at as int),
            None => !has_alias(commands.deep_view(), name@),
        },
{
    let mut i: usize = 0;
    while i < commands.len()
        invariant
            i <= commands.len(),
            forall|j: int|
                0 <= j < i ==> (#[trigger] commands.deep_view()[j]).1.alias != Some(name@),
        decreases commands.len() - i,
    {
        let is_alias = match &commands[i].1.alias {
            Some(alias) => *alias == *name,
            None => false,
        };
        if is_alias {
            return Some(i);
        }
        i = i + 1;
    }
    None
}

/// The index of the command that `name` stands for, by name or by alias.
pub fn command_index(project: &ProjectConfig, name: &String) -> (found: Option<usize>)
    ensures
        match found {
            Some(at) => command_at(project@.commands, name@) == Some(at as int) && at
                < project.commands.len(),
            None => command_at(project@.commands, name@) is None,
        },
{
    match position(&project.commands, name) {
        Some(at) => {
            proof {
                lemma_first_at_unique(project@.commands, name@, at as int);
            }
            Some(at)
        },
        None => match alias_position(&project.commands, name) {
            Some(at) => {
                proof {
                    lemma_alias_at_unique(project@.commands, name@, at as int);
                }
                Some(at)
            },
            None => None,
        },
    }
}

/// Finds the command that the request names, by name or by alias.
///
/// A command of that name is taken before any alias; among commands with
/// that alias the one declared first is taken. `None` where neither a name
/// nor an alias matches.
pub fn search_command(data: &CmdArgs, project: &ProjectConfig) -> (found: Option<CommandDef>)
    ensures
        found.deep_view() == resolve_command(project@.commands, data.cmd@),
{
    match command_index(project, &data.cmd) {
        Some(at) => Some(project.commands[at].1.clone()),
        None => None,
    }
}

/// What is to be done next in the run of a command.
#[derive(Clone, Copy, Debug, PartialEq, Eq)]
pub enum Action {
    /// Dry run: show the step of this index; nothing is run.
    Show(usize),
    /// Run the step of this index through the system shell.
    Execute(usize),
    /// No step is left to attempt.
    Finish,
}

/// What follows from the way a step ended.
#[derive(Clone, Copy, Debug, PartialEq, Eq)]
pub enum Reaction {
    /// The step counts as succeeded; the run goes on.
    Proceed,
    /// The step failed; the failure is reported and the run goes on.
    KeepGoing,
    /// The step failed; the steps that are left are not attempted.
    Stop,
}

/// The steps of one command, laid out for a run.
#[derive(Debug, PartialEq, Eq)]
pub struct CommandPlan {
    /// The name under which the command was asked for.
    pub name: String,
    /// The steps in the order in which they run.
    pub steps: Vec<Invocation>,
    /// Whether a failed step lets the following steps run.
    pub keep_going: bool,
    /// Whether the steps are shown instead of run.
    pub dry_run: bool,
    /// Whether successes are reported too.
    pub verbose: bool,
}

/// What a `CommandPlan` stands for.
pub struct PlanModel {
    pub name: Seq<char>,
    pub steps: Seq<InvocationModel>,
    pub keep_going: bool,
    pub dry_run: bool,
    pub verbose: bool,
}

/// How far the run of a command has come.
pub struct ProgressModel {
    /// The number of steps attempted so far; also the index of the next one.
    pub attempted: nat,
    /// How many of them failed.
    pub failed: nat,
    /// Whether a failure has ended the run.
    pub halted: bool,
}

impl ProgressModel {
    /// Before the first step.
    pub open spec fn start() -> ProgressModel {
        ProgressModel { attempted: 0, failed: 0, halted: false }
    }
}

impl PlanModel {
    /// No step is left to attempt: all were attempted, or a failure ended
    /// the run.
    pub open spec fn finished(self, progress: ProgressModel) -> bool {
        progress.halted || progress.attempted >= self.steps.len()
    }

    /// Whether each step is announced before it is taken up.
    pub open spec fn announces(self) -> bool {
        self.verbose || self.dry_run
    }

    /// What is to be done next.
    pub open spec fn next_action(self, progress: ProgressModel) -> Action {
        if self.finished(progress) {
            Action::Finish
        } else if self.dry_run {
            Action::Show(progress.attempted as usize)
        } else {
            Action::Execute(progress.attempted as usize)
        }
    }

    /// What follows from a step that ended in success or failure. In a dry
    /// run every step counts as succeeded.
    pub open spec fn reaction(self, succeeded: bool) -> Reaction {
        if self.dry_run || succeeded {
            Reaction::Proceed
        } else if self.keep_going {
            Reaction::KeepGoing
        } else {
            Reaction::Stop
        }
    }

    /// The progress after the next step ended in success or failure. Once
    /// the run is finished nothing changes any more.
    pub open spec fn after(self, progress: ProgressModel, succeeded: bool) -> ProgressModel {
        if self.finished(progress) {
            progress
        } else {
            match self.reaction(succeeded) {
                Reaction::Proceed => ProgressModel {
                    attempted: progress.attempted + 1,
                    ..progress
                },
                Reaction::KeepGoing => ProgressModel {
                    attempted: progress.attempted + 1,
                    failed: progress.failed + 1,
                    ..progress
                },
                Reaction::Stop => ProgressModel {
                    attempted: progress.attempted + 1,
                    failed: progress.failed + 1,
                    halted: true,
                },
            }
        }
    }

    /// The run is over and no step failed.
    pub open spec fn succeeded(self, progress: ProgressModel) -> bool {
        self.finished(progress) && progress.failed == 0
    }
}

/// The progress after the steps of a run ended as `outcomes` say, one after
/// the other from the start: `true` for a step that succeeded.
pub open spec fn run_of(plan: PlanModel, outcomes: Seq<bool>) -> ProgressModel
    decreases outcomes.len(),
{
    if outcomes.len() == 0 {
        ProgressModel::start()
    } else {
        plan.after(run_of(plan, outcomes.drop_last()), outcomes.last())
    }
}

/// How many of the outcomes are failures.
pub open spec fn failures(outcomes: Seq<bool>) -> nat
    decreases outcomes.len(),
{
    if outcomes.len() == 0 {
        0
    } else if outcomes.last() {
        failures(outcomes.drop_last())
    } else {
        failures(outcomes.drop_last()) + 1
    }
}

/// A failed step ends the run of a command that does not keep going: no
/// later step is run, and the run has not succeeded.
pub proof fn failure_stops_run(plan: PlanModel, progress: ProgressModel)
    requires
        !plan.keep_going,
        !plan.dry_run,
        !plan.finished(progress),
    ensures
        plan.finished(plan.after(progress, false)),
        plan.next_action(plan.after(progress, false)) == Action::Finish,
        !plan.succeeded(plan.after(progress, false)),
        forall|later: bool|
            plan.after(plan.after(progress, false), later) == plan.after(progress, false),
{
}

/// A failed step does not end the run of a command that keeps going: the
/// step after it is the next to run, and the failure stays on record.
pub proof fn failure_keeps_going(plan: PlanModel, progress: ProgressModel)
    requires
        plan.keep_going,
        !plan.dry_run,
        !plan.finished(progress),
        progress.attempted + 1 < plan.steps.len(),
        plan.steps.len() <= usize::MAX,
    ensures
        plan.next_action(plan.after(progress, false)) == Action::Execute(
            (progress.attempted + 1) as usize,
        ),
        plan.after(progress, false).failed == progress.failed + 1,
        !plan.succeeded(plan.after(progress, false)),
{
}

/// What has failed stays failed: no later step takes a failure back.
pub proof fn failures_stay(plan: PlanModel, progress: ProgressModel, succeeded: bool)
    ensures
        plan.after(progress, succeeded).failed >= progress.failed,
        plan.after(progress, succeeded).attempted >= progress.attempted,
        progress.halted ==> plan.after(progress, succeeded).halted,
{
}

/// A command that keeps going attempts every one of its steps whatever
/// their outcomes, counts each failure, and succeeds only if none failed.
pub proof fn keep_going_attempts_every_step(plan: PlanModel, outcomes: Seq<bool>)
    requires
        plan.keep_going,
        !plan.dry_run,
        outcomes.len() <= plan.steps.len(),
    ensures
        run_of(plan, outcomes).attempted == outcomes.len(),
        run_of(plan, outcomes).failed == failures(outcomes),
        !run_of(plan, outcomes).halted,
        outcomes.len() == plan.steps.len() ==> plan.finished(run_of(plan, outcomes)) && (
        plan.succeeded(run_of(plan, outcomes)) <==> failures(outcomes) == 0),
    decreases outcomes.len(),
{
    if outcomes.len() > 0 {
        keep_going_attempts_every_step(plan, outcomes.drop_last());
    }
}

/// A command that does not keep going stops at its first failed step: with
/// `first` the index of that step, exactly the steps up to it were
/// attempted, whatever outcomes are offered for later steps, and the run
/// has failed.
pub proof fn first_failure_is_last_step(plan: PlanModel, outcomes: Seq<bool>, first: int)
    requires
        !plan.keep_going,
        !plan.dry_run,
        0 <= first < outcomes.len(),
        first < plan.steps.len(),
        !outcomes[first],
        forall|i: int| 0 <= i < first ==> outcomes[i],
    ensures
        run_of(plan, outcomes).attempted == first + 1,
        run_of(plan, outcomes).failed == 1,
        run_of(plan, outcomes).halted,
        plan.next_action(run_of(plan, outcomes)) == Action::Finish,
        !plan.succeeded(run_of(plan, outcomes)),
    decreases outcomes.len(),
{
    let before = outcomes.drop_last();
    if first == outcomes.len() - 1 {
        lemma_successes_so_far(plan, before);
    } else {
        first_failure_is_last_step(plan, before, first);
    }
}

/// While every step succeeds the run goes on from step to step.
pub proof fn lemma_successes_so_far(plan: PlanModel, outcomes: Seq<bool>)
    requires
        outcomes.len() <= plan.steps.len(),
        forall|i: int| 0 <= i < outcomes.len() ==> outcomes[i],
    ensures
        run_of(plan, outcomes).attempted == outcomes.len(),
        run_of(plan, outcomes).failed == 0,
        !run_of(plan, outcomes).halted,
    decreases outcomes.len(),
{
    if outcomes.len() > 0 {
        lemma_successes_so_far(plan, outcomes.drop_last());
    }
}

/// A dry run never asks for a step to be run, and takes every step as
/// succeeded whatever is reported for it.
pub proof fn dry_run_runs_nothing(plan: PlanModel, progress: ProgressModel, reported: bool)
    requires
        plan.dry_run,
    ensures
        !(plan.next_action(progress) is Execute),
        plan.after(progress, reported) == plan.after(progress, true),
        plan.after(progress, reported).failed == progress.failed,
{
}

/// The plan for running `command`, asked for as `name`, in `project`: one
/// step for each command line of its body, in order.
pub open spec fn plan_of(
    name: Seq<char>,
    command: CommandModel,
    project: ProjectModel,
    dry_run: bool,
    verbose: bool,
) -> PlanModel {
    PlanModel {
        name,
        steps: command.cmd.steps().map_values(
            |line: Seq<char>| invocation_of(command.shell, line, project.shells, project.variables),
        ),
        keep_going: command.keeps_going(),
        dry_run,
        verbose,
    }
}

/// Each step of a plan holds the command line of the body at its place with
/// the project's variables substituted, under the shell that the command
/// refers to: this is what a dry run shows and what a run hands to the
/// shell.
pub proof fn plan_holds_substituted_lines(
    name: Seq<char>,
    command: CommandModel,
    project: ProjectModel,
    dry_run: bool,
    verbose: bool,
    at: int,
)
    requires
        0 <= at < command.cmd.steps().len(),
    ensures
        plan_of(name, command, project, dry_run, verbose).steps.len() == command.cmd.steps().len(),
        plan_of(name, command, project, dry_run, verbose).steps[at].command == resolve(
            command.cmd.steps()[at],
            project.variables,
        ),
        plan_of(name, command, project, dry_run, verbose).steps[at].shell == select_shell(
            command.shell,
            project.shells,
            project.variables,
        ),
        plan_of(name, command, project, dry_run, verbose).steps[at].script == script_of(
            select_shell(command.shell, project.shells, project.variables),
            resolve(command.cmd.steps()[at], project.variables),
        ),
{
}

impl DeepView for CommandPlan {
    type V = PlanModel;

    open spec fn deep_view(&self) -> PlanModel {
        PlanModel {
            name: self.name@,
            steps: self.steps.deep_view(),
            keep_going: self.keep_going,
            dry_run: self.dry_run,
            verbose: self.verbose,
        }
    }
}

impl View for CommandPlan {
    type V = PlanModel;

    open spec fn view(&self) -> PlanModel {
        self.deep_view()
    }
}

/// How far the run of a command has come: how many steps were attempted,
/// how many of them failed, and whether a failure ended the run.
#[derive(Clone, Copy, Debug, PartialEq, Eq)]
pub struct Progress {
    attempted: usize,
    failed: usize,
    halted: bool,
}

impl View for Progress {
    type V = ProgressModel;

    closed spec fn view(&self) -> ProgressModel {
        ProgressModel {
            attempted: self.attempted as nat,
            failed: self.failed as nat,
            halted: self.halted,
        }
    }
}

impl Progress {
    #[verifier::type_invariant]
    spec fn counted(self) -> bool {
        self.failed <= self.attempted
    }

    /// Before the first step.
    pub fn start() -> (progress: Progress)
        ensures
            progress@ == ProgressModel::start(),
    {
        Progress { attempted: 0, failed: 0, halted: false }
    }

    /// The number of steps attempted so far.
    pub fn attempted(&self) -> (n: usize)
        ensures
            n == self@.attempted,
            self@.failed <= self@.attempted,
    {
        proof {
            use_type_invariant(self);
        }
        self.attempted
    }

    /// The number of steps that failed.
    pub fn failed(&self) -> (n: usize)
        ensures
            n == self@.failed,
    {
        self.failed
    }

    /// Whether a failure has ended the run.
    pub fn halted(&self) -> (halted: bool)
        ensures
            halted == self@.halted,
    {
        self.halted
    }
}

impl CommandPlan {
    /// Lays out the run of `command`, asked for as `name`: selects the shell
    /// and substitutes the project's variables for each command line of the
    /// body, a single line counting as a list of one.
    pub fn new(
        name: &String,
        command: &CommandDef,
        project: &ProjectConfig,
        dry_run: bool,
        verbose: bool,
    ) -> (plan: CommandPlan)
        ensures
            plan@ == plan_of(name@, command@, project@, dry_run, verbose),
    {
        let mut steps: Vec<Invocation> = Vec::new();
        match &command.cmd {
            CommandValue::String(line) => {
                steps.push(prepare_shell_command(command, line, project));
            },
            CommandValue::List(lines) => {
                let mut i: usize = 0;
                while i < lines.len()
                    invariant
                        i <= lines.len(),
                        steps.len() == i,
                        forall|j: int|
                            0 <= j < i ==> (#[trigger] steps[j])@ == invocation_of(
                                command@.shell,
                                lines[j]@,
                                project@.shells,
                                project@.variables,
                            ),
                    decreases lines.len() - i,
                {
                    steps.push(prepare_shell_command(command, &lines[i], project));
                    i = i + 1;
                }
            },
        }
        let keep_going = match command.keep_going {
            Some(flag) => flag,
            None => false,
        };
        let plan = CommandPlan { name: name.clone(), steps, keep_going, dry_run, verbose };
        assert(plan@.steps =~= plan_of(name@, command@, project@, dry_run, verbose).steps);
        plan
    }

    /// Whether each step is announced before it is taken up: in a verbose
    /// run and in a dry run.
    pub fn announces(&self) -> (announces: bool)
        ensures
            announces == self@.announces(),
    {
        self.verbose || self.dry_run
    }

    /// What is to be done next: show the next step in a dry run, run it
    /// otherwise, or finish where no step is left or a failure ended the run.
    /// A dry run never asks for a step to be run.
    pub fn next_action(&self, progress: Progress) -> (action: Action)
        ensures
            action == self@.next_action(progress@),
            self.dry_run ==> !(action is Execute),
            action matches Action::Show(at) ==> at < self.steps.len(),
            action matches Action::Execute(at) ==> at < self.steps.len(),
    {
        if progress.halted || progress.attempted >= self.steps.len() {
            Action::Finish
        } else if self.dry_run {
            Action::Show(progress.attempted)
        } else {
            Action::Execute(progress.attempted)
        }
    }

    /// What follows from the way a step ended: after a failure the run goes
    /// on only where the command keeps going. In a dry run every step counts
    /// as succeeded.
    pub fn reaction(&self, outcome: &Result<(), StepError>) -> (reaction: Reaction)
        ensures
            reaction == self@.reaction(outcome is Ok),
    {
        if self.dry_run || outcome.is_ok() {
            Reaction::Proceed
        } else if self.keep_going {
            Reaction::KeepGoing
        } else {
            Reaction::Stop
        }
    }

    /// Records how the step that `next_action` asked for ended.
    ///
    /// The step counts as attempted. Where it failed it counts as failed
    /// too, and unless the command keeps going the run is over: no later
    /// step is attempted. Recording on a finished run changes nothing.
    pub fn record(&self, progress: Progress, outcome: &Result<(), StepError>) -> (next: Progress)
        ensures
            next@ == self@.after(progress@, outcome is Ok),
    {
        proof {
            use_type_invariant(progress);
        }
        if progress.halted || progress.attempted >= self.steps.len() {
            return progress;
        }
        match self.reaction(outcome) {
            Reaction::Proceed => Progress {
                attempted: progress.attempted + 1,
                failed: progress.failed,
                halted: progress.halted,
            },
            Reaction::KeepGoing => Progress {
                attempted: progress.attempted + 1,
                failed: progress.failed + 1,
                halted: progress.halted,
            },
            Reaction::Stop => Progress {
                attempted: progress.attempted + 1,
                failed: progress.failed + 1,
                halted: true,
            },
        }
    }

    /// Whether the run is over with no failed step.
    pub fn succeeded(&self, progress: Progress) -> (succeeded: bool)
        ensures
            succeeded == self@.succeeded(progress@),
    {
        (progress.halted || progress.attempted >= self.steps.len()) && progress.failed == 0
    }
}

/// Lays out the run of the command that the request names.
///
/// `None` where no command has that name or alias.
pub fn handle_cmd(data: &CmdArgs, project: &ProjectConfig) -> (plan: Option<CommandPlan>)
    ensures
        plan.deep_view() == match resolve_command(project@.commands, data.cmd@) {
            Some(command) => Some(
                plan_of(data.cmd@, command, project@, data.dryrun, data.verbose),
            ),
            None => None,
        },
{
    match command_index(project, &data.cmd) {
        Some(at) => Some(
            CommandPlan::new(
                &data.cmd,
                &project.commands[at].1,
                project,
                data.dryrun,
                data.verbose,
            ),
        ),
        None => None,
    }
}

} // verus!
