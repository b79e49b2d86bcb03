use flockrunner::cli::cmd::{handle_cmd, Action, CmdArgs, CommandPlan, Progress, Reaction};
use flockrunner::cli::command_handler::{step_outcome, ExecutionResult, StepError, Stream};
use flockrunner::yaml::project_config::{CommandDef, CommandValue, ProjectConfig};

fn run_command(lines: &[&str], keep_going: Option<bool>) -> CommandDef {
    CommandDef {
        cmd: CommandValue::List(lines.iter().map(|l| l.to_string()).collect()),
        alias: None,
        help: None,
        keep_going,
        shell: None,
        variables: None,
    }
}

fn run_project(name: &str, command: CommandDef) -> ProjectConfig {
    let mut project = ProjectConfig::new();
    project.variables.push(("name".to_string(), "Ada".to_string()));
    project.commands.push((name.to_string(), command));
    project
}

fn run_plan(lines: &[&str], keep_going: Option<bool>, dry: bool) -> CommandPlan {
    let project = run_project("job", run_command(lines, keep_going));
    let data = CmdArgs { cmd: "job".to_string(), dryrun: dry, verbose: false };
    handle_cmd(&data, &project).unwrap()
}

/// Drives a plan to its end; `fails` names the command lines that fail.
/// Returns the command lines that were run, those that were shown, and the
/// final progress.
fn run_drive(plan: &CommandPlan, fails: &[&str]) -> (Vec<String>, Vec<String>, Progress) {
    let mut ran = Vec::new();
    let mut shown = Vec::new();
    let mut progress = Progress::start();
    loop {
        match plan.next_action(progress) {
            Action::Finish => return (ran, shown, progress),
            Action::Show(at) => {
                shown.push(plan.steps[at].command.clone());
                progress = plan.record(progress, &Ok(()));
            }
            Action::Execute(at) => {
                let line = plan.steps[at].command.clone();
                let outcome = if fails.contains(&line.as_str()) {
                    Err(StepError::NonZeroExit { code: Some(1) })
                } else {
                    Ok(())
                };
                ran.push(line);
                progress = plan.record(progress, &outcome);
            }
        }
    }
}

#[test]
fn failed_step_stops_command_that_does_not_keep_going() {
    let plan = run_plan(&["a", "b", "c"], Some(false), false);
    let (ran, shown, progress) = run_drive(&plan, &["a"]);
    assert_eq!(ran, vec!["a"]);
    assert!(shown.is_empty());
    assert_eq!(progress.attempted(), 1);
    assert_eq!(progress.failed(), 1);
    assert!(progress.halted());
    assert!(!plan.succeeded(progress));
}

#[test]
fn absent_keep_going_means_stop() {
    let plan = run_plan(&["a", "b", "c"], None, false);
    assert!(!plan.keep_going);
    let (ran, _, progress) = run_drive(&plan, &["b"]);
    assert_eq!(ran, vec!["a", "b"]);
    assert_eq!(progress.attempted(), 2);
    assert_eq!(progress.failed(), 1);
    assert!(progress.halted());
}

#[test]
fn failed_step_does_not_stop_command_that_keeps_going() {
    let plan = run_plan(&["a", "b", "c"], Some(true), false);
    let (ran, _, progress) = run_drive(&plan, &["a"]);
    assert_eq!(ran, vec!["a", "b", "c"]);
    assert_eq!(progress.attempted(), 3);
    assert_eq!(progress.failed(), 1);
    assert!(!progress.halted());
    assert!(!plan.succeeded(progress));
}

#[test]
fn keep_going_counts_every_failure() {
    let plan = run_plan(&["a", "b", "c"], Some(true), false);
    let (ran, _, progress) = run_drive(&plan, &["a", "c"]);
    assert_eq!(ran, vec!["a", "b", "c"]);
    assert_eq!(progress.failed(), 2);
    assert!(!plan.succeeded(progress));
}

#[test]
fn command_without_failure_succeeds() {
    for keep_going in [None, Some(false), Some(true)] {
        let plan = run_plan(&["a", "b", "c"], keep_going, false);
        let (ran, _, progress) = run_drive(&plan, &[]);
        assert_eq!(ran, vec!["a", "b", "c"]);
        assert_eq!(progress.attempted(), 3);
        assert_eq!(progress.failed(), 0);
        assert!(plan.succeeded(progress));
    }
}

#[test]
fn dry_run_shows_substituted_text_and_runs_nothing() {
    let plan = run_plan(&["echo hello {{name}}", "rm -rf {{name}}"], None, true);
    let (ran, shown, progress) = run_drive(&plan, &["echo hello Ada", "rm -rf Ada"]);
    assert!(ran.is_empty());
    assert_eq!(shown, vec!["echo hello Ada", "rm -rf Ada"]);
    assert_eq!(progress.attempted(), 2);
    assert_eq!(progress.failed(), 0);
    assert!(plan.succeeded(progress));
    assert_eq!(plan.steps[0].shell, "sh -c");
}

#[test]
fn dry_run_takes_reported_failure_as_success() {
    let plan = run_plan(&["a", "b"], Some(false), true);
    let failure = Err(StepError::SpawnFailure);
    assert_eq!(plan.reaction(&failure), Reaction::Proceed);
    let progress = plan.record(Progress::start(), &failure);
    assert_eq!(progress.failed(), 0);
    assert!(!progress.halted());
    assert_eq!(plan.next_action(progress), Action::Show(1));
}

#[test]
fn single_line_body_is_one_step() {
    let command = CommandDef {
        cmd: CommandValue::String("echo hello {{name}}".to_string()),
        alias: None,
        help: None,
        keep_going: None,
        shell: None,
        variables: None,
    };
    let project = run_project("greet", command);
    let data = CmdArgs { cmd: "greet".to_string(), dryrun: false, verbose: false };
    let plan = handle_cmd(&data, &project).unwrap();
    assert_eq!(plan.name, "greet");
    assert_eq!(plan.steps.len(), 1);
    assert_eq!(plan.steps[0].script, "sh -c \"echo hello Ada\"");
    let start = Progress::start();
    assert_eq!(plan.next_action(start), Action::Execute(0));
    let result = ExecutionResult { stdout: b"hello Ada\n".to_vec(), stderr: Vec::new(), exit_code: Some(0) };
    let done = plan.record(start, &step_outcome(Some(&result)));
    assert_eq!(plan.next_action(done), Action::Finish);
    assert!(plan.succeeded(done));
}

#[test]
fn empty_body_finishes_at_once() {
    let plan = run_plan(&[], None, false);
    let start = Progress::start();
    assert_eq!(plan.next_action(start), Action::Finish);
    assert!(plan.succeeded(start));
    let same = plan.record(start, &Err(StepError::SpawnFailure));
    assert_eq!(same, start);
}

#[test]
fn recording_on_finished_run_changes_nothing() {
    let plan = run_plan(&["a", "b"], Some(false), false);
    let halted = plan.record(Progress::start(), &Err(StepError::SpawnFailure));
    assert_eq!(plan.record(halted, &Ok(())), halted);
    assert_eq!(plan.record(halted, &Err(StepError::SpawnFailure)), halted);
}

#[test]
fn unfinished_run_has_not_succeeded() {
    let plan = run_plan(&["a", "b"], None, false);
    let start = Progress::start();
    assert!(!plan.succeeded(start));
    let one = plan.record(start, &Ok(()));
    assert!(!plan.succeeded(one));
    assert!(plan.succeeded(plan.record(one, &Ok(()))));
}

#[test]
fn reaction_follows_outcome_and_policy() {
    let stop = run_plan(&["a"], Some(false), false);
    let go = run_plan(&["a"], Some(true), false);
    let failure = Err(StepError::NonZeroExit { code: Some(2) });
    assert_eq!(stop.reaction(&Ok(())), Reaction::Proceed);
    assert_eq!(go.reaction(&Ok(())), Reaction::Proceed);
    assert_eq!(stop.reaction(&failure), Reaction::Stop);
    assert_eq!(go.reaction(&failure), Reaction::KeepGoing);
    assert_eq!(stop.reaction(&Err(StepError::SpawnFailure)), Reaction::Stop);
}

#[test]
fn steps_are_announced_in_verbose_and_dry_runs() {
    let project = run_project("job", run_command(&["a"], None));
    for (dry, verbose, expected) in [
        (false, false, false),
        (true, false, true),
        (false, true, true),
        (true, true, true),
    ] {
        let data = CmdArgs { cmd: "job".to_string(), dryrun: dry, verbose };
        let plan = handle_cmd(&data, &project).unwrap();
        assert_eq!(plan.announces(), expected);
        assert_eq!(plan.dry_run, dry);
        assert_eq!(plan.verbose, verbose);
    }
}

#[test]
fn handle_cmd_reports_unknown_command() {
    let project = run_project("job", run_command(&["a"], None));
    let data = CmdArgs { cmd: "nope".to_string(), dryrun: false, verbose: false };
    assert_eq!(handle_cmd(&data, &project), None);
}

#[test]
fn handle_cmd_finds_command_by_alias() {
    let mut command = run_command(&["a"], None);
    command.alias = Some("j".to_string());
    let project = run_project("job", command);
    let by_alias = handle_cmd(&CmdArgs { cmd: "j".to_string(), dryrun: false, verbose: false }, &project).unwrap();
    assert_eq!(by_alias.name, "j");
    assert_eq!(by_alias.steps.len(), 1);
    assert_eq!(by_alias.steps[0].command, "a");
}

#[test]
fn step_outcome_tells_failures_apart() {
    let ok = ExecutionResult { stdout: Vec::new(), stderr: Vec::new(), exit_code: Some(0) };
    let bad = ExecutionResult { stdout: Vec::new(), stderr: Vec::new(), exit_code: Some(3) };
    let negative = ExecutionResult { stdout: Vec::new(), stderr: Vec::new(), exit_code: Some(-1) };
    let killed = ExecutionResult { stdout: Vec::new(), stderr: Vec::new(), exit_code: None };
    assert_eq!(step_outcome(Some(&ok)), Ok(()));
    assert_eq!(step_outcome(Some(&bad)), Err(StepError::NonZeroExit { code: Some(3) }));
    assert_eq!(step_outcome(Some(&negative)), Err(StepError::NonZeroExit { code: Some(-1) }));
    assert_eq!(step_outcome(Some(&killed)), Err(StepError::NonZeroExit { code: None }));
    assert_eq!(step_outcome(None), Err(StepError::SpawnFailure));
}

#[test]
fn output_is_passed_on_only_where_there_is_some() {
    let result = |out: &[u8], err: &[u8]| ExecutionResult {
        stdout: out.to_vec(),
        stderr: err.to_vec(),
        exit_code: Some(0),
    };
    assert_eq!(result(b"", b"").streams(), Vec::<Stream>::new());
    assert_eq!(result(b"o", b"").streams(), vec![Stream::Stdout]);
    assert_eq!(result(b"", b"e").streams(), vec![Stream::Stderr]);
    assert_eq!(result(b"o", b"e").streams(), vec![Stream::Stdout, Stream::Stderr]);
}
