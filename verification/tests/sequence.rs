use flockrunner::cli::cmd::{Action, CommandPlan, Progress};
use flockrunner::cli::command_handler::StepError;
use flockrunner::cli::seq::{handle_seq, SeqArgs, SequenceEntry, SequencePlan, SequenceProgress};
use flockrunner::yaml::project_config::{CommandDef, CommandValue, ProjectConfig};

fn seq_command(lines: &[&str], alias: Option<&str>, keep_going: Option<bool>) -> CommandDef {
    CommandDef {
        cmd: CommandValue::List(lines.iter().map(|l| l.to_string()).collect()),
        alias: alias.map(|a| a.to_string()),
        help: None,
        keep_going,
        shell: None,
        variables: None,
    }
}

fn seq_project() -> ProjectConfig {
    let mut project = ProjectConfig::new();
    project.commands.push(("build".to_string(), seq_command(&["compile", "link"], Some("b"), None)));
    project.commands.push(("push".to_string(), seq_command(&["upload"], Some("p"), None)));
    project.sequence = Some(vec![
        ("deploy".to_string(), vec!["build".to_string(), "push".to_string()]),
        ("odd".to_string(), vec!["b".to_string(), "ghost".to_string(), "push".to_string()]),
        ("none".to_string(), Vec::new()),
    ]);
    project
}

fn seq_ask(name: &str) -> SeqArgs {
    SeqArgs { seq: name.to_string(), dryrun: false, verbose: false }
}

fn seq_run_command(plan: &CommandPlan, fails: &[&str], ran: &mut Vec<String>) -> Progress {
    let mut progress = Progress::start();
    loop {
        match plan.next_action(progress) {
            Action::Finish => return progress,
            Action::Show(_) => progress = plan.record(progress, &Ok(())),
            Action::Execute(at) => {
                let line = plan.steps[at].command.clone();
                let outcome = if fails.contains(&line.as_str()) {
                    Err(StepError::NonZeroExit { code: Some(1) })
                } else {
                    Ok(())
                };
                ran.push(line);
                progress = plan.record(progress, &outcome);
            }
        }
    }
}

fn seq_drive(plan: &SequencePlan, fails: &[&str]) -> (Vec<String>, Vec<String>, SequenceProgress) {
    let mut ran = Vec::new();
    let mut skipped = Vec::new();
    let mut progress = SequenceProgress::start();
    while let Some(at) = plan.current(progress) {
        match &plan.entries[at] {
            SequenceEntry::Missing(name) => {
                skipped.push(name.clone());
                progress = plan.record(progress, Progress::start());
            }
            SequenceEntry::Command(command) => {
                let done = seq_run_command(command, fails, &mut ran);
                progress = plan.record(progress, done);
            }
        }
    }
    (ran, skipped, progress)
}

#[test]
fn sequence_goes_on_after_failed_command() {
    let plan = handle_seq(&seq_ask("deploy"), &seq_project()).unwrap();
    let (ran, skipped, progress) = seq_drive(&plan, &["compile"]);
    assert_eq!(ran, vec!["compile", "upload"]);
    assert!(skipped.is_empty());
    assert_eq!(progress.handled(), 2);
    assert_eq!(progress.failed(), 1);
    assert_eq!(progress.missing(), 0);
    assert!(!plan.succeeded(progress));
}

#[test]
fn sequence_runs_commands_in_order() {
    let plan = handle_seq(&seq_ask("deploy"), &seq_project()).unwrap();
    assert_eq!(plan.name, "deploy");
    let (ran, _, progress) = seq_drive(&plan, &[]);
    assert_eq!(ran, vec!["compile", "link", "upload"]);
    assert_eq!(progress.handled(), 2);
    assert_eq!(progress.failed(), 0);
    assert!(plan.succeeded(progress));
}

#[test]
fn sequence_skips_unknown_command_and_goes_on() {
    let plan = handle_seq(&seq_ask("odd"), &seq_project()).unwrap();
    let (ran, skipped, progress) = seq_drive(&plan, &[]);
    assert_eq!(ran, vec!["upload"]);
    assert_eq!(skipped, vec!["b", "ghost"]);
    assert_eq!(progress.handled(), 3);
    assert_eq!(progress.missing(), 2);
    assert_eq!(progress.failed(), 0);
    assert!(!plan.succeeded(progress));
}

#[test]
fn sequence_does_not_resolve_aliases() {
    let plan = handle_seq(&seq_ask("odd"), &seq_project()).unwrap();
    assert_eq!(plan.entries[0], SequenceEntry::Missing("b".to_string()));
    assert!(matches!(plan.entries[2], SequenceEntry::Command(_)));
}

#[test]
fn unknown_sequence_is_not_found() {
    assert_eq!(handle_seq(&seq_ask("nope"), &seq_project()), None);
    assert_eq!(handle_seq(&seq_ask("build"), &seq_project()), None);
    let mut bare = seq_project();
    bare.sequence = None;
    assert_eq!(handle_seq(&seq_ask("deploy"), &bare), None);
}

#[test]
fn empty_sequence_is_finished_and_succeeded() {
    let plan = handle_seq(&seq_ask("none"), &seq_project()).unwrap();
    let start = SequenceProgress::start();
    assert_eq!(plan.current(start), None);
    assert!(plan.succeeded(start));
    assert_eq!(plan.record(start, Progress::start()), start);
}

#[test]
fn unfinished_command_counts_as_failed() {
    let plan = handle_seq(&seq_ask("deploy"), &seq_project()).unwrap();
    let progress = plan.record(SequenceProgress::start(), Progress::start());
    assert_eq!(progress.handled(), 1);
    assert_eq!(progress.failed(), 1);
    assert_eq!(plan.current(progress), Some(1));
}

#[test]
fn sequence_passes_flags_to_its_commands() {
    let data = SeqArgs { seq: "deploy".to_string(), dryrun: true, verbose: true };
    let plan = handle_seq(&data, &seq_project()).unwrap();
    for entry in &plan.entries {
        match entry {
            SequenceEntry::Command(command) => {
                assert!(command.dry_run);
                assert!(command.verbose);
                assert_eq!(command.next_action(Progress::start()), Action::Show(0));
            }
            SequenceEntry::Missing(name) => panic!("{} should be known", name),
        }
    }
}

#[test]
fn keep_going_is_decided_per_command() {
    let mut project = seq_project();
    project.commands[0].1.keep_going = Some(true);
    let plan = handle_seq(&seq_ask("deploy"), &project).unwrap();
    let (ran, _, progress) = seq_drive(&plan, &["compile", "upload"]);
    assert_eq!(ran, vec!["compile", "link", "upload"]);
    assert_eq!(progress.failed(), 2);
}
