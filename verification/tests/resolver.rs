use flockrunner::cli::cmd::{command_index, search_command, CmdArgs};
use flockrunner::yaml::project_config::{CommandDef, CommandValue, ProjectConfig};

fn res_command(line: &str, alias: Option<&str>) -> CommandDef {
    CommandDef {
        cmd: CommandValue::String(line.to_string()),
        alias: alias.map(|a| a.to_string()),
        help: Some(format!("help for {}", line)),
        keep_going: Some(true),
        shell: Some("bash".to_string()),
        variables: Some(vec![("k".to_string(), "v".to_string())]),
    }
}

fn res_project(commands: &[(&str, &str, Option<&str>)]) -> ProjectConfig {
    let mut project = ProjectConfig::new();
    for (name, line, alias) in commands {
        project.commands.push((name.to_string(), res_command(line, *alias)));
    }
    project
}

fn res_ask(name: &str) -> CmdArgs {
    CmdArgs { cmd: name.to_string(), dryrun: false, verbose: false }
}

#[test]
fn search_finds_command_by_name() {
    let project = res_project(&[("build", "make", None), ("test", "make test", None)]);
    assert_eq!(search_command(&res_ask("test"), &project), Some(res_command("make test", None)));
    assert_eq!(search_command(&res_ask("build"), &project), Some(res_command("make", None)));
}

#[test]
fn search_finds_command_by_alias() {
    let project = res_project(&[("build", "make", Some("b")), ("test", "make test", Some("t"))]);
    assert_eq!(
        search_command(&res_ask("t"), &project),
        Some(res_command("make test", Some("t")))
    );
}

#[test]
fn search_by_alias_and_by_name_give_identical_command() {
    let project = res_project(&[
        ("build", "make", Some("b")),
        ("test", "make test", Some("t")),
        ("lint", "make lint", None),
    ]);
    for (name, alias) in [("build", "b"), ("test", "t")] {
        let by_name = search_command(&res_ask(name), &project);
        let by_alias = search_command(&res_ask(alias), &project);
        assert!(by_name.is_some());
        assert_eq!(by_name, by_alias);
    }
}

#[test]
fn search_returns_none_without_match() {
    let project = res_project(&[("build", "make", Some("b"))]);
    assert_eq!(search_command(&res_ask("deploy"), &project), None);
    assert_eq!(search_command(&res_ask(""), &project), None);
    assert_eq!(search_command(&res_ask("build"), &ProjectConfig::new()), None);
}

#[test]
fn search_prefers_name_over_alias() {
    let project = res_project(&[("first", "one", Some("second")), ("second", "two", None)]);
    assert_eq!(search_command(&res_ask("second"), &project), Some(res_command("two", None)));
    assert_eq!(command_index(&project, &"second".to_string()), Some(1));
}

#[test]
fn search_takes_first_of_equal_aliases() {
    let project = res_project(&[
        ("a", "one", Some("x")),
        ("b", "two", Some("x")),
        ("c", "three", Some("x")),
    ]);
    assert_eq!(command_index(&project, &"x".to_string()), Some(0));
    assert_eq!(search_command(&res_ask("x"), &project), Some(res_command("one", Some("x"))));
}

#[test]
fn search_copies_every_field() {
    let mut project = ProjectConfig::new();
    let command = CommandDef {
        cmd: CommandValue::List(vec!["a".to_string(), "b".to_string()]),
        alias: Some("m".to_string()),
        help: Some("does much".to_string()),
        keep_going: Some(false),
        shell: Some("zsh".to_string()),
        variables: Some(vec![("x".to_string(), "1".to_string())]),
    };
    project.commands.push(("much".to_string(), command.clone()));
    assert_eq!(search_command(&res_ask("much"), &project), Some(command.clone()));
    assert_eq!(search_command(&res_ask("m"), &project), Some(command));
}
