use flockrunner::cli::command_handler::{parse_command, prepare_shell_command, return_shell};
use flockrunner::text::{from_chars, matches_at, replace_chars, to_chars};
use flockrunner::yaml::project_config::{CommandDef, CommandValue, ProjectConfig};

fn subst_pairs(pairs: &[(&str, &str)]) -> Vec<(String, String)> {
    pairs.iter().map(|(k, v)| (k.to_string(), v.to_string())).collect()
}

fn replace(text: &str, pat: &str, to: &str) -> String {
    from_chars(&replace_chars(&to_chars(text), &to_chars(pat), &to_chars(to)))
}

fn subst_project(variables: &[(&str, &str)], shells: Option<&[(&str, &str)]>) -> ProjectConfig {
    let mut project = ProjectConfig::new();
    project.variables = subst_pairs(variables);
    project.shells = shells.map(subst_pairs);
    project
}

fn subst_command(line: &str, shell: Option<&str>) -> CommandDef {
    CommandDef {
        cmd: CommandValue::String(line.to_string()),
        alias: None,
        help: None,
        keep_going: None,
        shell: shell.map(|s| s.to_string()),
        variables: None,
    }
}

#[test]
fn chars_round_trip() {
    let chars = to_chars("héllo {{x}}");
    assert_eq!(chars, "héllo {{x}}".chars().collect::<Vec<char>>());
    assert_eq!(from_chars(&chars), "héllo {{x}}");
    assert_eq!(from_chars(&vec!['a', 'b']), "ab");
    assert_eq!(from_chars(&Vec::new()), "");
}

#[test]
fn matches_at_finds_pattern_only_where_it_stands() {
    let text = to_chars("abcabc");
    let pat = to_chars("bc");
    assert!(!matches_at(&text, &pat, 0));
    assert!(matches_at(&text, &pat, 1));
    assert!(matches_at(&text, &pat, 4));
    assert!(!matches_at(&text, &pat, 5));
    assert!(!matches_at(&text, &pat, 6));
    assert!(!matches_at(&text, &pat, 7));
    assert!(!matches_at(&text, &Vec::new(), 7));
    assert!(matches_at(&text, &Vec::new(), 6));
}

#[test]
fn replace_agrees_with_std_on_plain_cases() {
    let cases = [
        ("echo {{a}} and {{a}}", "{{a}}", "x"),
        ("aaa", "aa", "b"),
        ("aaaa", "aa", "b"),
        ("abc", "d", "x"),
        ("", "a", "x"),
        ("{{{k}}", "{{k}}", "v"),
        ("ab", "ab", ""),
        ("xüy", "ü", "ue"),
    ];
    for (text, pat, to) in cases {
        assert_eq!(replace(text, pat, to), text.replace(pat, to));
    }
}

#[test]
fn replace_takes_occurrences_from_the_left_without_overlap() {
    assert_eq!(replace("aaa", "aa", "b"), "ba");
    assert_eq!(replace("ababa", "aba", "x"), "xba");
}

#[test]
fn replace_does_not_search_what_it_put_in() {
    assert_eq!(replace("ab", "a", "aa"), "aab");
    assert_eq!(replace("xx", "x", "xx"), "xxxx");
}

#[test]
fn replace_with_empty_pattern_changes_nothing() {
    assert_eq!(replace("abc", "", "x"), "abc");
    assert_eq!(
        replace_chars(&to_chars("abc"), &Vec::new(), &to_chars("x")),
        to_chars("abc")
    );
}

#[test]
fn parse_command_replaces_every_occurrence() {
    let vars = subst_pairs(&[("name", "Ada")]);
    assert_eq!(
        parse_command(&"echo {{name}} {{name}}!".to_string(), &vars),
        "echo Ada Ada!"
    );
}

#[test]
fn parse_command_leaves_unrelated_text_untouched() {
    let vars = subst_pairs(&[("name", "Ada")]);
    assert_eq!(
        parse_command(&"awk '{print $1}' {name} {{ name }} {{name}}".to_string(), &vars),
        "awk '{print $1}' {name} {{ name }} Ada"
    );
}

#[test]
fn parse_command_without_variables_returns_template() {
    let vars: Vec<(String, String)> = Vec::new();
    for template in ["", "echo hi", "echo {{name}}", "{{}}", "'quoted'"] {
        assert_eq!(parse_command(&template.to_string(), &vars), template);
    }
}

#[test]
fn parse_command_ignores_keys_without_placeholder() {
    let vars = subst_pairs(&[("unused", "zzz"), ("name", "Ada")]);
    assert_eq!(parse_command(&"echo {{name}}".to_string(), &vars), "echo Ada");
    assert_eq!(parse_command(&"echo plain".to_string(), &vars), "echo plain");
}

#[test]
fn parse_command_keeps_placeholders_without_key() {
    let vars = subst_pairs(&[("name", "Ada")]);
    assert_eq!(
        parse_command(&"echo {{name}} {{other}}".to_string(), &vars),
        "echo Ada {{other}}"
    );
}

#[test]
fn parse_command_escapes_single_quotes() {
    let vars = subst_pairs(&[("who", "it's"), ("q", "'")]);
    assert_eq!(parse_command(&"say {{who}}".to_string(), &vars), "say it'\\''s");
    assert_eq!(parse_command(&"{{q}}".to_string(), &vars), "'\\''");
}

#[test]
fn parse_command_fills_several_variables() {
    let vars = subst_pairs(&[("a", "1"), ("b", "2"), ("c", "")]);
    assert_eq!(
        parse_command(&"{{a}}+{{b}}={{c}}{{a}}{{b}}".to_string(), &vars),
        "1+2=12"
    );
}

#[test]
fn parse_command_takes_variables_in_order() {
    let forward = subst_pairs(&[("a", "{{b}}"), ("b", "x")]);
    assert_eq!(parse_command(&"{{a}}".to_string(), &forward), "x");
    let backward = subst_pairs(&[("b", "x"), ("a", "{{b}}")]);
    assert_eq!(parse_command(&"{{a}}".to_string(), &backward), "{{b}}");
}

#[test]
fn parse_command_agrees_with_replacing_one_key_after_the_other() {
    let vars = subst_pairs(&[("d", "/tmp/o'brien"), ("f", "a b"), ("x", "{{d}}")]);
    let template = "cp {{f}} {{d}}/{{f}} # {{x}} {{y}}";
    let mut expected = template.to_string();
    for (key, value) in &vars {
        let token = format!("{{{{{}}}}}", key);
        expected = expected.replace(&token, &value.replace('\'', "'\\''"));
    }
    assert_eq!(parse_command(&template.to_string(), &vars), expected);
}

#[test]
fn return_shell_defaults_without_reference() {
    let project = subst_project(&[], Some(&[("bash", "bash -c")]));
    assert_eq!(return_shell(&project, None), "sh -c");
}

#[test]
fn return_shell_finds_named_shell() {
    let project = subst_project(&[], Some(&[("bash", "bash -c"), ("zsh", "zsh -c")]));
    assert_eq!(return_shell(&project, Some(&"zsh".to_string())), "zsh -c");
    assert_eq!(return_shell(&project, Some(&"bash".to_string())), "bash -c");
}

#[test]
fn return_shell_falls_back_on_unknown_reference() {
    let project = subst_project(&[], Some(&[("bash", "bash -c")]));
    assert_eq!(return_shell(&project, Some(&"fish".to_string())), "sh -c");
    let bare = subst_project(&[], None);
    assert_eq!(return_shell(&bare, Some(&"bash".to_string())), "sh -c");
}

#[test]
fn return_shell_substitutes_variables_into_template() {
    let project = subst_project(
        &[("host", "build01")],
        Some(&[("remote", "ssh {{host}} sh -c")]),
    );
    assert_eq!(
        return_shell(&project, Some(&"remote".to_string())),
        "ssh build01 sh -c"
    );
}

#[test]
fn return_shell_takes_first_entry_of_a_name() {
    let project = subst_project(&[], Some(&[("s", "first -c"), ("s", "second -c")]));
    assert_eq!(return_shell(&project, Some(&"s".to_string())), "first -c");
}

#[test]
fn prepare_joins_shell_and_quoted_command() {
    let project = subst_project(&[("name", "Ada")], None);
    let command = subst_command("echo hello {{name}}", None);
    let step = prepare_shell_command(&command, &"echo hello {{name}}".to_string(), &project);
    assert_eq!(step.shell, "sh -c");
    assert_eq!(step.command, "echo hello Ada");
    assert_eq!(step.script, "sh -c \"echo hello Ada\"");
}

#[test]
fn prepare_uses_the_shell_of_the_command() {
    let project = subst_project(&[("n", "1")], Some(&[("bash", "bash -c")]));
    let command = subst_command("echo {{n}}", Some("bash"));
    let step = prepare_shell_command(&command, &"echo {{n}}".to_string(), &project);
    assert_eq!(step.shell, "bash -c");
    assert_eq!(step.script, "bash -c \"echo 1\"");
    let lost = subst_command("echo {{n}}", Some("nowhere"));
    let step = prepare_shell_command(&lost, &"echo {{n}}".to_string(), &project);
    assert_eq!(step.script, "sh -c \"echo 1\"");
}

#[test]
fn prepare_does_not_use_the_variables_of_the_command() {
    let project = subst_project(&[("n", "project")], None);
    let mut command = subst_command("echo {{n}} {{m}}", None);
    command.variables = Some(subst_pairs(&[("n", "local"), ("m", "local")]));
    let step = prepare_shell_command(&command, &"echo {{n}} {{m}}".to_string(), &project);
    assert_eq!(step.command, "echo project {{m}}");
}
