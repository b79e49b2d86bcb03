//! Variable substitution, shell selection, and the making of one step.

use crate::text::{append_chars, from_chars, replace_all, replace_chars, to_chars};
use crate::yaml::project_config::{
    lemma_first_at_unique, lookup, position, CommandDef, ProjectConfig,
};
use vstd::prelude::*;

verus! {

/// The token that stands for the variable `key` in a template: the key
/// between two pairs of braces.
pub open spec fn placeholder(key: Seq<char>) -> Seq<char> {
    seq!['{', '{'] + key + seq!['}', '}']
}

/// `value` with every single quote written as `'\''`, so that the value
/// survives being quoted again by a shell.
pub open spec fn escape_quotes(value: Seq<char>) -> Seq<char> {
    replace_all(value, seq!['\''], seq!['\'', '\\', '\'', '\''])
}

/// `text` with every placeholder of `key` replaced by the escaped `value`.
pub open spec fn substitute(text: Seq<char>, key: Seq<char>, value: Seq<char>) -> Seq<char> {
    replace_all(text, placeholder(key), escape_quotes(value))
}

/// `template` after each variable, in the order of the list, has been
/// substituted once into what the variables before it left.
pub open spec fn resolve(template: Seq<char>, variables: Seq<(Seq<char>, Seq<char>)>) -> Seq<
    char,
>
    decreases variables.len(),
{
    if variables.len() == 0 {
        template
    } else {
        substitute(
            resolve(template, variables.drop_last()),
            variables.last().0,
            variables.last().1,
        )
    }
}

/// The shell template used where a command names none, or names one that
/// the project does not define.
pub open spec fn default_shell() -> Seq<char> {
    seq!['s', 'h', ' ', '-', 'c']
}

/// The shell template for a command that refers to `shell`: the template
/// that the table holds under that name, with the variables substituted, or
/// the default where the reference or the entry is missing.
pub open spec fn select_shell(
    shell: Option<Seq<char>>,
    shells: Option<Seq<(Seq<char>, Seq<char>)>>,
    variables: Seq<(Seq<char>, Seq<char>)>,
) -> Seq<char> {
    match (shell, shells) {
        (Some(name), Some(table)) => match lookup(table, name) {
            Some(template) => resolve(template, variables),
            None => default_shell(),
        },
        _ => default_shell(),
    }
}

fn placeholder_chars(key: &Vec<char>) -> (token: Vec<char>)
    ensures
        token@ == placeholder(key@),
{
    let mut token: Vec<char> = Vec::new();
    token.push('{');
    token.push('{');
    append_chars(&mut token, key);
    token.push('}');
    token.push('}');
    assert(token@ =~= placeholder(key@));
    token
}

fn escape_chars(value: &Vec<char>) -> (escaped: Vec<char>)
    ensures
        escaped@ == escape_quotes(value@),
{
    let mut quote: Vec<char> = Vec::new();
    quote.push('\'');
    let mut written: Vec<char> = Vec::new();
    written.push('\'');
    written.push('\\');
    written.push('\'');
    written.push('\'');
    assert(quote@ =~= seq!['\'']);
    assert(written@ =~= seq!['\'', '\\', '\'', '\'']);
    replace_chars(value, &quote, &written)
}

/// Substitutes the variables into `command`.
///
/// Each variable is taken once, in the order of the list: every `{{key}}`
/// in the text becomes the variable's value with its single quotes escaped.
/// A key without a placeholder changes nothing, and a placeholder without a
/// key stays as it is.
pub fn parse_command(command: &String, variables: &Vec<(String, String)>) -> (resolved: String)
    ensures
        resolved@ == resolve(command@, variables.deep_view()),
        variables.len() == 0 ==> resolved@ == command@,
{
    let mut text = to_chars(command.as_str());
    let mut i: usize = 0;
    assert(variables.deep_view().take(0).len() == 0);
    while i < variables.len()
        invariant
            i <= variables.len(),
            text@ == resolve(command@, variables.deep_view().take(i as int)),
        decreases variables.len() - i,
    {
        let token = placeholder_chars(&to_chars(variables[i].0.as_str()));
        let value = escape_chars(&to_chars(variables[i].1.as_str()));
        text = replace_chars(&text, &token, &value);
        proof {
            let all = variables.deep_view();
            let upto = all.take(i + 1);
            assert(upto.drop_last() =~= all.take(i as int));
            assert(upto.last() == all[i as int]);
        }
        i = i + 1;
    }
    assert(variables.deep_view().take(i as int) =~= variables.deep_view());
    from_chars(&text)
}

/// The shell template for a command that refers to `shell`.
///
/// Without a reference the default, `sh -c`. With one, the template that
/// the project's shell table holds under that name, with the project's
/// variables substituted; where the table or the entry is missing, the
/// default again: an unknown shell is no error.
pub fn return_shell(project: &ProjectConfig, shell: Option<&String>) -> (template: String)
    ensures
        template@ == select_shell(shell.deep_view(), project@.shells, project@.variables),
{
    let fallback = "sh -c";
    proof {
        reveal_strlit("sh -c");
        assert(fallback@ =~= default_shell());
    }
    match shell {
        Some(name) => match &project.shells {
            Some(table) => match position(table, name) {
                Some(at) => {
                    proof {
                        lemma_first_at_unique(table.deep_view(), name@, at as int);
                    }
                    parse_command(&table[at].1, &project.variables)
                },
                None => fallback.to_string(),
            },
            None => fallback.to_string(),
        },
        None => fallback.to_string(),
    }
}

/// One step, ready for the system shell.
#[derive(Debug, PartialEq, Eq)]
pub struct Invocation {
    /// The shell template, variables substituted.
    pub shell: String,
    /// The command line, variables substituted.
    pub command: String,
    /// What is handed to the system shell: the shell template, a space, and
    /// the command line between double quotes.
    pub script: String,
}

/// What an `Invocation` stands for.
pub struct InvocationModel {
    pub shell: Seq<char>,
    pub command: Seq<char>,
    pub script: Seq<char>,
}

impl DeepView for Invocation {
    type V = InvocationModel;

    open spec fn deep_view(&self) -> InvocationModel {
        InvocationModel { shell: self.shell@, command: self.command@, script: self.script@ }
    }
}

impl View for Invocation {
    type V = InvocationModel;

    open spec fn view(&self) -> InvocationModel {
        self.deep_view()
    }
}

impl Clone for Invocation {
    fn clone(&self) -> (copy: Self)
        ensures
            copy@ == self@,
    {
        Invocation {
            shell: self.shell.clone(),
            command: self.command.clone(),
            script: self.script.clone(),
        }
    }
}

/// The command line as the trailing argument of the shell template: the
/// template, a space, and the command line between double quotes.
pub open spec fn script_of(shell: Seq<char>, command: Seq<char>) -> Seq<char> {
    shell + seq![' ', '"'] + command + seq!['"']
}

/// The step that the command line `line` makes under the shell that the
/// command refers to, with the project's variables.
pub open spec fn invocation_of(
    shell: Option<Seq<char>>,
    line: Seq<char>,
    shells: Option<Seq<(Seq<char>, Seq<char>)>>,
    variables: Seq<(Seq<char>, Seq<char>)>,
) -> InvocationModel {
    let template = select_shell(shell, shells, variables);
    let command = resolve(line, variables);
    InvocationModel { shell: template, command, script: script_of(template, command) }
}

/// Makes the step for one command line of `command`: selects the shell,
/// substitutes the project's variables into the line, and joins the two
/// into the script for the system shell. Nothing is run.
pub fn prepare_shell_command(
    command: &CommandDef,
    exec_command: &String,
    project: &ProjectConfig,
) -> (step: Invocation)
    ensures
        step@ == invocation_of(
            command@.shell,
            exec_command@,
            project@.shells,
            project@.variables,
        ),
{
    let shell = return_shell(project, command.shell.as_ref());
    let processed = parse_command(exec_command, &project.variables);
    let mut script = to_chars(shell.as_str());
    script.push(' ');
    script.push('"');
    append_chars(&mut script, &to_chars(processed.as_str()));
    script.push('"');
    assert(script@ =~= script_of(shell@, processed@));
    Invocation { shell, command: processed, script: from_chars(&script) }
}

/// What came back from a step that the shell ran to its end.
#[derive(Debug, PartialEq, Eq)]
pub struct ExecutionResult {
    /// Everything the step wrote to its standard output.
    pub stdout: Vec<u8>,
    /// Everything the step wrote to its standard error.
    pub stderr: Vec<u8>,
    /// The exit status, where the step ended with one.
    pub exit_code: Option<i32>,
}

/// Why a step failed.
#[derive(Clone, Copy, Debug, PartialEq, Eq)]
pub enum StepError {
    /// The shell could not be launched.
    SpawnFailure,
    /// The step ran and ended with a status other than zero, or with none.
    NonZeroExit { code: Option<i32> },
}

/// One of the two streams that a step's output is passed on to.
#[derive(Clone, Copy, Debug, PartialEq, Eq)]
pub enum Stream {
    Stdout,
    Stderr,
}

/// The streams on which the output of a finished step is passed on, in
/// order: standard output first, then standard error, each only where the
/// step wrote something to it.
pub open spec fn streams_of(stdout: Seq<u8>, stderr: Seq<u8>) -> Seq<Stream> {
    let first = if stdout.len() > 0 {
        seq![Stream::Stdout]
    } else {
        Seq::<Stream>::empty()
    };
    if stderr.len() > 0 {
        first.push(Stream::Stderr)
    } else {
        first
    }
}

/// How a step ended: `None` where the shell could not be launched, else the
/// exit status.
pub open spec fn outcome_of(execution: Option<Option<i32>>) -> Result<(), StepError> {
    match execution {
        None => Err(StepError::SpawnFailure),
        Some(code) => if code == Some(0i32) {
            Ok(())
        } else {
            Err(StepError::NonZeroExit { code })
        },
    }
}

impl ExecutionResult {
    /// The streams on which this result's output is passed on, in order.
    pub fn streams(&self) -> (order: Vec<Stream>)
        ensures
            order@ == streams_of(self.stdout@, self.stderr@),
    {
        let mut order: Vec<Stream> = Vec::new();
        if self.stdout.len() > 0 {
            order.push(Stream::Stdout);
        }
        if self.stderr.len() > 0 {
            order.push(Stream::Stderr);
        }
        assert(order@ =~= streams_of(self.stdout@, self.stderr@));
        order
    }
}

/// Judges a step by what came back from running it: `None` where the shell
/// could not be launched. A step succeeds only with exit status zero.
pub fn step_outcome(execution: Option<&ExecutionResult>) -> (outcome: Result<(), StepError>)
    ensures
        outcome == outcome_of(
            match execution {
                Some(result) => Some(result.exit_code),
                None => None,
            },
        ),
{
    match execution {
        None => Err(StepError::SpawnFailure),
        Some(result) => match result.exit_code {
            Some(code) => if code == 0 {
                Ok(())
            } else {
                Err(StepError::NonZeroExit { code: Some(code) })
            },
            None => Err(StepError::NonZeroExit { code: None }),
        },
    }
}

} // verus!
