//! The request as a whole: which of the three kinds it is, the variables
//! given with it, and what it asks to be done.

use crate::cli::cmd::{handle_cmd, plan_of, resolve_command, CmdArgs, CommandPlan};
use crate::cli::list::{handle_list, listing_of, ListArgs, ListEntry};
use crate::cli::seq::{handle_seq, sequence_of, SeqArgs, SequencePlan};
use crate::text::{char_index, find_char, from_chars, has_char, lemma_first_char_unique, to_chars};
use crate::yaml::project_config::{overlaid, overlay, put, updated, ProjectConfig, ProjectModel};
use vstd::prelude::*;

verus! {

/// What the request asks for.
#[derive(Debug, PartialEq, Eq)]
pub enum Commands {
    /// Run one command.
    Cmd(CmdArgs),
    /// Run one sequence.
    Sequence(SeqArgs),
    /// List the commands of the project.
    List(ListArgs),
}

/// A request as it comes from the command line.
#[derive(Debug, PartialEq, Eq)]
pub struct Cli {
    /// What is asked for.
    pub command: Commands,
    /// Variables given with the request. They override the project's.
    pub vars: Vec<(String, String)>,
    /// The path of the configuration document.
    pub file: Option<String>,
}

/// What is to be done for a request.
#[derive(Debug, PartialEq, Eq)]
pub enum Task {
    /// Show this listing.
    List(Vec<ListEntry>),
    /// Run this command.
    Command(CommandPlan),
    /// Run this sequence.
    Sequence(SequencePlan),
}

/// The request names something that the project does not have.
#[derive(Clone, Copy, Debug, PartialEq, Eq)]
pub enum NotFound {
    /// No command has the requested name or alias.
    Command,
    /// No sequence has the requested name.
    Sequence,
}

/// The project with the request's variables laid over its own.
pub open spec fn effective(project: ProjectModel, vars: Seq<(Seq<char>, Seq<char>)>) -> ProjectModel {
    ProjectModel { variables: overlaid(project.variables, vars), ..project }
}

/// Works out what a request asks to be done.
///
/// The variables given with the request are first laid over the project's
/// own, theirs winning where both name a key; all that follows sees the
/// project with these variables. A listing is always made. A command or a
/// sequence is laid out for its run, or reported as not found where the
/// project has nothing of the requested name.
pub fn handle_command(
    command: &Commands,
    vars: &Vec<(String, String)>,
    project: &mut ProjectConfig,
) -> (task: Result<Task, NotFound>)
    ensures
        final(project)@ == effective(old(project)@, vars.deep_view()),
        match command {
            Commands::List(_) => task matches Ok(Task::List(listing)) && listing.deep_view()
                == listing_of(final(project)@.commands),
            Commands::Cmd(data) => match resolve_command(final(project)@.commands, data.cmd@) {
                Some(found) => task matches Ok(Task::Command(plan)) && plan@ == plan_of(
                    data.cmd@,
                    found,
                    final(project)@,
                    data.dryrun,
                    data.verbose,
                ),
                None => task == Err::<Task, NotFound>(NotFound::Command),
            },
            Commands::Sequence(data) => match sequence_of(
                final(project)@,
                data.seq@,
                data.dryrun,
                data.verbose,
            ) {
                Some(sequence) => task matches Ok(Task::Sequence(plan)) && plan@ == sequence,
                None => task == Err::<Task, NotFound>(NotFound::Sequence),
            },
        },
{
    overlay(&mut project.variables, vars);
    match command {
        Commands::List(data) => Ok(Task::List(handle_list(data, project))),
        Commands::Cmd(data) => match handle_cmd(data, project) {
            Some(plan) => Ok(Task::Command(plan)),
            None => Err(NotFound::Command),
        },
        Commands::Sequence(data) => match handle_seq(data, project) {
            Some(plan) => Ok(Task::Sequence(plan)),
            None => Err(NotFound::Sequence),
        },
    }
}

/// The argument gives a variable: it holds an equals sign.
pub open spec fn is_assignment(arg: Seq<char>) -> bool {
    has_char(arg, '=')
}

/// The key and the value that an assignment gives: what stands before its
/// first equals sign, and what stands after it.
pub open spec fn assignment_of(arg: Seq<char>) -> (Seq<char>, Seq<char>)
    recommends
        is_assignment(arg),
{
    let at = char_index(arg, '=');
    (arg.take(at), arg.skip(at + 1))
}

/// What follows the program's own name on the command line.
pub open spec fn arguments(args: Seq<Seq<char>>) -> Seq<Seq<char>> {
    if args.len() == 0 {
        args
    } else {
        args.skip(1)
    }
}

/// The table `variables` after each assignment among `args` has been put
/// in, in order.
pub open spec fn assigned(
    variables: Seq<(Seq<char>, Seq<char>)>,
    args: Seq<Seq<char>>,
) -> Seq<(Seq<char>, Seq<char>)>
    decreases args.len(),
{
    if args.len() == 0 {
        variables
    } else {
        let before = assigned(variables, args.drop_last());
        let arg = args.last();
        if is_assignment(arg) {
            updated(before, assignment_of(arg).0, assignment_of(arg).1)
        } else {
            before
        }
    }
}

/// Those of `args` that give no variable, in order.
pub open spec fn positional(args: Seq<Seq<char>>) -> Seq<Seq<char>>
    decreases args.len(),
{
    if args.len() == 0 {
        args
    } else {
        let before = positional(args.drop_last());
        if is_assignment(args.last()) {
            before
        } else {
            before.push(args.last())
        }
    }
}

/// Splits `arg` at its first equals sign into a key and a value. `None`
/// where it holds no equals sign.
pub fn split_assignment(arg: &str) -> (pair: Option<(String, String)>)
    ensures
        pair.deep_view() == if is_assignment(arg@) {
            Some(assignment_of(arg@))
        } else {
            None
        },
{
    let chars = to_chars(arg);
    match find_char(&chars, '=') {
        Some(at) => {
            proof {
                lemma_first_char_unique(chars@, '=', at as int);
            }
            let mut key: Vec<char> = Vec::new();
            let mut i: usize = 0;
            while i < at
                invariant
                    i <= at < chars.len(),
                    key@ == chars@.take(i as int),
                decreases at - i,
            {
                key.push(chars[i]);
                assert(key@ =~= chars@.take(i + 1));
                i = i + 1;
            }
            let mut value: Vec<char> = Vec::new();
            let mut j: usize = at + 1;
            while j < chars.len()
                invariant
                    at < j <= chars.len(),
                    value@ == chars@.subrange(at + 1, j as int),
                decreases chars.len() - j,
            {
                value.push(chars[j]);
                assert(value@ =~= chars@.subrange(at + 1, j + 1));
                j = j + 1;
            }
            assert(value@ =~= chars@.skip(at + 1));
            Some((from_chars(&key), from_chars(&value)))
        },
        None => None,
    }
}

/// Sorts the arguments of a command line, the program's own name left out:
/// each argument with an equals sign is put into `cli_variables` as a key
/// and a value, a later one replacing an earlier one of the same key; each
/// other argument is added to `non_var_args`.
pub fn command_parser(
    cli_variables: &mut Vec<(String, String)>,
    non_var_args: &mut Vec<String>,
    args: &Vec<String>,
)
    ensures
        final(cli_variables).deep_view() == assigned(
            old(cli_variables).deep_view(),
            arguments(args.deep_view()),
        ),
        final(non_var_args).deep_view() == old(non_var_args).deep_view() + positional(
            arguments(args.deep_view()),
        ),
{
    if args.len() == 0 {
        assert(non_var_args.deep_view() =~= old(non_var_args).deep_view() + positional(
            arguments(args.deep_view()),
        ));
        return ;
    }
    let ghost rest = arguments(args.deep_view());
    let mut i: usize = 1;
    assert(rest.take(0).len() == 0);
    assert(non_var_args.deep_view() =~= old(non_var_args).deep_view() + positional(rest.take(0)));
    while i < args.len()
        invariant
            1 <= i <= args.len(),
            rest == args.deep_view().skip(1),
            cli_variables.deep_view() == assigned(
                old(cli_variables).deep_view(),
                rest.take(i - 1),
            ),
            non_var_args.deep_view() == old(non_var_args).deep_view() + positional(
                rest.take(i - 1),
            ),
        decreases args.len() - i,
    {
        proof {
            let upto = rest.take(i as int);
            assert(upto.drop_last() =~= rest.take(i - 1));
            assert(upto.last() == args[i as int]@);
        }
        let ghost before = non_var_args.deep_view();
        match split_assignment(args[i].as_str()) {
            Some(pair) => {
                put(cli_variables, pair.0, pair.1);
            },
            None => {
                non_var_args.push(args[i].clone());
                assert(non_var_args.deep_view() =~= before.push(args[i as int]@));
                assert(non_var_args.deep_view() =~= old(non_var_args).deep_view() + positional(
                    rest.take(i as int),
                ));
            },
        }
        i = i + 1;
    }
    assert(rest.take(i - 1) =~= rest);
}

/// What `check_args` answers to a command line with too few arguments.
pub open spec fn not_enough() -> Seq<char> {
    "Not enough arguments..."@
}

/// Checks that the command line names a configuration document, a kind of
/// request and a target, and gives the document's path.
///
/// Arguments that give a variable do not count. With at least three others
/// after the program's name the first of them is the path; with fewer the
/// command line is refused.
pub fn check_args(args: &Vec<String>) -> (path: Result<String, String>)
    ensures
        match path {
            Ok(found) => positional(arguments(args.deep_view())).len() >= 3 && found@
                == positional(arguments(args.deep_view()))[0],
            Err(message) => positional(arguments(args.deep_view())).len() < 3 && message@
                == not_enough(),
        },
{
    let mut variables: Vec<(String, String)> = Vec::new();
    let mut useful: Vec<String> = Vec::new();
    command_parser(&mut variables, &mut useful, args);
    assert(useful.deep_view() =~= positional(arguments(args.deep_view())));
    if useful.len() < 3 {
        return Err("Not enough arguments...".to_string());
    }
    Ok(useful[0].clone())
}

} // verus!
