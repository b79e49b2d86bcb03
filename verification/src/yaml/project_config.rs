//! The project model: variables, commands, sequences and shells.
//!
//! Every table is a list of entries in the order of their declaration. A
//! lookup takes the first entry with the wanted name, so the outcome never
//! depends on how a map happens to be walked.

use vstd::prelude::*;

verus! {

/// The body of a command: one command line, or several run in order.
#[derive(Debug, PartialEq, Eq)]
pub enum CommandValue {
    List(Vec<String>),
    String(String),
}

/// One runnable unit of the project.
#[derive(Debug, PartialEq, Eq)]
pub struct CommandDef {
    pub cmd: CommandValue,
    pub alias: Option<String>,
    pub help: Option<String>,
    pub keep_going: Option<bool>,
    pub shell: Option<String>,
    /// Declared per command, carried along, and not used in substitution.
    pub variables: Option<Vec<(String, String)>>,
}

/// The project as loaded from its configuration document.
#[derive(Debug, PartialEq, Eq)]
pub struct ProjectConfig {
    pub project: String,
    pub variables: Vec<(String, String)>,
    pub commands: Vec<(String, CommandDef)>,
    pub sequence: Option<Vec<(String, Vec<String>)>>,
    pub shells: Option<Vec<(String, String)>>,
}

/// What a `CommandValue` stands for.
pub enum BodyModel {
    List(Seq<Seq<char>>),
    String(Seq<char>),
}

/// What a `CommandDef` stands for.
pub struct CommandModel {
    pub cmd: BodyModel,
    pub alias: Option<Seq<char>>,
    pub help: Option<Seq<char>>,
    pub keep_going: Option<bool>,
    pub shell: Option<Seq<char>>,
    pub variables: Option<Seq<(Seq<char>, Seq<char>)>>,
}

/// What a `ProjectConfig` stands for.
pub struct ProjectModel {
    pub project: Seq<char>,
    pub variables: Seq<(Seq<char>, Seq<char>)>,
    pub commands: Seq<(Seq<char>, CommandModel)>,
    pub sequence: Option<Seq<(Seq<char>, Seq<Seq<char>>)>>,
    pub shells: Option<Seq<(Seq<char>, Seq<char>)>>,
}

impl BodyModel {
    /// The command lines of the body, in order: a single line counts as a
    /// list of one.
    pub open spec fn steps(self) -> Seq<Seq<char>> {
        match self {
            BodyModel::List(lines) => lines,
            BodyModel::String(line) => seq![line],
        }
    }
}

impl CommandModel {
    /// Whether a failed step lets the following steps run. Absent means no.
    pub open spec fn keeps_going(self) -> bool {
        self.keep_going == Some(true)
    }
}

impl DeepView for CommandValue {
    type V = BodyModel;

    open spec fn deep_view(&self) -> BodyModel {
        match self {
            CommandValue::List(lines) => BodyModel::List(lines.deep_view()),
            CommandValue::String(line) => BodyModel::String(line@),
        }
    }
}

impl View for CommandValue {
    type V = BodyModel;

    open spec fn view(&self) -> BodyModel {
        self.deep_view()
    }
}

impl DeepView for CommandDef {
    type V = CommandModel;

    open spec fn deep_view(&self) -> CommandModel {
        CommandModel {
            cmd: self.cmd.deep_view(),
            alias: self.alias.deep_view(),
            help: self.help.deep_view(),
            keep_going: self.keep_going,
            shell: self.shell.deep_view(),
            variables: self.variables.deep_view(),
        }
    }
}

impl View for CommandDef {
    type V = CommandModel;

    open spec fn view(&self) -> CommandModel {
        self.deep_view()
    }
}

impl DeepView for ProjectConfig {
    type V = ProjectModel;

    open spec fn deep_view(&self) -> ProjectModel {
        ProjectModel {
            project: self.project@,
            variables: self.variables.deep_view(),
            commands: self.commands.deep_view(),
            sequence: self.sequence.deep_view(),
            shells: self.shells.deep_view(),
        }
    }
}

impl View for ProjectConfig {
    type V = ProjectModel;

    open spec fn view(&self) -> ProjectModel {
        self.deep_view()
    }
}

/// Entry `at` is the first entry of the table that is named `key`.
pub open spec fn first_at<V>(entries: Seq<(Seq<char>, V)>, key: Seq<char>, at: int) -> bool {
    &&& 0 <= at < entries.len()
    &&& entries[at].0 == key
    &&& forall|j: int| 0 <= j < at ==> (#[trigger] entries[j]).0 != key
}

/// The table has an entry named `key`.
pub open spec fn has_key<V>(entries: Seq<(Seq<char>, V)>, key: Seq<char>) -> bool {
    exists|at: int| first_at(entries, key, at)
}

/// The index of the first entry named `key`.
pub open spec fn index_of<V>(entries: Seq<(Seq<char>, V)>, key: Seq<char>) -> int
    recommends
        has_key(entries, key),
{
    choose|at: int| first_at(entries, key, at)
}

/// What the table holds under `key`: the value of the first entry of that
/// name.
pub open spec fn lookup<V>(entries: Seq<(Seq<char>, V)>, key: Seq<char>) -> Option<V> {
    if has_key(entries, key) {
        Some(entries[index_of(entries, key)].1)
    } else {
        None
    }
}

/// The first entry named `key` is the only index that `first_at` accepts.
pub proof fn lemma_first_at_unique<V>(entries: Seq<(Seq<char>, V)>, key: Seq<char>, at: int)
    requires
        first_at(entries, key, at),
    ensures
        has_key(entries, key),
        index_of(entries, key) == at,
        lookup(entries, key) == Some(entries[at].1),
{
    let other = index_of(entries, key);
    assert(first_at(entries, key, other));
    if other < at {
        assert(entries[other].0 == key);
    } else if at < other {
        assert(entries[at].0 == key);
    }
}

/// The index of the first entry named `key`, if there is one.
pub fn position<V: DeepView>(entries: &Vec<(String, V)>, key: &String) -> (found: Option<usize>)
    ensures
        match found {
            Some(at) => first_at(entries.deep_view(), key@, at as int),
            None => !has_key(entries.deep_view(), key@),
        },
{
    let mut i: usize = 0;
    while i < entries.len()
        invariant
            i <= entries.len(),
            forall|j: int| 0 <= j < i ==> (#[trigger] entries.deep_view()[j]).0 != key@,
        decreases entries.len() - i,
    {
        if entries[i].0 == *key {
            return Some(i);
        }
        i = i + 1;
    }
    None
}

/// The table with `value` under `key`: in the place of the first entry of
/// that name where there is one, else as a new last entry.
pub open spec fn updated<V>(entries: Seq<(Seq<char>, V)>, key: Seq<char>, value: V) -> Seq<
    (Seq<char>, V),
> {
    if has_key(entries, key) {
        entries.update(index_of(entries, key), (key, value))
    } else {
        entries.push((key, value))
    }
}

/// The table `base` with the entries of `overrides` put in one after the
/// other: where both name a key, the override's value stands.
pub open spec fn overlaid<V>(base: Seq<(Seq<char>, V)>, overrides: Seq<(Seq<char>, V)>) -> Seq<
    (Seq<char>, V),
>
    decreases overrides.len(),
{
    if overrides.len() == 0 {
        base
    } else {
        updated(overlaid(base, overrides.drop_last()), overrides.last().0, overrides.last().1)
    }
}

/// What the overrides say of `key`: the value of the last of them that is
/// named so.
pub open spec fn override_of<V>(overrides: Seq<(Seq<char>, V)>, key: Seq<char>) -> Option<V>
    decreases overrides.len(),
{
    if overrides.len() == 0 {
        None
    } else if overrides.last().0 == key {
        Some(overrides.last().1)
    } else {
        override_of(overrides.drop_last(), key)
    }
}

/// No two entries of the table have the same name.
pub open spec fn unique_keys<V>(entries: Seq<(Seq<char>, V)>) -> bool {
    forall|i: int, j: int|
        0 <= i < j < entries.len() ==> (#[trigger] entries[i]).0 != (#[trigger] entries[j]).0
}

/// A table with an entry named `key` has a first one.
pub proof fn lemma_some_key<V>(entries: Seq<(Seq<char>, V)>, key: Seq<char>, at: int)
    requires
        0 <= at < entries.len(),
        entries[at].0 == key,
    ensures
        has_key(entries, key),
    decreases at,
{
    if forall|j: int| 0 <= j < at ==> (#[trigger] entries[j]).0 != key {
        assert(first_at(entries, key, at));
    } else {
        let j = choose|j: int| 0 <= j < at && (#[trigger] entries[j]).0 == key;
        lemma_some_key(entries, key, j);
    }
}

/// After `value` was put under `key` the table holds it there, and holds
/// under every other name what it held before.
pub proof fn lemma_lookup_updated<V>(
    entries: Seq<(Seq<char>, V)>,
    key: Seq<char>,
    value: V,
    other: Seq<char>,
)
    ensures
        lookup(updated(entries, key, value), other) == if other == key {
            Some(value)
        } else {
            lookup(entries, other)
        },
{
    let after = updated(entries, key, value);
    if has_key(entries, key) {
        let at = index_of(entries, key);
        assert(first_at(entries, key, at));
        assert(after.len() == entries.len());
        assert forall|j: int| 0 <= j < after.len() implies (#[trigger] after[j]).0
            == entries[j].0 by {}
        if other == key {
            assert(first_at(after, key, at));
            lemma_first_at_unique(after, key, at);
        } else if has_key(entries, other) {
            let i = index_of(entries, other);
            assert(first_at(entries, other, i));
            assert(first_at(after, other, i));
            assert(after[i] == entries[i]);
            lemma_first_at_unique(after, other, i);
        } else if has_key(after, other) {
            let i = index_of(after, other);
            assert(first_at(after, other, i));
            assert(entries[i].0 == other);
            lemma_some_key(entries, other, i);
        }
    } else {
        let end = entries.len() as int;
        assert forall|j: int| 0 <= j < end implies (#[trigger] after[j]) == entries[j] by {}
        if has_key(entries, other) {
            let i = index_of(entries, other);
            assert(first_at(entries, other, i));
            assert(first_at(after, other, i));
            lemma_first_at_unique(after, other, i);
        } else if other == key {
            assert(first_at(after, key, end)) by {
                assert forall|j: int| 0 <= j < end implies (#[trigger] after[j]).0 != key by {
                    if entries[j].0 == key {
                        lemma_some_key(entries, key, j);
                    }
                }
            }
            lemma_first_at_unique(after, key, end);
        } else if has_key(after, other) {
            let i = index_of(after, other);
            assert(first_at(after, other, i));
            assert(i < end);
            assert(entries[i].0 == other);
            lemma_some_key(entries, other, i);
        }
    }
}

/// Putting a value into a table without repeated names repeats none.
pub proof fn lemma_updated_keeps_unique<V>(entries: Seq<(Seq<char>, V)>, key: Seq<char>, value: V)
    requires
        unique_keys(entries),
    ensures
        unique_keys(updated(entries, key, value)),
{
    let after = updated(entries, key, value);
    if has_key(entries, key) {
        let at = index_of(entries, key);
        assert(first_at(entries, key, at));
        assert forall|i: int, j: int| 0 <= i < j < after.len() implies (#[trigger] after[i]).0 != (
        #[trigger] after[j]).0 by {
            assert(after[i].0 == entries[i].0);
            assert(after[j].0 == entries[j].0);
        }
    } else {
        assert forall|i: int, j: int| 0 <= i < j < after.len() implies (#[trigger] after[i]).0 != (
        #[trigger] after[j]).0 by {
            assert(after[i] == entries[i]);
            if j < entries.len() {
                assert(after[j] == entries[j]);
            } else {
                if entries[i].0 == key {
                    lemma_some_key(entries, key, i);
                }
            }
        }
    }
}

/// Overrides win: after the overrides were laid over a table, it holds
/// under each name what the last override of that name says, and where none
/// has that name, what the table held before.
pub proof fn overrides_win<V>(
    base: Seq<(Seq<char>, V)>,
    overrides: Seq<(Seq<char>, V)>,
    key: Seq<char>,
)
    ensures
        lookup(overlaid(base, overrides), key) == match override_of(overrides, key) {
            Some(value) => Some(value),
            None => lookup(base, key),
        },
    decreases overrides.len(),
{
    if overrides.len() > 0 {
        overrides_win(base, overrides.drop_last(), key);
        lemma_lookup_updated(
            overlaid(base, overrides.drop_last()),
            overrides.last().0,
            overrides.last().1,
            key,
        );
    }
}

/// Laying overrides over a table without repeated names repeats none.
pub proof fn overlaid_keeps_unique<V>(base: Seq<(Seq<char>, V)>, overrides: Seq<(Seq<char>, V)>)
    requires
        unique_keys(base),
    ensures
        unique_keys(overlaid(base, overrides)),
    decreases overrides.len(),
{
    if overrides.len() > 0 {
        overlaid_keeps_unique(base, overrides.drop_last());
        lemma_updated_keeps_unique(
            overlaid(base, overrides.drop_last()),
            overrides.last().0,
            overrides.last().1,
        );
    }
}

/// Puts `value` under `key`: replaces the value of the first entry of that
/// name, or adds a new last entry where there is none.
pub fn put(entries: &mut Vec<(String, String)>, key: String, value: String)
    ensures
        final(entries).deep_view() == updated(old(entries).deep_view(), key@, value@),
{
    match position(entries, &key) {
        Some(at) => {
            proof {
                lemma_first_at_unique(entries.deep_view(), key@, at as int);
            }
            entries[at] = (key, value);
            assert(entries.deep_view() =~= updated(old(entries).deep_view(), key@, value@));
        },
        None => {
            entries.push((key, value));
            assert(entries.deep_view() =~= updated(old(entries).deep_view(), key@, value@));
        },
    }
}

/// Puts every entry of `overrides` into `base`, in order.
pub fn overlay(base: &mut Vec<(String, String)>, overrides: &Vec<(String, String)>)
    ensures
        final(base).deep_view() == overlaid(old(base).deep_view(), overrides.deep_view()),
{
    let mut i: usize = 0;
    assert(overrides.deep_view().take(0).len() == 0);
    while i < overrides.len()
        invariant
            i <= overrides.len(),
            base.deep_view() == overlaid(
                old(base).deep_view(),
                overrides.deep_view().take(i as int),
            ),
        decreases overrides.len() - i,
    {
        proof {
            let upto = overrides.deep_view().take(i + 1);
            assert(upto.drop_last() =~= overrides.deep_view().take(i as int));
            assert(upto.last() == overrides.deep_view()[i as int]);
        }
        put(base, overrides[i].0.clone(), overrides[i].1.clone());
        i = i + 1;
    }
    assert(overrides.deep_view().take(i as int) =~= overrides.deep_view());
}

/// A copy of `lines`.
pub fn clone_lines(lines: &Vec<String>) -> (copy: Vec<String>)
    ensures
        copy.deep_view() == lines.deep_view(),
{
    let mut copy: Vec<String> = Vec::new();
    let mut i: usize = 0;
    while i < lines.len()
        invariant
            i <= lines.len(),
            copy.len() == i,
            forall|j: int| 0 <= j < i ==> copy[j]@ == lines[j]@,
        decreases lines.len() - i,
    {
        copy.push(lines[i].clone());
        i = i + 1;
    }
    assert(copy.deep_view() =~= lines.deep_view());
    copy
}

/// A copy of `entries`.
pub fn clone_pairs(entries: &Vec<(String, String)>) -> (copy: Vec<(String, String)>)
    ensures
        copy.deep_view() == entries.deep_view(),
{
    let mut copy: Vec<(String, String)> = Vec::new();
    let mut i: usize = 0;
    while i < entries.len()
        invariant
            i <= entries.len(),
            copy.len() == i,
            forall|j: int| 0 <= j < i ==> copy[j].deep_view() == entries[j].deep_view(),
        decreases entries.len() - i,
    {
        copy.push((entries[i].0.clone(), entries[i].1.clone()));
        i = i + 1;
    }
    assert(copy.deep_view() =~= entries.deep_view());
    copy
}

fn clone_text(text: &Option<String>) -> (copy: Option<String>)
    ensures
        copy.deep_view() == text.deep_view(),
{
    match text {
        Some(t) => Some(t.clone()),
        None => None,
    }
}

impl Clone for CommandValue {
    fn clone(&self) -> (copy: Self)
        ensures
            copy@ == self@,
    {
        match self {
            CommandValue::List(lines) => CommandValue::List(clone_lines(lines)),
            CommandValue::String(line) => CommandValue::String(line.clone()),
        }
    }
}

impl Clone for CommandDef {
    fn clone(&self) -> (copy: Self)
        ensures
            copy@ == self@,
    {
        CommandDef {
            cmd: self.cmd.clone(),
            alias: clone_text(&self.alias),
            help: clone_text(&self.help),
            keep_going: self.keep_going,
            shell: clone_text(&self.shell),
            variables: match &self.variables {
                Some(entries) => Some(clone_pairs(entries)),
                None => None,
            },
        }
    }
}

impl ProjectConfig {
    /// An empty project: no name, no variables, no commands, and neither a
    /// sequence nor a shell table.
    pub fn new() -> (project: Self)
        ensures
            project@.project.len() == 0,
            project@.variables.len() == 0,
            project@.commands.len() == 0,
            project@.sequence is None,
            project@.shells is None,
    {
        ProjectConfig {
            project: String::new(),
            variables: Vec::new(),
            commands: Vec::new(),
            sequence: None,
            shells: None,
        }
    }
}

} // verus!
