//! Templates as pieces: plain text and placeholders in turn, and what
//! substitution makes of them.

use crate::cli::command_handler::{escape_quotes, placeholder, resolve, substitute};
use crate::text::{
    lemma_replace_brings_no_char, lemma_replace_skips, lemma_replace_without_occurrence,
    occurs_at, occurs_in, replace_all,
};
use crate::yaml::project_config::{
    first_at, has_key, lemma_first_at_unique, lemma_some_key, lookup,
};
use vstd::prelude::*;

verus! {

/// One piece of a template.
pub enum Piece {
    /// Text that stands for itself.
    Text(Seq<char>),
    /// The placeholder of the variable of this key.
    Slot(Seq<char>),
}

/// `text` holds no opening brace.
pub open spec fn opens_nothing(text: Seq<char>) -> bool {
    !text.contains('{')
}

/// `key` holds no brace of either kind.
pub open spec fn plain_key(key: Seq<char>) -> bool {
    !key.contains('{') && !key.contains('}')
}

/// The piece as it is written in a template.
pub open spec fn written(piece: Piece) -> Seq<char> {
    match piece {
        Piece::Text(text) => text,
        Piece::Slot(key) => placeholder(key),
    }
}

/// The template that the pieces make, one written after the other.
pub open spec fn source(pieces: Seq<Piece>) -> Seq<char>
    decreases pieces.len(),
{
    if pieces.len() == 0 {
        Seq::empty()
    } else {
        written(pieces[0]) + source(pieces.skip(1))
    }
}

/// What the piece becomes under the variables: text stays, a placeholder
/// becomes the escaped value of its variable, or stays where no variable has
/// its key.
pub open spec fn filled(piece: Piece, variables: Seq<(Seq<char>, Seq<char>)>) -> Seq<char> {
    match piece {
        Piece::Text(text) => text,
        Piece::Slot(key) => match lookup(variables, key) {
            Some(value) => escape_quotes(value),
            None => placeholder(key),
        },
    }
}

/// What the pieces become under the variables, one after the other.
pub open spec fn rendered(pieces: Seq<Piece>, variables: Seq<(Seq<char>, Seq<char>)>) -> Seq<
    char,
>
    decreases pieces.len(),
{
    if pieces.len() == 0 {
        Seq::empty()
    } else {
        filled(pieces[0], variables) + rendered(pieces.skip(1), variables)
    }
}

/// No text piece opens a brace and no placeholder has a brace in its key, so
/// that the pieces can be told apart in the template they make.
pub open spec fn well_formed(pieces: Seq<Piece>) -> bool {
    forall|i: int|
        0 <= i < pieces.len() ==> match #[trigger] pieces[i] {
            Piece::Text(text) => opens_nothing(text),
            Piece::Slot(key) => plain_key(key),
        }
}

/// No key has a brace, and no value opens one.
pub open spec fn plain_variables(variables: Seq<(Seq<char>, Seq<char>)>) -> bool {
    forall|i: int|
        0 <= i < variables.len() ==> plain_key((#[trigger] variables[i]).0) && opens_nothing(
            variables[i].1,
        )
}

/// The pieces with each placeholder of `key` turned into the text `value`.
pub open spec fn put_in(pieces: Seq<Piece>, key: Seq<char>, value: Seq<char>) -> Seq<Piece> {
    pieces.map_values(
        |piece: Piece|
            match piece {
                Piece::Slot(slot) if slot == key => Piece::Text(value),
                _ => piece,
            },
    )
}

/// The placeholder of one plain key stands nowhere inside the placeholder
/// of another: not at its start, and not further in.
proof fn lemma_placeholders_apart(key: Seq<char>, other: Seq<char>, rest: Seq<char>, at: int)
    requires
        plain_key(key),
        plain_key(other),
        key != other,
        0 <= at < placeholder(other).len(),
    ensures
        !occurs_at(placeholder(other) + rest, placeholder(key), at),
{
    let text = placeholder(other) + rest;
    let pat = placeholder(key);
    if occurs_at(text, pat, at) {
        let found = text.subrange(at, at + pat.len());
        assert(found == pat);
        assert(pat[0] == '{' && pat[1] == '{');
        assert(found[0] == text[at] && found[1] == text[at + 1]);
        let a = key.len() as int;
        let b = other.len() as int;
        if at == 0 {
            if a < b {
                assert(found[2 + a] == text[2 + a]);
                assert(pat[2 + a] == '}');
                assert(text[2 + a] == other[a]);
                assert(other.contains(other[a]));
            } else if a > b {
                assert(found[2 + b] == text[2 + b]);
                assert(text[2 + b] == '}');
                assert(pat[2 + b] == key[b]);
                assert(key.contains(key[b]));
            } else {
                assert forall|i: int| 0 <= i < a implies key[i] == other[i] by {
                    assert(found[2 + i] == text[2 + i]);
                    assert(pat[2 + i] == key[i]);
                    assert(text[2 + i] == other[i]);
                }
                assert(key =~= other);
            }
        } else if at == 1 {
            if other.len() > 0 {
                assert(text[2] == other[0]);
                assert(other.contains(other[0]));
            } else {
                assert(text[2] == '}');
            }
        } else if at < 2 + other.len() {
            assert(text[at] == other[at - 2]);
            assert(other.contains(other[at - 2]));
        } else {
            assert(text[at] == '}');
        }
    }
}

/// Substituting one variable into a template turns each of its placeholders
/// into the value and leaves every other piece as it is written.
proof fn lemma_substitute_pieces(pieces: Seq<Piece>, key: Seq<char>, value: Seq<char>)
    requires
        well_formed(pieces),
        plain_key(key),
    ensures
        replace_all(source(pieces), placeholder(key), value) == source(put_in(pieces, key, value)),
    decreases pieces.len(),
{
    let pat = placeholder(key);
    let after = put_in(pieces, key, value);
    if pieces.len() == 0 {
        assert(source(after) =~= Seq::<char>::empty());
    } else {
        let rest = pieces.skip(1);
        assert(well_formed(rest)) by {
            assert forall|i: int| 0 <= i < rest.len() implies match #[trigger] rest[i] {
                Piece::Text(text) => opens_nothing(text),
                Piece::Slot(slot) => plain_key(slot),
            } by {
                assert(rest[i] == pieces[i + 1]);
            }
        }
        lemma_substitute_pieces(rest, key, value);
        assert(after.skip(1) =~= put_in(rest, key, value));
        let tail = source(rest);
        let text = source(pieces);
        assert(text == written(pieces[0]) + tail);
        let head = written(pieces[0]);
        let matched = match pieces[0] {
            Piece::Slot(slot) => slot == key,
            Piece::Text(_) => false,
        };
        if matched {
            assert(text.subrange(0, pat.len() as int) =~= pat);
            assert(occurs_at(text, pat, 0));
            assert(text.skip(pat.len() as int) =~= tail);
            assert(after[0] == Piece::Text(value));
        } else {
            assert(after[0] == pieces[0]);
            assert forall|at: int| 0 <= at < head.len() implies !occurs_at(text, pat, at) by {
                match pieces[0] {
                    Piece::Text(plain) => {
                        if occurs_at(text, pat, at) {
                            assert(text.subrange(at, at + pat.len())[0] == pat[0]);
                            assert(text[at] == plain[at]);
                            assert(plain.contains(plain[at]));
                        }
                    },
                    Piece::Slot(slot) => {
                        lemma_placeholders_apart(key, slot, tail, at);
                    },
                }
            }
            lemma_replace_skips(text, pat, value, head.len() as int);
            assert(text.take(head.len() as int) =~= head);
            assert(text.skip(head.len() as int) =~= tail);
        }
    }
}

/// What the pieces become under the variables, as pieces: each placeholder
/// of a known key is text now.
pub open spec fn filled_in(pieces: Seq<Piece>, variables: Seq<(Seq<char>, Seq<char>)>) -> Seq<
    Piece,
> {
    pieces.map_values(
        |piece: Piece|
            match piece {
                Piece::Text(_) => piece,
                Piece::Slot(key) => match lookup(variables, key) {
                    Some(value) => Piece::Text(escape_quotes(value)),
                    None => piece,
                },
            },
    )
}

/// The first entry of a key stays the first when an entry is added behind.
proof fn lemma_lookup_push(
    variables: Seq<(Seq<char>, Seq<char>)>,
    entry: (Seq<char>, Seq<char>),
    key: Seq<char>,
)
    ensures
        lookup(variables.push(entry), key) == match lookup(variables, key) {
            Some(value) => Some(value),
            None => if entry.0 == key {
                Some(entry.1)
            } else {
                None
            },
        },
{
    let longer = variables.push(entry);
    if has_key(variables, key) {
        let at = choose|at: int| first_at(variables, key, at);
        lemma_first_at_unique(variables, key, at);
        assert(first_at(longer, key, at)) by {
            assert forall|j: int| 0 <= j < at implies (#[trigger] longer[j]).0 != key by {
                assert(longer[j] == variables[j]);
            }
            assert(longer[at] == variables[at]);
        }
        lemma_first_at_unique(longer, key, at);
    } else if entry.0 == key {
        let at = variables.len() as int;
        assert(first_at(longer, key, at)) by {
            assert forall|j: int| 0 <= j < at implies (#[trigger] longer[j]).0 != key by {
                assert(longer[j] == variables[j]);
                if variables[j].0 == key {
                    lemma_some_key(variables, key, j);
                }
            }
        }
        lemma_first_at_unique(longer, key, at);
    } else {
        if has_key(longer, key) {
            let at = choose|at: int| first_at(longer, key, at);
            assert(at < variables.len());
            assert(longer[at] == variables[at]);
            lemma_some_key(variables, key, at);
        }
    }
}

/// The text of pieces that are filled in is what the pieces render to.
proof fn lemma_source_of_filled(pieces: Seq<Piece>, variables: Seq<(Seq<char>, Seq<char>)>)
    ensures
        source(filled_in(pieces, variables)) == rendered(pieces, variables),
    decreases pieces.len(),
{
    let done = filled_in(pieces, variables);
    if pieces.len() > 0 {
        lemma_source_of_filled(pieces.skip(1), variables);
        assert(done.skip(1) =~= filled_in(pieces.skip(1), variables));
        assert(written(done[0]) == filled(pieces[0], variables));
    }
}

/// Escaping a value that opens no brace gives a text that opens none.
proof fn lemma_escape_opens_nothing(value: Seq<char>)
    requires
        opens_nothing(value),
    ensures
        opens_nothing(escape_quotes(value)),
{
    let to = seq!['\'', '\\', '\'', '\''];
    assert(!to.contains('{')) by {
        if to.contains('{') {
            let i = choose|i: int| 0 <= i < to.len() && to[i] == '{';
            assert(to[i] != '{');
        }
    }
    lemma_replace_brings_no_char(value, seq!['\''], to, '{');
}

/// Substitution fills in a template piece by piece.
///
/// Take a template made of text pieces and placeholders, where no text piece
/// holds an opening brace and no key, in a placeholder or among the
/// variables, holds a brace of either kind, and where no value holds an
/// opening brace. Resolving it replaces every placeholder whose key is among
/// the variables by the escaped value of the first variable of that key, and
/// leaves every text piece and every other placeholder exactly as written.
pub proof fn resolve_fills_placeholders(
    pieces: Seq<Piece>,
    variables: Seq<(Seq<char>, Seq<char>)>,
)
    requires
        well_formed(pieces),
        plain_variables(variables),
    ensures
        resolve(source(pieces), variables) == rendered(pieces, variables),
{
    lemma_resolve_pieces(pieces, variables);
    lemma_source_of_filled(pieces, variables);
}

proof fn lemma_resolve_pieces(pieces: Seq<Piece>, variables: Seq<(Seq<char>, Seq<char>)>)
    requires
        well_formed(pieces),
        plain_variables(variables),
    ensures
        resolve(source(pieces), variables) == source(filled_in(pieces, variables)),
        well_formed(filled_in(pieces, variables)),
    decreases variables.len(),
{
    let done = filled_in(pieces, variables);
    if variables.len() == 0 {
        assert forall|i: int| 0 <= i < pieces.len() implies done[i] == pieces[i] by {
            match pieces[i] {
                Piece::Text(_) => {},
                Piece::Slot(key) => {
                    assert(!has_key(variables, key));
                },
            }
        }
        assert(done =~= pieces);
    } else {
        let before = variables.drop_last();
        let last = variables.last();
        assert(plain_variables(before)) by {
            assert forall|i: int| 0 <= i < before.len() implies plain_key(
                (#[trigger] before[i]).0,
            ) && opens_nothing(before[i].1) by {
                assert(before[i] == variables[i]);
            }
        }
        lemma_resolve_pieces(pieces, before);
        let partly = filled_in(pieces, before);
        let value = escape_quotes(last.1);
        assert(plain_key(last.0) && opens_nothing(last.1));
        lemma_escape_opens_nothing(last.1);
        lemma_substitute_pieces(partly, last.0, value);
        assert(variables =~= before.push(last));
        assert forall|i: int| 0 <= i < pieces.len() implies put_in(partly, last.0, value)[i]
            == done[i] by {
            match pieces[i] {
                Piece::Text(_) => {},
                Piece::Slot(key) => {
                    lemma_lookup_push(before, last, key);
                },
            }
        }
        assert(put_in(partly, last.0, value) =~= done);
        assert forall|i: int| 0 <= i < done.len() implies match #[trigger] done[i] {
            Piece::Text(text) => opens_nothing(text),
            Piece::Slot(key) => plain_key(key),
        } by {
            assert(match partly[i] {
                Piece::Text(text) => opens_nothing(text),
                Piece::Slot(key) => plain_key(key),
            });
            assert(done[i] == put_in(partly, last.0, value)[i]);
        }
    }
}

/// A template in which no variable's placeholder stands is left as it is.
pub proof fn resolve_keeps_text_without_placeholders(
    template: Seq<char>,
    variables: Seq<(Seq<char>, Seq<char>)>,
)
    requires
        forall|i: int|
            0 <= i < variables.len() ==> !occurs_in(
                template,
                placeholder((#[trigger] variables[i]).0),
            ),
    ensures
        resolve(template, variables) == template,
    decreases variables.len(),
{
    if variables.len() > 0 {
        let before = variables.drop_last();
        assert forall|i: int| 0 <= i < before.len() implies !occurs_in(
            template,
            placeholder((#[trigger] before[i]).0),
        ) by {
            assert(before[i] == variables[i]);
        }
        resolve_keeps_text_without_placeholders(template, before);
        let last = variables.last();
        assert(last == variables[variables.len() - 1]);
        lemma_replace_without_occurrence(template, placeholder(last.0), escape_quotes(last.1));
    }
}

/// Without variables a template resolves to itself.
pub proof fn resolve_without_variables(template: Seq<char>)
    ensures
        resolve(template, Seq::empty()) == template,
{
}

/// With a single variable, resolving is substituting that variable.
pub proof fn resolve_with_one_variable(template: Seq<char>, key: Seq<char>, value: Seq<char>)
    ensures
        resolve(template, seq![(key, value)]) == substitute(template, key, value),
{
    let one = seq![(key, value)];
    assert(one.drop_last().len() == 0);
    assert(one.last() == (key, value));
    assert(resolve(template, one.drop_last()) == template);
}

} // verus!
