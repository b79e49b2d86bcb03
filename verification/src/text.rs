//! Text as sequences of characters: occurrences of a pattern and their
//! replacement.

use vstd::prelude::*;

verus! {

/// `pat` stands in `text` at index `at`.
pub open spec fn occurs_at(text: Seq<char>, pat: Seq<char>, at: int) -> bool {
    &&& 0 <= at
    &&& at + pat.len() <= text.len()
    &&& text.subrange(at, at + pat.len()) == pat
}

/// `pat` stands somewhere in `text`.
pub open spec fn occurs_in(text: Seq<char>, pat: Seq<char>) -> bool {
    exists|at: int| occurs_at(text, pat, at)
}

/// `text` with every occurrence of `pat` replaced by `to`.
///
/// Occurrences are taken from the left and do not overlap; what has been put
/// in for one occurrence is not searched again. An empty pattern occurs
/// nowhere.
pub open spec fn replace_all(text: Seq<char>, pat: Seq<char>, to: Seq<char>) -> Seq<char>
    decreases text.len(),
{
    if pat.len() == 0 || text.len() == 0 {
        text
    } else if occurs_at(text, pat, 0) {
        to + replace_all(text.skip(pat.len() as int), pat, to)
    } else {
        seq![text[0]] + replace_all(text.skip(1), pat, to)
    }
}

/// `at` is the index of the first `c` in `text`.
pub open spec fn first_char_at(text: Seq<char>, c: char, at: int) -> bool {
    &&& 0 <= at < text.len()
    &&& text[at] == c
    &&& forall|j: int| 0 <= j < at ==> text[j] != c
}

/// `c` is one of the characters of `text`.
pub open spec fn has_char(text: Seq<char>, c: char) -> bool {
    exists|at: int| first_char_at(text, c, at)
}

/// The index of the first `c` in `text`.
pub open spec fn char_index(text: Seq<char>, c: char) -> int
    recommends
        has_char(text, c),
{
    choose|at: int| first_char_at(text, c, at)
}

/// The first `c` of `text` is the only index that `first_char_at` accepts.
pub proof fn lemma_first_char_unique(text: Seq<char>, c: char, at: int)
    requires
        first_char_at(text, c, at),
    ensures
        has_char(text, c),
        char_index(text, c) == at,
{
    let other = char_index(text, c);
    assert(first_char_at(text, c, other));
}

/// Where `pat` stands at none of the first `n` indices of `text`, these `n`
/// characters stay as they are and the replacement goes on behind them.
pub proof fn lemma_replace_skips(text: Seq<char>, pat: Seq<char>, to: Seq<char>, n: int)
    requires
        0 <= n <= text.len(),
        forall|at: int| 0 <= at < n ==> !occurs_at(text, pat, at),
    ensures
        replace_all(text, pat, to) == text.take(n) + replace_all(text.skip(n), pat, to),
    decreases n,
{
    if pat.len() == 0 {
        assert(text.take(n) + text.skip(n) =~= text);
    } else if n == 0 {
        assert(text.skip(0) =~= text);
        assert(text.take(0) + replace_all(text, pat, to) =~= replace_all(text, pat, to));
    } else {
        let rest = text.skip(1);
        assert forall|at: int| 0 <= at < n - 1 implies !occurs_at(rest, pat, at) by {
            assert(!occurs_at(text, pat, at + 1));
            if at + pat.len() <= rest.len() {
                assert(rest.subrange(at, at + pat.len()) =~= text.subrange(
                    at + 1,
                    at + 1 + pat.len(),
                ));
            }
        }
        lemma_replace_skips(rest, pat, to, n - 1);
        assert(!occurs_at(text, pat, 0));
        assert(rest.skip(n - 1) =~= text.skip(n));
        assert(seq![text[0]] + rest.take(n - 1) =~= text.take(n));
        assert(seq![text[0]] + (rest.take(n - 1) + replace_all(text.skip(n), pat, to))
            =~= text.take(n) + replace_all(text.skip(n), pat, to));
    }
}

/// A text in which `pat` stands nowhere is left as it is.
pub proof fn lemma_replace_without_occurrence(text: Seq<char>, pat: Seq<char>, to: Seq<char>)
    requires
        !occurs_in(text, pat),
    ensures
        replace_all(text, pat, to) == text,
{
    assert forall|at: int| 0 <= at < text.len() implies !occurs_at(text, pat, at) by {}
    lemma_replace_skips(text, pat, to, text.len() as int);
    assert(text.take(text.len() as int) =~= text);
    assert(text.skip(text.len() as int).len() == 0);
    assert(text + text.skip(text.len() as int) =~= text);
}

/// Replacing brings in no character that is neither in the text nor in what
/// is put in: where `c` is in neither, it is not in the result.
pub proof fn lemma_replace_brings_no_char(text: Seq<char>, pat: Seq<char>, to: Seq<char>, c: char)
    requires
        !text.contains(c),
        !to.contains(c),
    ensures
        !replace_all(text, pat, to).contains(c),
    decreases text.len(),
{
    if pat.len() == 0 || text.len() == 0 {
    } else {
        let rest = if occurs_at(text, pat, 0) {
            text.skip(pat.len() as int)
        } else {
            text.skip(1)
        };
        assert(!rest.contains(c)) by {
            if rest.contains(c) {
                let i = choose|i: int| 0 <= i < rest.len() && rest[i] == c;
                assert(text[i + (text.len() - rest.len())] == c);
            }
        }
        lemma_replace_brings_no_char(rest, pat, to, c);
        let tail = replace_all(rest, pat, to);
        let head = if occurs_at(text, pat, 0) {
            to
        } else {
            seq![text[0]]
        };
        assert(!head.contains(c)) by {
            if head.contains(c) {
                let i = choose|i: int| 0 <= i < head.len() && head[i] == c;
                if !occurs_at(text, pat, 0) {
                    assert(text[0] == c);
                }
            }
        }
        let whole = head + tail;
        if whole.contains(c) {
            let i = choose|i: int| 0 <= i < whole.len() && whole[i] == c;
            if i < head.len() {
                assert(head[i] == c);
            } else {
                assert(tail[i - head.len()] == c);
            }
        }
    }
}

/// `String::push` appends one character and leaves the rest as it was.
pub assume_specification[ std::string::String::push ](s: &mut std::string::String, ch: char)
    ensures
        final(s)@ == old(s)@.push(ch),
;

/// The characters of `s`, in order.
pub fn to_chars(s: &str) -> (chars: Vec<char>)
    ensures
        chars@ == s@,
{
    let mut chars: Vec<char> = Vec::new();
    for c in it: s.chars()
        invariant
            it.seq() == s@,
            chars@ == s@.take(it.index() as int),
    {
        chars.push(c);
    }
    chars
}

/// The string made of `chars`, in order.
pub fn from_chars(chars: &Vec<char>) -> (s: String)
    ensures
        s@ == chars@,
{
    let mut s = String::new();
    let mut i: usize = 0;
    while i < chars.len()
        invariant
            i <= chars.len(),
            s@ == chars@.take(i as int),
        decreases chars.len() - i,
    {
        s.push(chars[i]);
        i = i + 1;
    }
    s
}

/// The index of the first `c` in `text`, if there is one.
pub fn find_char(text: &Vec<char>, c: char) -> (found: Option<usize>)
    ensures
        match found {
            Some(at) => first_char_at(text@, c, at as int),
            None => !has_char(text@, c),
        },
{
    let mut i: usize = 0;
    while i < text.len()
        invariant
            i <= text.len(),
            forall|j: int| 0 <= j < i ==> text[j] != c,
        decreases text.len() - i,
    {
        if text[i] == c {
            return Some(i);
        }
        i = i + 1;
    }
    None
}

/// Whether `pat` stands in `text` at index `at`.
pub fn matches_at(text: &Vec<char>, pat: &Vec<char>, at: usize) -> (found: bool)
    ensures
        found == occurs_at(text@, pat@, at as int),
{
    if at > text.len() || pat.len() > text.len() - at {
        return false;
    }
    let mut j: usize = 0;
    while j < pat.len()
        invariant
            at + pat.len() <= text.len(),
            j <= pat.len(),
            forall|k: int| 0 <= k < j ==> text[at + k] == pat[k],
        decreases pat.len() - j,
    {
        if text[at + j] != pat[j] {
            assert(text@.subrange(at as int, at + pat.len())[j as int] != pat@[j as int]);
            return false;
        }
        j = j + 1;
    }
    assert(text@.subrange(at as int, at + pat.len()) =~= pat@);
    true
}

/// Appends the characters of `more` to `out`.
pub fn append_chars(out: &mut Vec<char>, more: &Vec<char>)
    ensures
        final(out)@ == old(out)@ + more@,
{
    let mut j: usize = 0;
    while j < more.len()
        invariant
            j <= more.len(),
            out@ == old(out)@ + more@.take(j as int),
        decreases more.len() - j,
    {
        out.push(more[j]);
        j = j + 1;
    }
}

/// Replaces every occurrence of `pat` in `text` by `to`.
pub fn replace_chars(text: &Vec<char>, pat: &Vec<char>, to: &Vec<char>) -> (out: Vec<char>)
    ensures
        out@ == replace_all(text@, pat@, to@),
{
    let mut out: Vec<char> = Vec::new();
    if pat.len() == 0 {
        append_chars(&mut out, text);
        return out;
    }
    let mut i: usize = 0;
    assert(text@.skip(0) =~= text@);
    while i < text.len()
        invariant
            pat.len() > 0,
            i <= text.len(),
            replace_all(text@, pat@, to@) == out@ + replace_all(text@.skip(i as int), pat@, to@),
        decreases text.len() - i,
    {
        let ghost rest = text@.skip(i as int);
        assert(occurs_at(rest, pat@, 0) == occurs_at(text@, pat@, i as int)) by {
            if i + pat@.len() <= text@.len() {
                assert(rest.subrange(0, pat@.len() as int) =~= text@.subrange(
                    i as int,
                    i + pat@.len(),
                ));
            }
        }
        if matches_at(text, pat, i) {
            assert(rest.skip(pat@.len() as int) =~= text@.skip(i + pat@.len()));
            append_chars(&mut out, to);
            i = i + pat.len();
        } else {
            assert(rest.skip(1) =~= text@.skip(i + 1));
            out.push(text[i]);
            i = i + 1;
        }
    }
    out
}

} // verus!
