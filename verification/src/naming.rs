//! Naming a command after its command line.
use crate::text::{
    after_last, is_white, is_whitespace, lemma_after_last, lemma_run_unique, range_to_string, run,
    to_chars, white,
};
use vstd::prelude::*;

verus! {

/// Whether `c` is alphanumeric as the standard library has it: alphabetic or
/// numeric by the tables of Unicode.
pub uninterp spec fn is_alphanumeric(c: char) -> bool;

/// `char::is_alphanumeric` tells whether a character is alphanumeric.
pub assume_specification[ char::is_alphanumeric ](c: char) -> (b: bool)
    ensures
        b == is_alphanumeric(c),
;

/// The test for a character of a word: it is no white space.
pub open spec fn in_word() -> spec_fn(char) -> bool {
    |c: char| !is_white(c)
}

/// The test for a character of a name: it is alphanumeric, a hyphen or an
/// underscore.
pub open spec fn in_name() -> spec_fn(char) -> bool {
    |c: char| is_alphanumeric(c) || c == '-' || c == '_'
}

/// The first word of `s`: what stands between the white space at its start
/// and the next white space.
pub open spec fn first_word(s: Seq<char>) -> Seq<char> {
    let rest = s.skip(run(s, white()));
    rest.take(run(rest, in_word()))
}

/// The characters at the start of `s` that may stand in a name.
pub open spec fn name_prefix(s: Seq<char>) -> Seq<char> {
    s.take(run(s, in_name()))
}

/// The name that the command line `s` is given: of its first word, what
/// follows the last slash, as far as it is made of alphanumeric characters,
/// hyphens and underscores; `command` where that is empty.
pub open spec fn detected_name(s: Seq<char>) -> Seq<char> {
    let name = name_prefix(after_last(first_word(s), '/'));
    if name.len() == 0 {
        "command"@
    } else {
        name
    }
}

/// Whether `c` may stand in a name, given whether it is alphanumeric.
pub fn keeps(c: char, alphanumeric: bool) -> (b: bool)
    ensures
        b == (alphanumeric || c == '-' || c == '_'),
{
    alphanumeric || c == '-' || c == '_'
}

/// Detects a name for a command from its command line.
pub fn detect_name_from_command(command_string: &str) -> (name: String)
    ensures
        name@ == detected_name(command_string@),
{
    let v = to_chars(command_string);
    let mut start: usize = 0;
    while start < v.len() && is_whitespace(v[start])
        invariant
            start <= v.len(),
            forall|k: int| 0 <= k < start ==> is_white(#[trigger] v@[k]),
        decreases v.len() - start,
    {
        start += 1;
    }
    let mut end: usize = start;
    while end < v.len() && !is_whitespace(v[end])
        invariant
            start <= end <= v.len(),
            forall|k: int| start <= k < end ==> !is_white(#[trigger] v@[k]),
        decreases v.len() - end,
    {
        end += 1;
    }
    let ghost rest = v@.skip(start as int);
    let ghost word = v@.subrange(start as int, end as int);
    proof {
        assert forall|k: int| 0 <= k < start implies white()(#[trigger] v@[k]) by {}
        lemma_run_unique(v@, white(), start as int);
        lemma_run_unique(rest, in_word(), end - start);
        assert(rest.take(end - start) =~= word);
    }
    let mut from: usize = end;
    while from > start && v[from - 1] != '/'
        invariant
            start <= from <= end <= v.len(),
            forall|k: int| from <= k < end ==> v@[k] != '/',
        decreases from,
    {
        from -= 1;
    }
    let ghost tail = v@.subrange(from as int, end as int);
    proof {
        lemma_after_last(word, '/', from - start);
        assert(word.skip(from - start) =~= tail);
    }
    let mut to: usize = from;
    while to < end && keeps(v[to], v[to].is_alphanumeric())
        invariant
            from <= to <= end <= v.len(),
            forall|k: int| from <= k < to ==> in_name()(#[trigger] v@[k]),
        decreases end - to,
    {
        to += 1;
    }
    proof {
        lemma_run_unique(tail, in_name(), to - from);
    }
    if to == from {
        "command".to_owned()
    } else {
        range_to_string(&v, from, to)
    }
}

} // verus!
