//! The placeholder grammar that templates and secrets share.
//!
//! A placeholder is the token `{{NAME}}`, in which `NAME` starts with an ASCII
//! letter or an underscore and goes on with ASCII letters, digits and
//! underscores.
use crate::text::{append_chars, copy_range, occurs_at, occurs_in, rows};
use vstd::prelude::*;

verus! {

/// `c` may start a placeholder name.
pub open spec fn is_name_start(c: char) -> bool {
    ||| 'a' <= c <= 'z'
    ||| 'A' <= c <= 'Z'
    ||| c == '_'
}

/// `c` may stand in a placeholder name.
pub open spec fn is_name_char(c: char) -> bool {
    ||| is_name_start(c)
    ||| '0' <= c <= '9'
}

/// `name` is a placeholder name.
pub open spec fn is_name(name: Seq<char>) -> bool {
    &&& name.len() > 0
    &&& is_name_start(name[0])
    &&& forall|k: int| 0 <= k < name.len() ==> is_name_char(#[trigger] name[k])
}

/// The token that stands for `name` in a template: `{{name}}`.
pub open spec fn token(name: Seq<char>) -> Seq<char> {
    seq!['{', '{'] + name + seq!['}', '}']
}

/// `t` is a placeholder token: two opening braces, a name, two closing braces.
pub open spec fn is_placeholder(t: Seq<char>) -> bool {
    &&& t.len() >= 5
    &&& is_name(t.subrange(2, t.len() - 2))
    &&& t == token(t.subrange(2, t.len() - 2))
}

/// A placeholder token stands in `s` from position `i` up to position `j`.
pub open spec fn placeholder_at(s: Seq<char>, i: int, j: int) -> bool {
    &&& 0 <= i <= j <= s.len()
    &&& is_placeholder(s.subrange(i, j))
}

/// The number of name characters at the start of `s`.
pub open spec fn name_run(s: Seq<char>) -> int
    decreases s.len(),
{
    if s.len() == 0 || !is_name_char(s[0]) {
        0
    } else {
        1 + name_run(s.skip(1))
    }
}

/// The length of the placeholder token at the start of `s`, or 0 where `s`
/// starts with none.
pub open spec fn token_len(s: Seq<char>) -> int {
    let n = name_run(s.skip(2));
    if s.len() >= 5 && s[0] == '{' && s[1] == '{' && is_name_start(s[2]) && n + 4 <= s.len() && s[n
        + 2] == '}' && s[n + 3] == '}' {
        n + 4
    } else {
        0
    }
}

/// The leftmost placeholder token of `s` that starts at `from` or later, as
/// the positions of its start and of its end.
pub open spec fn find_placeholder(s: Seq<char>, from: int) -> Option<(int, int)>
    decreases s.len() - from,
{
    if from < 0 || from >= s.len() {
        None
    } else if token_len(s.skip(from)) > 0 {
        Some((from, from + token_len(s.skip(from))))
    } else {
        find_placeholder(s, from + 1)
    }
}

/// The leftmost placeholder token of `s`, as the text of the token.
pub open spec fn first_placeholder(s: Seq<char>) -> Option<Seq<char>> {
    match find_placeholder(s, 0) {
        Some((i, j)) => Some(s.subrange(i, j)),
        None => None,
    }
}

/// The names of the placeholder tokens of `s` that start at `from` or later,
/// from left to right. A token is looked for where the one before it ended,
/// so the tokens do not overlap; a name comes once for each of its tokens.
pub open spec fn names_from(s: Seq<char>, from: int) -> Seq<Seq<char>>
    decreases s.len() - from,
{
    match find_placeholder(s, from) {
        Some((i, j)) => if from <= i && i + 4 <= j <= s.len() {
            seq![s.subrange(i + 2, j - 2)] + names_from(s, j)
        } else {
            Seq::empty()
        },
        None => Seq::empty(),
    }
}

/// The names of the placeholder tokens of `s`, from left to right.
pub open spec fn placeholder_names(s: Seq<char>) -> Seq<Seq<char>> {
    names_from(s, 0)
}

/// No placeholder token is left in `s`.
pub open spec fn is_resolved(s: Seq<char>) -> bool {
    forall|i: int, j: int| !placeholder_at(s, i, j)
}

/// `name_run` counts exactly the name characters before the first other one.
pub proof fn lemma_name_run(s: Seq<char>)
    ensures
        0 <= name_run(s) <= s.len(),
        name_run(s) < s.len() ==> !is_name_char(s[name_run(s)]),
        forall|k: int| 0 <= k < name_run(s) ==> is_name_char(#[trigger] s[k]),
    decreases s.len(),
{
    if s.len() > 0 && is_name_char(s[0]) {
        let t = s.skip(1);
        lemma_name_run(t);
        assert forall|k: int| 0 <= k < name_run(s) implies is_name_char(#[trigger] s[k]) by {
            if k > 0 {
                assert(s[k] == t[k - 1]);
            }
        }
    }
}

/// A count of name characters that ends at another character, or at the end,
/// is `name_run`.
pub proof fn lemma_name_run_unique(s: Seq<char>, n: int)
    requires
        0 <= n <= s.len(),
        forall|k: int| 0 <= k < n ==> is_name_char(#[trigger] s[k]),
        n < s.len() ==> !is_name_char(s[n]),
    ensures
        name_run(s) == n,
{
    lemma_name_run(s);
}

/// `token_len` is the length of the one placeholder token that `s` starts
/// with, if it starts with any.
pub proof fn lemma_token_len(s: Seq<char>)
    ensures
        token_len(s) == 0 || 5 <= token_len(s) <= s.len(),
        forall|n: int| 0 <= n <= s.len() ==> (#[trigger] is_placeholder(s.take(n)) <==> n
            == token_len(s) && n > 0),
{
    lemma_name_run(s.skip(2));
    assert forall|n: int| 0 <= n <= s.len() implies (#[trigger] is_placeholder(s.take(n)) <==> n
        == token_len(s) && n > 0) by {
        let t = s.take(n);
        if is_placeholder(t) {
            let name = t.subrange(2, n - 2);
            assert(s[0] == t[0] && s[1] == t[1]);
            assert(t[n - 2] == token(name)[n - 2] && t[n - 1] == token(name)[n - 1]);
            assert forall|k: int| 0 <= k < n - 4 implies is_name_char(#[trigger] s.skip(2)[k]) by {
                assert(s.skip(2)[k] == name[k]);
            }
            assert(s.skip(2)[n - 4] == '}');
        }
        if n == token_len(s) && n > 0 {
            let name = t.subrange(2, n - 2);
            assert forall|k: int| 0 <= k < name.len() implies is_name_char(#[trigger] name[k]) by {
                assert(name[k] == s.skip(2)[k]);
            }
            assert(t =~= token(name));
        }
    }
}

/// What `find_placeholder` returns is a placeholder token, and no placeholder
/// token starts between `from` and the one returned; where it returns nothing,
/// none starts at `from` or later.
pub proof fn lemma_find_placeholder(s: Seq<char>, from: int)
    requires
        0 <= from,
    ensures
        match find_placeholder(s, from) {
            Some((i, j)) => {
                &&& from <= i
                &&& i + 5 <= j <= s.len()
                &&& placeholder_at(s, i, j)
                &&& forall|a: int, b: int| from <= a < i ==> !placeholder_at(s, a, b)
                &&& forall|b: int| placeholder_at(s, i, b) ==> b == j
            },
            None => forall|a: int, b: int| from <= a ==> !placeholder_at(s, a, b),
        },
    decreases s.len() - from,
{
    if from >= s.len() {
        assert forall|a: int, b: int| from <= a implies !placeholder_at(s, a, b) by {}
    } else {
        let t = s.skip(from);
        lemma_token_len(t);
        assert forall|b: int| from <= b <= s.len() implies (placeholder_at(s, from, b) <==> b
            - from == token_len(t) && b > from) by {
            assert(t.take(b - from) =~= s.subrange(from, b));
        }
        if token_len(t) == 0 {
            lemma_find_placeholder(s, from + 1);
            match find_placeholder(s, from) {
                Some((i, j)) => {
                    assert forall|a: int, b: int| from <= a < i implies !placeholder_at(
                        s,
                        a,
                        b,
                    ) by {}
                },
                None => {
                    assert forall|a: int, b: int| from <= a implies !placeholder_at(s, a, b) by {}
                },
            }
        }
    }
}

/// `first_placeholder` returns nothing exactly where no placeholder token is
/// left, and otherwise a placeholder token that stands in `s`.
pub proof fn lemma_first_placeholder(s: Seq<char>)
    ensures
        first_placeholder(s) is None <==> is_resolved(s),
        first_placeholder(s) matches Some(t) ==> is_placeholder(t) && occurs_in(s, t),
{
    lemma_find_placeholder(s, 0);
    match find_placeholder(s, 0) {
        Some((i, j)) => {
            assert(occurs_at(s, s.subrange(i, j), i));
        },
        None => {
            assert forall|i: int, j: int| !placeholder_at(s, i, j) by {}
        },
    }
}

/// No brace stands in `s`.
pub open spec fn is_brace_free(s: Seq<char>) -> bool {
    forall|k: int| 0 <= k < s.len() ==> #[trigger] s[k] != '{' && s[k] != '}'
}

/// The characters of a token that stands in `s` at position `a`.
pub proof fn lemma_token_chars(s: Seq<char>, key: Seq<char>, a: int)
    requires
        occurs_at(s, token(key), a),
    ensures
        a + key.len() + 4 <= s.len(),
        s[a] == '{',
        s[a + 1] == '{',
        forall|k: int| 0 <= k < key.len() ==> s[a + 2 + k] == key[k],
        s[a + 2 + key.len()] == '}',
        s[a + 3 + key.len()] == '}',
{
    let t = token(key);
    let w = s.subrange(a, a + t.len());
    let n = key.len() as int;
    assert(w[0] == t[0] && w[1] == t[1]);
    assert(w[n + 2] == t[n + 2] && w[n + 3] == t[n + 3]);
    assert forall|k: int| 0 <= k < key.len() implies s[a + 2 + k] == key[k] by {
        assert(w[2 + k] == t[2 + k]);
    }
}

/// The tokens of two different keys without braces never share a character
/// of a text in which both stand.
pub proof fn lemma_tokens_apart(s: Seq<char>, key: Seq<char>, other: Seq<char>, a: int, b: int)
    requires
        is_brace_free(key),
        is_brace_free(other),
        key != other,
        occurs_at(s, token(key), a),
        occurs_at(s, token(other), b),
    ensures
        a + token(key).len() <= b || b + token(other).len() <= a,
{
    lemma_token_chars(s, key, a);
    lemma_token_chars(s, other, b);
    let p = key.len() as int;
    let q = other.len() as int;
    if a == b {
        if p < q {
            assert(s[a + 2 + p] == other[p]);
        } else if q < p {
            assert(s[a + 2 + q] == key[q]);
        } else {
            assert(key =~= other);
        }
    } else if a < b && b < a + p + 4 {
        let d = b - a;
        if d == 1 {
            if p > 0 {
                assert(s[a + 2] == key[0]);
            }
        } else if d < 2 + p {
            assert(s[a + 2 + (d - 2)] == key[d - 2]);
        }
    } else if b < a && a < b + q + 4 {
        let d = a - b;
        if d == 1 {
            if q > 0 {
                assert(s[b + 2] == other[0]);
            }
        } else if d < 2 + q {
            assert(s[b + 2 + (d - 2)] == other[d - 2]);
        }
    }
}

/// Whether `c` may start a placeholder name.
pub fn name_start(c: char) -> (b: bool)
    ensures
        b == is_name_start(c),
{
    ('a' <= c && c <= 'z') || ('A' <= c && c <= 'Z') || c == '_'
}

/// Whether `c` may stand in a placeholder name.
pub fn name_char(c: char) -> (b: bool)
    ensures
        b == is_name_char(c),
{
    name_start(c) || ('0' <= c && c <= '9')
}

/// The token that stands for `name`.
pub fn make_token(name: &Vec<char>) -> (t: Vec<char>)
    ensures
        t@ == token(name@),
{
    let mut t: Vec<char> = Vec::new();
    t.push('{');
    t.push('{');
    append_chars(&mut t, name);
    t.push('}');
    t.push('}');
    t
}

/// The length of the placeholder token that stands in `v` at position `i`, or 0
/// where none stands there.
pub(crate) fn token_length_at(v: &Vec<char>, i: usize) -> (n: usize)
    requires
        i <= v.len(),
    ensures
        n == token_len(v@.skip(i as int)),
        i + n <= v.len(),
{
    let ghost t = v@.skip(i as int);
    if v.len() - i < 5 {
        return 0;
    }
    if v[i] != '{' || v[i + 1] != '{' || !name_start(v[i + 2]) {
        return 0;
    }
    let mut k: usize = i + 3;
    while k < v.len() && name_char(v[k])
        invariant
            i + 3 <= k <= v.len(),
            forall|m: int| i + 2 <= m < k ==> is_name_char(#[trigger] v@[m]),
        decreases v.len() - k,
    {
        k += 1;
    }
    proof {
        lemma_name_run_unique(t.skip(2), k - i - 2);
    }
    if v.len() - k >= 2 && v[k] == '}' && v[k + 1] == '}' {
        k + 2 - i
    } else {
        0
    }
}

/// The leftmost placeholder token of `v` that starts at `from` or later.
pub fn find_placeholder_from(v: &Vec<char>, from: usize) -> (r: Option<(usize, usize)>)
    ensures
        match find_placeholder(v@, from as int) {
            Some((i, j)) => r == Some((i as usize, j as usize)) && from <= i < j <= v.len(),
            None => r is None,
        },
{
    let mut i: usize = from;
    while i < v.len()
        invariant
            from <= i,
            find_placeholder(v@, i as int) == find_placeholder(v@, from as int),
        decreases v.len() - i,
    {
        let n = token_length_at(v, i);
        if n > 0 {
            return Some((i, i + n));
        }
        i += 1;
    }
    None
}

/// The names of the placeholder tokens of `v`, from left to right.
pub fn names_of(v: &Vec<char>) -> (names: Vec<Vec<char>>)
    ensures
        rows(names@) == placeholder_names(v@),
        forall|k: int| 0 <= k < names.len() ==> is_name(#[trigger] names@[k]@),
{
    let mut names: Vec<Vec<char>> = Vec::new();
    let mut from: usize = 0;
    loop
        invariant
            from <= v.len(),
            rows(names@) + names_from(v@, from as int) == placeholder_names(v@),
            forall|k: int| 0 <= k < names.len() ==> is_name(#[trigger] names@[k]@),
        ensures
            rows(names@) == placeholder_names(v@),
        decreases v.len() - from,
    {
        proof {
            lemma_find_placeholder(v@, from as int);
        }
        match find_placeholder_from(v, from) {
            Some((i, j)) => {
                let name = copy_range(v, i + 2, j - 2);
                proof {
                    let t = v@.subrange(i as int, j as int);
                    assert(t.subrange(2, t.len() - 2) =~= name@);
                }
                names.push(name);
                from = j;
            },
            None => {
                break;
            },
        }
    }
    names
}

} // verus!
