//! Plain templates: those made of placeholder tokens and of characters other
//! than braces. With keys and values that hold no brace, resolving a plain
//! template fills in all its bound placeholders at once, and the error, if
//! any, names its first placeholder that is not bound.
use crate::placeholder::{
    find_placeholder, first_placeholder, is_brace_free, is_name, is_placeholder,
    lemma_find_placeholder, lemma_token_chars, lemma_token_len, lemma_tokens_apart, names_from,
    placeholder_names, token, token_len,
};
use crate::templating::{
    bindings_have_distinct_keys, bindings_of, distinct_keys, passthrough_of, resolved,
    substituted, with_passthrough, Bindings,
};
use crate::text::{lemma_occurs_at_skip, lemma_replaced_prefix, occurs_at, replaced};
use vstd::prelude::*;

verus! {

/// `t` is made of placeholder tokens and of characters other than braces.
pub open spec fn is_plain(t: Seq<char>) -> bool
    decreases t.len(),
{
    if t.len() == 0 {
        true
    } else if 0 < token_len(t) <= t.len() {
        is_plain(t.skip(token_len(t)))
    } else {
        t[0] != '{' && t[0] != '}' && is_plain(t.skip(1))
    }
}

/// The name of the placeholder token that `t` starts with.
pub open spec fn name_at_start(t: Seq<char>) -> Seq<char> {
    t.subrange(2, token_len(t) - 2)
}

/// Values by name.
pub type Values = Map<Seq<char>, Seq<char>>;

/// The values that `b` binds, by key.
pub open spec fn values_of(b: Bindings) -> Values
    decreases b.len(),
{
    if b.len() == 0 {
        Map::empty()
    } else {
        values_of(b.drop_last()).insert(b.last().0, b.last().1)
    }
}

/// The plain template `t` with each placeholder whose name has a value
/// replaced by that value, all at once.
pub open spec fn filled_in(t: Seq<char>, values: Values) -> Seq<char>
    decreases t.len(),
{
    if t.len() == 0 {
        t
    } else if 0 < token_len(t) <= t.len() {
        (if values.contains_key(name_at_start(t)) {
            values[name_at_start(t)]
        } else {
            t.take(token_len(t))
        }) + filled_in(t.skip(token_len(t)), values)
    } else {
        seq![t[0]] + filled_in(t.skip(1), values)
    }
}

/// The name of the first placeholder of the plain template `t` that has no
/// value.
pub open spec fn first_unbound(t: Seq<char>, values: Values) -> Option<Seq<char>>
    decreases t.len(),
{
    if t.len() == 0 {
        None
    } else if 0 < token_len(t) <= t.len() {
        if values.contains_key(name_at_start(t)) {
            first_unbound(t.skip(token_len(t)), values)
        } else {
            Some(name_at_start(t))
        }
    } else {
        first_unbound(t.skip(1), values)
    }
}

/// Neither a key nor a value of `b` holds a brace.
pub open spec fn is_harmless(b: Bindings) -> bool {
    forall|i: int|
        0 <= i < b.len() ==> is_brace_free((#[trigger] b[i]).0) && is_brace_free(b[i].1)
}

/// No value holds a brace.
pub open spec fn has_plain_values(values: Values) -> bool {
    forall|name: Seq<char>| values.contains_key(name) ==> is_brace_free(#[trigger] values[name])
}

/// The token that `t` starts with is the token of a name.
pub proof fn lemma_token_at_start(t: Seq<char>)
    requires
        token_len(t) > 0,
    ensures
        5 <= token_len(t) <= t.len(),
        is_name(name_at_start(t)),
        is_brace_free(name_at_start(t)),
        t.take(token_len(t)) == token(name_at_start(t)),
        occurs_at(t, token(name_at_start(t)), 0),
{
    lemma_token_len(t);
    let n = token_len(t);
    let w = t.take(n);
    assert(is_placeholder(w));
    assert(w.subrange(2, n - 2) =~= name_at_start(t));
}

/// The values of harmless bindings hold no brace, and the names that have a
/// value are the keys of the bindings.
pub proof fn lemma_values_of(b: Bindings)
    ensures
        is_harmless(b) ==> has_plain_values(values_of(b)),
        forall|key: Seq<char>|
            values_of(b).contains_key(key) <==> exists|i: int|
                0 <= i < b.len() && (#[trigger] b[i]).0 == key,
    decreases b.len(),
{
    if b.len() > 0 {
        let front = b.drop_last();
        lemma_values_of(front);
        assert forall|i: int| 0 <= i < front.len() implies front[i] == b[i] by {}
        assert forall|key: Seq<char>|
            values_of(b).contains_key(key) <==> exists|i: int|
                0 <= i < b.len() && (#[trigger] b[i]).0 == key by {
            if values_of(front).contains_key(key) {
                let i = choose|i: int| 0 <= i < front.len() && (#[trigger] front[i]).0 == key;
                assert(b[i].0 == key);
            }
        }
    }
}

/// Without values, nothing is filled in.
pub proof fn lemma_filled_in_nothing(t: Seq<char>)
    ensures
        filled_in(t, Map::empty()) == t,
    decreases t.len(),
{
    if 0 < token_len(t) <= t.len() {
        lemma_filled_in_nothing(t.skip(token_len(t)));
    } else if t.len() > 0 {
        lemma_filled_in_nothing(t.skip(1));
    }
}

/// What a plain template was filled in with is gone from it: the token of a
/// name that has a value stands nowhere in it.
pub proof fn lemma_filled_in_holds_no_token(t: Seq<char>, values: Values, key: Seq<char>)
    requires
        is_plain(t),
        has_plain_values(values),
        is_brace_free(key),
        values.contains_key(key),
    ensures
        forall|a: int| !occurs_at(filled_in(t, values), token(key), a),
    decreases t.len(),
{
    let pat = token(key);
    let f = filled_in(t, values);
    if 0 < token_len(t) <= t.len() {
        let n = token_len(t);
        let name = name_at_start(t);
        let g = filled_in(t.skip(n), values);
        lemma_token_at_start(t);
        lemma_filled_in_holds_no_token(t.skip(n), values, key);
        let x = if values.contains_key(name) {
            values[name]
        } else {
            t.take(n)
        };
        assert(f.skip(x.len() as int) =~= g);
        assert forall|a: int| !occurs_at(f, pat, a) by {
            if occurs_at(f, pat, a) {
                lemma_token_chars(f, key, a);
                if a < x.len() {
                    if !values.contains_key(name) {
                        assert(f.subrange(0, n) =~= token(name));
                        lemma_tokens_apart(f, key, name, a, 0);
                    }
                } else {
                    lemma_occurs_at_skip(f, pat, x.len() as int, a - x.len());
                }
            }
        }
    } else if t.len() > 0 {
        let g = filled_in(t.skip(1), values);
        lemma_filled_in_holds_no_token(t.skip(1), values, key);
        assert(f.skip(1) =~= g);
        assert forall|a: int| !occurs_at(f, pat, a) by {
            if occurs_at(f, pat, a) {
                lemma_token_chars(f, key, a);
                if a >= 1 {
                    lemma_occurs_at_skip(f, pat, 1, a - 1);
                }
            }
        }
    }
}

/// Replacing the token of a name without a value in a template that was
/// filled in is filling in with a value for that name as well.
pub proof fn lemma_fill_one_more(t: Seq<char>, values: Values, key: Seq<char>, value: Seq<char>)
    requires
        is_plain(t),
        has_plain_values(values),
        is_brace_free(key),
        !values.contains_key(key),
    ensures
        replaced(filled_in(t, values), token(key), value) == filled_in(
            t,
            values.insert(key, value),
        ),
    decreases t.len(),
{
    let pat = token(key);
    let f = filled_in(t, values);
    if 0 < token_len(t) <= t.len() {
        let n = token_len(t);
        let name = name_at_start(t);
        let rest = t.skip(n);
        let g = filled_in(rest, values);
        lemma_token_at_start(t);
        lemma_fill_one_more(rest, values, key, value);
        if values.contains_key(name) {
            let v = values[name];
            assert forall|a: int| 0 <= a < v.len() implies !occurs_at(f, pat, a) by {
                if occurs_at(f, pat, a) {
                    lemma_token_chars(f, key, a);
                }
            }
            lemma_replaced_prefix(f, pat, value, v.len() as int);
            assert(f.skip(v.len() as int) =~= g);
        } else {
            let tok = token(name);
            assert(f.subrange(0, n) =~= tok);
            assert(f.skip(n) =~= g);
            if name != key {
                assert forall|a: int| 0 <= a < n implies !occurs_at(f, pat, a) by {
                    if occurs_at(f, pat, a) {
                        lemma_tokens_apart(f, key, name, a, 0);
                    }
                }
                lemma_replaced_prefix(f, pat, value, n);
            }
        }
    } else if t.len() > 0 {
        let g = filled_in(t.skip(1), values);
        lemma_fill_one_more(t.skip(1), values, key, value);
        assert forall|a: int| 0 <= a < 1 implies !occurs_at(f, pat, a) by {
            if occurs_at(f, pat, a) {
                lemma_token_chars(f, key, a);
            }
        }
        assert(f.skip(1) =~= g);
    }
}

/// Substituting harmless bindings with distinct keys into a plain template,
/// one after another, is filling them in all at once.
pub proof fn lemma_substituted_is_filled_in(t: Seq<char>, b: Bindings)
    requires
        is_plain(t),
        is_harmless(b),
        distinct_keys(b),
    ensures
        substituted(t, b) == filled_in(t, values_of(b)),
    decreases b.len(),
{
    if b.len() == 0 {
        lemma_filled_in_nothing(t);
    } else {
        let front = b.drop_last();
        let last = b.last();
        lemma_substituted_is_filled_in(t, front);
        lemma_values_of(front);
        lemma_fill_one_more(t, values_of(front), last.0, last.1);
    }
}

/// The leftmost placeholder from position `from` on is the leftmost
/// placeholder of what is left after skipping `from` characters.
pub proof fn lemma_find_after_skip(s: Seq<char>, from: int)
    requires
        0 <= from <= s.len(),
    ensures
        find_placeholder(s, from) == match find_placeholder(s.skip(from), 0) {
            Some((i, j)) => Some((i + from, j + from)),
            None => None,
        },
    decreases s.len() - from,
{
    let r = s.skip(from);
    assert(r.skip(0) =~= r);
    lemma_token_len(r);
    if from < s.len() && token_len(r) == 0 {
        lemma_find_after_skip(s, from + 1);
        lemma_find_after_skip(r, 1);
        assert(r.skip(1) =~= s.skip(from + 1));
    }
}

/// Where no placeholder token starts before position `m`, the leftmost
/// placeholder is the leftmost one from `m` on.
pub proof fn lemma_find_from_later(s: Seq<char>, m: int)
    requires
        0 <= m <= s.len(),
        forall|a: int| 0 <= a < m ==> token_len(#[trigger] s.skip(a)) == 0,
    ensures
        find_placeholder(s, 0) == find_placeholder(s, m),
    decreases m,
{
    if m > 0 {
        lemma_find_from_later(s, m - 1);
    }
}

/// The leftmost placeholder of `front + rest` where `front` holds no opening
/// brace is the leftmost placeholder of `rest`.
pub proof fn lemma_first_after_plain_text(front: Seq<char>, rest: Seq<char>)
    requires
        forall|k: int| 0 <= k < front.len() ==> front[k] != '{',
    ensures
        first_placeholder(front + rest) == first_placeholder(rest),
{
    let s = front + rest;
    let m = front.len() as int;
    lemma_find_from_later(s, m);
    lemma_find_after_skip(s, m);
    assert(s.skip(m) =~= rest);
    lemma_find_placeholder(rest, 0);
}

/// The leftmost placeholder of a text that starts with the token of a name
/// is that token.
pub proof fn lemma_first_is_token(name: Seq<char>, rest: Seq<char>)
    requires
        is_name(name),
    ensures
        first_placeholder(token(name) + rest) == Some(token(name)),
{
    let s = token(name) + rest;
    let n = token(name).len() as int;
    lemma_token_len(s);
    assert(s.take(n) =~= token(name));
    assert(token(name).subrange(2, n - 2) =~= name);
    assert(is_placeholder(s.take(n)));
    assert(s.skip(0) =~= s);
}

/// The leftmost placeholder of a plain template that was filled in with
/// harmless bindings is the first placeholder that is not bound.
pub proof fn lemma_first_of_filled_in(t: Seq<char>, values: Values)
    requires
        is_plain(t),
        has_plain_values(values),
    ensures
        first_placeholder(filled_in(t, values)) == match first_unbound(t, values) {
            Some(name) => Some(token(name)),
            None => None,
        },
    decreases t.len(),
{
    if 0 < token_len(t) <= t.len() {
        let n = token_len(t);
        let name = name_at_start(t);
        lemma_token_at_start(t);
        lemma_first_of_filled_in(t.skip(n), values);
        if values.contains_key(name) {
            lemma_first_after_plain_text(values[name], filled_in(t.skip(n), values));
        } else {
            lemma_first_is_token(name, filled_in(t.skip(n), values));
        }
    } else if t.len() > 0 {
        lemma_first_of_filled_in(t.skip(1), values);
        lemma_first_after_plain_text(seq![t[0]], filled_in(t.skip(1), values));
    }
}

/// The names of the placeholders from position `from` on are the names of
/// the placeholders of what is left after skipping `from` characters.
pub proof fn lemma_names_after_skip(s: Seq<char>, from: int)
    requires
        0 <= from <= s.len(),
    ensures
        names_from(s, from) == names_from(s.skip(from), 0),
    decreases s.len() - from,
{
    let r = s.skip(from);
    lemma_find_after_skip(s, from);
    lemma_find_placeholder(r, 0);
    match find_placeholder(r, 0) {
        Some((i, j)) => {
            lemma_names_after_skip(s, j + from);
            lemma_names_after_skip(r, j);
            assert(r.skip(j) =~= s.skip(j + from));
            assert(r.subrange(i + 2, j - 2) =~= s.subrange(i + from + 2, j + from - 2));
        },
        None => {},
    }
}

/// The names of the placeholders of `t`, read off its start: the name of the
/// token that it starts with, if any, comes first.
pub proof fn lemma_names_from_start(t: Seq<char>)
    ensures
        placeholder_names(t) == if 0 < token_len(t) <= t.len() {
            seq![name_at_start(t)] + placeholder_names(t.skip(token_len(t)))
        } else if t.len() > 0 {
            placeholder_names(t.skip(1))
        } else {
            Seq::empty()
        },
{
    assert(t.skip(0) =~= t);
    if 0 < token_len(t) <= t.len() {
        lemma_names_after_skip(t, token_len(t));
    } else if t.len() > 0 {
        lemma_names_after_skip(t, 1);
        lemma_find_placeholder(t, 1);
    }
}

/// The names of placeholders are names.
pub proof fn lemma_names_are_names(s: Seq<char>, from: int)
    requires
        0 <= from,
    ensures
        forall|k: int|
            0 <= k < names_from(s, from).len() ==> is_name(#[trigger] names_from(s, from)[k]),
    decreases s.len() - from,
{
    lemma_find_placeholder(s, from);
    match find_placeholder(s, from) {
        Some((i, j)) => {
            lemma_names_are_names(s, j);
            let w = s.subrange(i, j);
            assert(w.subrange(2, w.len() - 2) =~= s.subrange(i + 2, j - 2));
            assert forall|k: int| 0 <= k < names_from(s, from).len() implies is_name(
                #[trigger] names_from(s, from)[k],
            ) by {
                if k > 0 {
                    assert(names_from(s, from)[k] == names_from(s, j)[k - 1]);
                }
            }
        },
        None => {},
    }
}

/// Where every placeholder of a template has a value, none is unbound.
pub proof fn lemma_all_bound(t: Seq<char>, values: Values)
    requires
        forall|k: int|
            0 <= k < placeholder_names(t).len() ==> values.contains_key(
                #[trigger] placeholder_names(t)[k],
            ),
    ensures
        first_unbound(t, values) is None,
    decreases t.len(),
{
    lemma_names_from_start(t);
    if 0 < token_len(t) <= t.len() {
        let rest = t.skip(token_len(t));
        assert(placeholder_names(t)[0] == name_at_start(t));
        assert forall|k: int| 0 <= k < placeholder_names(rest).len() implies values.contains_key(
            #[trigger] placeholder_names(rest)[k],
        ) by {
            assert(placeholder_names(rest)[k] == placeholder_names(t)[k + 1]);
        }
        lemma_all_bound(rest, values);
    } else if t.len() > 0 {
        lemma_all_bound(t.skip(1), values);
    }
}

/// Resolving a plain template with bindings whose keys and values hold no
/// brace: where a placeholder is not bound, the error names the first such
/// placeholder of the template; else the command line is the template with
/// every placeholder replaced by the value bound to its name, followed by the
/// passthrough tokens. A key is bound to the value of its last binding.
pub proof fn plain_template_resolution(template: Seq<char>, args: Seq<Seq<char>>)
    requires
        is_plain(template),
        is_harmless(bindings_of(args)),
    ensures
        resolved(template, args) == match first_unbound(
            template,
            values_of(bindings_of(args)),
        ) {
            Some(name) => Err::<Seq<char>, Seq<char>>(token(name)),
            None => Ok::<Seq<char>, Seq<char>>(
                with_passthrough(
                    filled_in(template, values_of(bindings_of(args))),
                    passthrough_of(args),
                ),
            ),
        },
{
    let b = bindings_of(args);
    bindings_have_distinct_keys(args);
    lemma_substituted_is_filled_in(template, b);
    lemma_values_of(b);
    lemma_first_of_filled_in(template, values_of(b));
}

} // verus!
