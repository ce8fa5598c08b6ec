//! Argument templating: fills the placeholders of a command template from
//! `KEY:VALUE` tokens and appends the remaining tokens to the command line.
use crate::placeholder::{
    find_placeholder_from, first_placeholder, is_brace_free, is_name, is_placeholder, is_resolved,
    lemma_first_placeholder, lemma_tokens_apart, make_token, placeholder_at, token,
};
use crate::text::{
    find_char, join, joined, lemma_position_of, lemma_replaced_absent, lemma_replaced_keeps,
    lemma_replaced_once, occurs_at, occurs_in, pairs, position_of, range_to_string, replace_all,
    replaced, texts, to_chars, to_string,
};
use vstd::prelude::*;
use vstd::string::StringExecFns;

verus! {

/// Bindings in the order in which they are substituted: key and value.
pub type Bindings = Seq<(Seq<char>, Seq<char>)>;

/// The binding that an argument token stands for: what is before its first
/// colon is the key, what is after it the value. A token without a colon
/// stands for none.
pub open spec fn binding_of(tok: Seq<char>) -> Option<(Seq<char>, Seq<char>)> {
    let p = position_of(tok, ':');
    if 0 <= p < tok.len() {
        Some((tok.take(p), tok.skip(p + 1)))
    } else {
        None
    }
}

/// `tok` is a binding of `key`.
pub open spec fn binds_key(tok: Seq<char>, key: Seq<char>) -> bool {
    binding_of(tok) matches Some((k, _)) && k == key
}

/// `b` with `key` bound to `value`: a binding of `key` that is there already
/// gets the new value and keeps its place, else the binding comes last.
pub open spec fn bind(b: Bindings, key: Seq<char>, value: Seq<char>) -> Bindings
    decreases b.len(),
{
    if b.len() == 0 {
        seq![(key, value)]
    } else if b[0].0 == key {
        seq![(key, value)] + b.skip(1)
    } else {
        seq![b[0]] + bind(b.skip(1), key, value)
    }
}

/// The bindings that the tokens of `args` make, read from first to last.
pub open spec fn bindings_of(args: Seq<Seq<char>>) -> Bindings
    decreases args.len(),
{
    if args.len() == 0 {
        Seq::empty()
    } else {
        let b = bindings_of(args.drop_last());
        match binding_of(args.last()) {
            Some((key, value)) => bind(b, key, value),
            None => b,
        }
    }
}

/// The test for a passthrough token: it stands for no binding.
pub open spec fn is_passthrough() -> spec_fn(Seq<char>) -> bool {
    |tok: Seq<char>| binding_of(tok) is None
}

/// The passthrough tokens of `args`, in their order in `args`.
pub open spec fn passthrough_of(args: Seq<Seq<char>>) -> Seq<Seq<char>> {
    args.filter(is_passthrough())
}

/// No key occurs twice in `b`.
pub open spec fn distinct_keys(b: Bindings) -> bool {
    forall|i: int, j: int| 0 <= i < j < b.len() ==> (#[trigger] b[i]).0 != (#[trigger] b[j]).0
}

/// `template` after the bindings of `b` were substituted one after another:
/// each replaces every occurrence of the token of its key by its value.
pub open spec fn substituted(template: Seq<char>, b: Bindings) -> Seq<char>
    decreases b.len(),
{
    if b.len() == 0 {
        template
    } else {
        replaced(substituted(template, b.drop_last()), token(b.last().0), b.last().1)
    }
}

/// `line` followed by the tokens of `extra`, each after a single space.
pub open spec fn with_passthrough(line: Seq<char>, extra: Seq<Seq<char>>) -> Seq<char> {
    if extra.len() == 0 {
        line
    } else {
        line + seq![' '] + joined(extra, seq![' '])
    }
}

/// What resolving `template` with `args` gives: the command line, or the
/// leftmost placeholder token that the bindings left unresolved.
pub open spec fn resolved(template: Seq<char>, args: Seq<Seq<char>>) -> Result<
    Seq<char>,
    Seq<char>,
> {
    let line = substituted(template, bindings_of(args));
    match first_placeholder(line) {
        Some(tok) => Err(tok),
        None => Ok(with_passthrough(line, passthrough_of(args))),
    }
}

/// The start of the message of an unresolved placeholder.
pub open spec fn unresolved_prefix() -> Seq<char> {
    "The following placeholder was not provided: "@
}

/// A placeholder of the template for which no argument gave a value.
#[derive(Debug)]
pub struct UnresolvedPlaceholder {
    /// The token as it stands in the template, braces included.
    pub token: String,
}

impl UnresolvedPlaceholder {
    /// The message that names the token.
    pub fn message(&self) -> (m: String)
        ensures
            m@ == unresolved_prefix() + self.token@,
    {
        let mut m = String::from_str("The following placeholder was not provided: ");
        m.append(self.token.as_str());
        m
    }
}

/// Argument tokens split into bindings and passthrough tokens. No key is
/// bound twice.
pub struct ParsedArgs {
    named_args: Vec<(String, String)>,
    passthrough_args: Vec<String>,
}

impl ParsedArgs {
    /// No key is bound twice.
    #[verifier::type_invariant]
    spec fn inv(&self) -> bool {
        distinct_keys(pairs(self.named_args@))
    }

    /// The bindings, in the order in which their keys first came.
    pub closed spec fn bindings(&self) -> Bindings {
        pairs(self.named_args@)
    }

    /// The passthrough tokens, in the order in which they came.
    pub closed spec fn passthrough(&self) -> Seq<Seq<char>> {
        texts(self.passthrough_args@)
    }

    /// The bindings as key and value.
    pub fn named_args(&self) -> (r: &Vec<(String, String)>)
        ensures
            pairs(r@) == self.bindings(),
            distinct_keys(self.bindings()),
    {
        proof {
            use_type_invariant(self);
        }
        &self.named_args
    }

    /// The passthrough tokens.
    pub fn passthrough_args(&self) -> (r: &Vec<String>)
        ensures
            texts(r@) == self.passthrough(),
    {
        &self.passthrough_args
    }
}

/// Binding a key that stands at position `i` and nowhere before it puts the
/// new value at that position.
pub proof fn lemma_bind_present(b: Bindings, key: Seq<char>, value: Seq<char>, i: int)
    requires
        0 <= i < b.len(),
        b[i].0 == key,
        forall|k: int| 0 <= k < i ==> (#[trigger] b[k]).0 != key,
    ensures
        bind(b, key, value) == b.update(i, (key, value)),
    decreases b.len(),
{
    if i > 0 {
        let t = b.skip(1);
        lemma_bind_present(t, key, value, i - 1);
    }
}

/// Binding a key that stands nowhere in `b` puts the binding last.
pub proof fn lemma_bind_absent(b: Bindings, key: Seq<char>, value: Seq<char>)
    requires
        forall|k: int| 0 <= k < b.len() ==> (#[trigger] b[k]).0 != key,
    ensures
        bind(b, key, value) == b.push((key, value)),
    decreases b.len(),
{
    if b.len() > 0 {
        let t = b.skip(1);
        lemma_bind_absent(t, key, value);
    }
}

/// The key of every binding of `bind(b, key, value)` is `key` or a key of `b`,
/// and no key comes twice where none came twice in `b`.
pub proof fn lemma_bind_keys(b: Bindings, key: Seq<char>, value: Seq<char>)
    ensures
        forall|j: int|
            0 <= j < bind(b, key, value).len() ==> (#[trigger] bind(b, key, value)[j]).0 == key || (
            j < b.len() && bind(b, key, value)[j].0 == b[j].0),
        distinct_keys(b) ==> distinct_keys(bind(b, key, value)),
{
    if exists|i: int| 0 <= i < b.len() && (#[trigger] b[i]).0 == key {
        let i0 = choose|i: int| 0 <= i < b.len() && (#[trigger] b[i]).0 == key;
        let i = first_key(b, key, i0);
        lemma_bind_present(b, key, value, i);
    } else {
        lemma_bind_absent(b, key, value);
    }
}

/// The first position at which `key` is bound in `b`, given one at which it is.
proof fn first_key(b: Bindings, key: Seq<char>, i: int) -> (f: int)
    requires
        0 <= i < b.len(),
        b[i].0 == key,
    ensures
        0 <= f <= i,
        b[f].0 == key,
        forall|k: int| 0 <= k < f ==> (#[trigger] b[k]).0 != key,
    decreases i,
{
    if exists|k: int| 0 <= k < i && (#[trigger] b[k]).0 == key {
        let k = choose|k: int| 0 <= k < i && (#[trigger] b[k]).0 == key;
        first_key(b, key, k)
    } else {
        i
    }
}

/// No key is bound twice by the tokens of `args`, and every key that is bound
/// is the key of one of the tokens.
pub proof fn bindings_have_distinct_keys(args: Seq<Seq<char>>)
    ensures
        distinct_keys(bindings_of(args)),
        forall|j: int|
            0 <= j < bindings_of(args).len() ==> exists|i: int|
                0 <= i < args.len() && binds_key(
                    #[trigger] args[i],
                    (#[trigger] bindings_of(args)[j]).0,
                ),
    decreases args.len(),
{
    if args.len() > 0 {
        let front = args.drop_last();
        let b = bindings_of(front);
        bindings_have_distinct_keys(front);
        match binding_of(args.last()) {
            Some((key, value)) => {
                lemma_bind_keys(b, key, value);
            },
            None => {},
        }
    }
}

/// A template in which no placeholder stands, resolved without arguments, is
/// the command line as it is.
pub proof fn plain_template_is_unchanged(template: Seq<char>)
    requires
        is_resolved(template),
    ensures
        resolved(template, Seq::empty()) == Ok::<Seq<char>, Seq<char>>(template),
{
    reveal(Seq::filter);
    lemma_first_placeholder(template);
}

/// A command line that resolution returns holds the template after
/// substitution with no placeholder left in it; where every token is a
/// binding, nothing follows it, so the command line itself holds none.
pub proof fn success_leaves_no_placeholder(template: Seq<char>, args: Seq<Seq<char>>)
    requires
        resolved(template, args) is Ok,
    ensures
        is_resolved(substituted(template, bindings_of(args))),
        (forall|i: int| 0 <= i < args.len() ==> binding_of(#[trigger] args[i]) is Some)
            ==> resolved(template, args) == Ok::<Seq<char>, Seq<char>>(
            substituted(template, bindings_of(args)),
        ),
{
    lemma_first_placeholder(substituted(template, bindings_of(args)));
    if forall|i: int| 0 <= i < args.len() ==> binding_of(#[trigger] args[i]) is Some {
        lemma_no_passthrough(args);
    }
}

/// Where every token is a binding, there is no passthrough token.
proof fn lemma_no_passthrough(args: Seq<Seq<char>>)
    requires
        forall|i: int| 0 <= i < args.len() ==> binding_of(#[trigger] args[i]) is Some,
    ensures
        passthrough_of(args).len() == 0,
    decreases args.len(),
{
    reveal(Seq::filter);
    if args.len() > 0 {
        lemma_no_passthrough(args.drop_last());
    }
}

/// One binding whose placeholder stands in the template exactly once, between
/// `before` and `after`: the command line is `before`, the value and `after`,
/// and nothing follows it.
pub proof fn single_binding_fills_its_placeholder(
    before: Seq<char>,
    after: Seq<char>,
    tok: Seq<char>,
    key: Seq<char>,
    value: Seq<char>,
)
    requires
        binding_of(tok) == Some((key, value)),
        forall|a: int|
            occurs_at(before + token(key) + after, token(key), a) ==> a == before.len(),
        is_resolved(before + value + after),
    ensures
        resolved(before + token(key) + after, seq![tok]) == Ok::<Seq<char>, Seq<char>>(
            before + value + after,
        ),
{
    let args = seq![tok];
    let template = before + token(key) + after;
    assert(bindings_of(args.drop_last()) =~= Seq::empty());
    let b = bindings_of(args);
    assert(substituted(template, b.drop_last()) == template);
    lemma_replaced_once(before, after, token(key), value);
    lemma_first_placeholder(before + value + after);
    lemma_no_passthrough(args);
}

/// Bindings whose tokens do not stand in the template change nothing.
pub proof fn lemma_unused_bindings(template: Seq<char>, b: Bindings)
    requires
        forall|i: int| 0 <= i < b.len() ==> !occurs_in(template, token((#[trigger] b[i]).0)),
    ensures
        substituted(template, b) == template,
    decreases b.len(),
{
    if b.len() > 0 {
        let front = b.drop_last();
        lemma_unused_bindings(template, front);
        lemma_replaced_absent(template, token(b.last().0), b.last().1);
    }
}

/// Substituting two lists of bindings in a row is substituting the first
/// and then the second.
pub proof fn lemma_substituted_in_a_row(template: Seq<char>, first: Bindings, second: Bindings)
    ensures
        substituted(template, first + second) == substituted(
            substituted(template, first),
            second,
        ),
    decreases second.len(),
{
    if second.len() > 0 {
        lemma_substituted_in_a_row(template, first, second.drop_last());
        assert((first + second).drop_last() =~= first + second.drop_last());
    }
}

/// Among bindings only, one whose placeholder stands in the template exactly
/// once, between `before` and `after`, while the tokens of the others stand
/// neither in the template nor in what it becomes: the command line is
/// `before`, the value and `after`, and nothing follows it.
pub proof fn one_used_binding_fills_its_placeholder(
    before: Seq<char>,
    after: Seq<char>,
    args: Seq<Seq<char>>,
    j: int,
)
    requires
        forall|i: int| 0 <= i < args.len() ==> binding_of(#[trigger] args[i]) is Some,
        0 <= j < bindings_of(args).len(),
        forall|a: int|
            occurs_at(
                before + token(bindings_of(args)[j].0) + after,
                token(bindings_of(args)[j].0),
                a,
            ) ==> a == before.len(),
        forall|i: int|
            0 <= i < bindings_of(args).len() && i != j ==> !occurs_in(
                before + token(bindings_of(args)[j].0) + after,
                token((#[trigger] bindings_of(args)[i]).0),
            ) && !occurs_in(
                before + bindings_of(args)[j].1 + after,
                token(bindings_of(args)[i].0),
            ),
        is_resolved(before + bindings_of(args)[j].1 + after),
    ensures
        resolved(before + token(bindings_of(args)[j].0) + after, args) == Ok::<
            Seq<char>,
            Seq<char>,
        >(before + bindings_of(args)[j].1 + after),
{
    let b = bindings_of(args);
    let key = b[j].0;
    let value = b[j].1;
    let template = before + token(key) + after;
    let filled = before + value + after;
    let head = b.take(j);
    let one = seq![b[j]];
    let tail = b.skip(j + 1);
    assert(b =~= head + one + tail);
    lemma_unused_bindings(template, head);
    assert(substituted(template, one.drop_last()) == template);
    lemma_replaced_once(before, after, token(key), value);
    lemma_unused_bindings(filled, tail);
    lemma_substituted_in_a_row(template, head, one);
    lemma_substituted_in_a_row(template, head + one, tail);
    lemma_first_placeholder(filled);
    lemma_no_passthrough(args);
}

/// Substituting bindings whose keys hold no brace keeps the token of another
/// name that stands in the template.
proof fn lemma_substituted_keeps(template: Seq<char>, b: Bindings, name: Seq<char>)
    requires
        is_brace_free(name),
        occurs_in(template, token(name)),
        forall|j: int| 0 <= j < b.len() ==> is_brace_free((#[trigger] b[j]).0) && b[j].0 != name,
    ensures
        occurs_in(substituted(template, b), token(name)),
    decreases b.len(),
{
    if b.len() > 0 {
        let front = b.drop_last();
        lemma_substituted_keeps(template, front, name);
        let inner = substituted(template, front);
        let i = choose|i: int| occurs_at(inner, token(name), i);
        let key = b.last().0;
        assert forall|a: int| occurs_at(inner, token(key), a) implies a + token(key).len() <= i
            || i + token(name).len() <= a by {
            lemma_tokens_apart(inner, key, name, a, i);
        }
        lemma_replaced_keeps(inner, token(key), b.last().1, token(name), i);
    }
}

/// A placeholder of the template whose name no token binds makes resolution
/// fail, with a placeholder token as the error. This holds where the keys
/// that are bound hold no brace.
pub proof fn unbound_placeholder_fails(template: Seq<char>, args: Seq<Seq<char>>, name: Seq<char>)
    requires
        is_name(name),
        occurs_in(template, token(name)),
        forall|i: int, key: Seq<char>|
            0 <= i < args.len() && #[trigger] binds_key(args[i], key) ==> key != name
                && is_brace_free(key),
    ensures
        resolved(template, args) matches Err(tok) && is_placeholder(tok),
{
    let b = bindings_of(args);
    bindings_have_distinct_keys(args);
    assert forall|j: int| 0 <= j < b.len() implies is_brace_free((#[trigger] b[j]).0) && b[j].0
        != name by {
        let i = choose|i: int| 0 <= i < args.len() && binds_key(#[trigger] args[i], b[j].0);
    }
    lemma_substituted_keeps(template, b, name);
    let line = substituted(template, b);
    let i = choose|i: int| occurs_at(line, token(name), i);
    let t = token(name);
    assert(t.subrange(2, t.len() - 2) =~= name);
    assert(placeholder_at(line, i, i + t.len()));
    lemma_first_placeholder(line);
}

/// Where no token of a binding stands in the template, the bindings change
/// nothing: the error names the leftmost placeholder of the template, and
/// without a placeholder the command line is the template followed by the
/// passthrough tokens.
pub proof fn unused_bindings_leave_the_template(template: Seq<char>, args: Seq<Seq<char>>)
    requires
        forall|i: int|
            0 <= i < bindings_of(args).len() ==> !occurs_in(
                template,
                token((#[trigger] bindings_of(args)[i]).0),
            ),
    ensures
        match first_placeholder(template) {
            Some(tok) => resolved(template, args) == Err::<Seq<char>, Seq<char>>(tok),
            None => resolved(template, args) == Ok::<Seq<char>, Seq<char>>(
                with_passthrough(template, passthrough_of(args)),
            ),
        },
{
    lemma_unused_bindings(template, bindings_of(args));
}

/// Without any binding, the error names the leftmost placeholder of the
/// template, whatever passthrough tokens there are.
pub proof fn without_bindings_first_placeholder_is_named(
    template: Seq<char>,
    args: Seq<Seq<char>>,
)
    requires
        forall|i: int| 0 <= i < args.len() ==> binding_of(#[trigger] args[i]) is None,
    ensures
        bindings_of(args).len() == 0,
        match first_placeholder(template) {
            Some(tok) => resolved(template, args) == Err::<Seq<char>, Seq<char>>(tok),
            None => resolved(template, args) == Ok::<Seq<char>, Seq<char>>(
                with_passthrough(template, args),
            ),
        },
{
    lemma_all_passthrough(args);
}

/// Where no token is a binding, all are passthrough tokens.
proof fn lemma_all_passthrough(args: Seq<Seq<char>>)
    requires
        forall|i: int| 0 <= i < args.len() ==> binding_of(#[trigger] args[i]) is None,
    ensures
        bindings_of(args).len() == 0,
        passthrough_of(args) == args,
    decreases args.len(),
{
    reveal(Seq::filter);
    if args.len() > 0 {
        lemma_all_passthrough(args.drop_last());
    }
}

/// The passthrough tokens keep their order whatever bindings stand among
/// them: those of two lists in a row are those of the first followed by those
/// of the second, a binding token adds none, and a token without a colon adds
/// itself.
pub proof fn passthrough_keeps_order(front: Seq<Seq<char>>, back: Seq<Seq<char>>, tok: Seq<char>)
    ensures
        passthrough_of(front + back) == passthrough_of(front) + passthrough_of(back),
        passthrough_of(front.push(tok)) == if tok.contains(':') {
            passthrough_of(front)
        } else {
            passthrough_of(front).push(tok)
        },
{
    front.lemma_filter_push(tok, is_passthrough());
    lemma_position_of(tok, ':');
}

/// Splits argument tokens into bindings and passthrough tokens. A token with a
/// colon binds what is before its first colon to what is after it, and a later
/// binding of a key overwrites an earlier one. The other tokens are passthrough
/// tokens and keep their order.
pub fn parse_arguments(raw_args: &[String]) -> (parsed: ParsedArgs)
    ensures
        parsed.bindings() == bindings_of(texts(raw_args@)),
        parsed.passthrough() == passthrough_of(texts(raw_args@)),
        distinct_keys(parsed.bindings()),
{
    let mut named_args: Vec<(String, String)> = Vec::new();
    let mut passthrough_args: Vec<String> = Vec::new();
    let ghost args = texts(raw_args@);
    let mut n: usize = 0;
    proof {
        reveal(Seq::filter);
    }
    while n < raw_args.len()
        invariant
            n <= raw_args.len(),
            args == texts(raw_args@),
            pairs(named_args@) == bindings_of(args.take(n as int)),
            texts(passthrough_args@) == passthrough_of(args.take(n as int)),
        decreases raw_args.len() - n,
    {
        let arg = &raw_args[n];
        let ghost done = args.take(n as int);
        let ghost next = args.take(n + 1);
        let ghost b = pairs(named_args@);
        proof {
            assert(next.drop_last() =~= done);
            assert(next =~= done.push(arg@));
            done.lemma_filter_push(arg@, is_passthrough());
        }
        let chars = to_chars(arg.as_str());
        let p = find_char(&chars, 0, ':');
        assert(chars@.skip(0) =~= chars@);
        if p < chars.len() {
            let key = range_to_string(&chars, 0, p);
            let value = range_to_string(&chars, p + 1, chars.len());
            let mut i: usize = 0;
            while i < named_args.len() && named_args[i].0 != key
                invariant
                    i <= named_args.len(),
                            b == pairs(named_args@),
                    forall|k: int| 0 <= k < i ==> (#[trigger] b[k]).0 != key@,
                decreases named_args.len() - i,
            {
                i += 1;
            }
            if i < named_args.len() {
                proof {
                    lemma_bind_present(b, key@, value@, i as int);
                }
                named_args.set(i, (key, value));
            } else {
                proof {
                    lemma_bind_absent(b, key@, value@);
                }
                named_args.push((key, value));
            }
        } else {
            passthrough_args.push(arg.clone());
        }
        n += 1;
    }
    assert(args.take(n as int) =~= args);
    proof {
        bindings_have_distinct_keys(args);
    }
    ParsedArgs { named_args, passthrough_args }
}

/// Resolves a command template with the argument tokens given.
///
/// The bindings among the tokens are substituted into the template, one after
/// another in the order in which their keys first came. Where a placeholder is
/// left after that, the leftmost one is returned as the error. Otherwise the
/// passthrough tokens are appended, each after a single space.
pub fn resolve_arguments(command_template: &str, raw_args: &[String]) -> (r: Result<
    String,
    UnresolvedPlaceholder,
>)
    ensures
        match resolved(command_template@, texts(raw_args@)) {
            Ok(line) => r matches Ok(s) && s@ == line,
            Err(tok) => r matches Err(e) && e.token@ == tok,
        },
{
    let args = parse_arguments(raw_args);
    let mut line = to_chars(command_template);
    let ghost b = args.bindings();
    let mut n: usize = 0;
    while n < args.named_args.len()
        invariant
            n <= args.named_args.len(),
            b == pairs(args.named_args@),
            line@ == substituted(command_template@, b.take(n as int)),
        decreases args.named_args.len() - n,
    {
        let pat = make_token(&to_chars(args.named_args[n].0.as_str()));
        let value = to_chars(args.named_args[n].1.as_str());
        proof {
            assert(b.take(n + 1).drop_last() =~= b.take(n as int));
        }
        line = replace_all(&line, &pat, &value);
        n += 1;
    }
    assert(b.take(n as int) =~= b);
    match find_placeholder_from(&line, 0) {
        Some((i, j)) => Err(UnresolvedPlaceholder { token: range_to_string(&line, i, j) }),
        None => {
            let mut out = to_string(&line);
            if args.passthrough_args.len() > 0 {
                let tail = join(args.passthrough_args.as_slice(), " ");
                proof {
                    reveal_strlit(" ");
                    assert(" "@ =~= seq![' ']);
                }
                out.push(' ');
                out.append(tail.as_str());
            }
            Ok(out)
        },
    }
}

} // verus!
