//! Secret resolution: fills the placeholders that are left in a command line
//! with values from the environment or from the operator.
//!
//! The library neither reads the environment nor prompts. It decides what has
//! to be asked next, and the caller does the asking: [`SecretResolver::advance`]
//! takes the answer to the last request and returns the next one. A name is
//! asked for once, however often its placeholder stands in the command line.
use crate::placeholder::{
    is_name, is_resolved, lemma_first_placeholder, make_token, names_of, placeholder_names, token,
};
use crate::plain::{
    filled_in, first_unbound, has_plain_values, is_plain, lemma_all_bound, lemma_fill_one_more,
    lemma_filled_in_holds_no_token, lemma_filled_in_nothing, lemma_first_of_filled_in,
    lemma_names_are_names, Values,
};
use crate::text::{
    copy_range, lemma_replaced_absent, replace_all, replaced, rows, same, to_chars, to_string,
};
use vstd::prelude::*;
use vstd::string::StringExecFns;

verus! {

/// Where a resolution stands.
#[derive(Clone, Copy, Debug, PartialEq, Eq)]
pub enum Phase {
    /// Nothing was asked yet.
    Ready,
    /// The environment was asked for the pending name.
    AwaitingEnv,
    /// The operator was asked for the pending name.
    AwaitingPrompt,
    /// The command line was returned, or resolution failed.
    Finished,
}

/// What the caller reports to the resolver.
#[derive(Debug)]
pub enum SecretEvent {
    /// Resolution starts.
    Begin,
    /// What the environment holds under the name asked for, if anything.
    EnvValue(Option<String>),
    /// What the operator entered.
    Entered(String),
    /// The prompt could not be read, with the reason.
    PromptFailed(String),
}

/// What the resolver asks of the caller.
#[derive(Debug)]
pub enum SecretAction {
    /// Look this name up in the environment.
    LookupEnv(String),
    /// Prompt the operator with this message, input hidden.
    Prompt { name: String, message: String },
    /// All secrets are resolved: this is the command line.
    Done(String),
    /// A secret could not be read: resolution ends without a command line.
    Failed(SecretInputFailure),
    /// The event does not answer what was asked; nothing changed.
    OutOfTurn,
}

/// The prompt for a secret could not be read.
#[derive(Debug)]
pub struct SecretInputFailure {
    /// The name that was prompted for.
    pub name: String,
    /// Why the prompt could not be read.
    pub cause: String,
}

impl SecretInputFailure {
    /// The message that reports the failure.
    pub fn message(&self) -> (m: String)
        ensures
            m@ == "Failed to read secret from prompt"@,
    {
        "Failed to read secret from prompt".to_owned()
    }
}

/// A [`SecretEvent`] over character sequences.
pub enum SecretEventView {
    Begin,
    EnvValue(Option<Seq<char>>),
    Entered(Seq<char>),
    PromptFailed(Seq<char>),
}

/// A [`SecretAction`] over character sequences.
pub enum SecretActionView {
    LookupEnv(Seq<char>),
    Prompt { name: Seq<char>, message: Seq<char> },
    Done(Seq<char>),
    Failed { name: Seq<char>, cause: Seq<char> },
    OutOfTurn,
}

impl View for SecretEvent {
    type V = SecretEventView;

    open spec fn view(&self) -> SecretEventView {
        match self {
            SecretEvent::Begin => SecretEventView::Begin,
            SecretEvent::EnvValue(Some(v)) => SecretEventView::EnvValue(Some(v@)),
            SecretEvent::EnvValue(None) => SecretEventView::EnvValue(None),
            SecretEvent::Entered(v) => SecretEventView::Entered(v@),
            SecretEvent::PromptFailed(c) => SecretEventView::PromptFailed(c@),
        }
    }
}

impl View for SecretAction {
    type V = SecretActionView;

    open spec fn view(&self) -> SecretActionView {
        match self {
            SecretAction::LookupEnv(n) => SecretActionView::LookupEnv(n@),
            SecretAction::Prompt { name, message } => SecretActionView::Prompt {
                name: name@,
                message: message@,
            },
            SecretAction::Done(line) => SecretActionView::Done(line@),
            SecretAction::Failed(f) => SecretActionView::Failed { name: f.name@, cause: f.cause@ },
            SecretAction::OutOfTurn => SecretActionView::OutOfTurn,
        }
    }
}

/// The state of a resolution.
pub struct ResolverState {
    /// The command line that is being resolved.
    pub command: Seq<char>,
    /// How many of its placeholders are dealt with.
    pub position: int,
    /// The secrets that are known, by name.
    pub known: Map<Seq<char>, Seq<char>>,
    /// The command line with the placeholders dealt with so far filled in.
    pub line: Seq<char>,
    /// Whether an answer is awaited, and which.
    pub phase: Phase,
    /// The names that the environment was asked for, in order.
    pub looked_up: Seq<Seq<char>>,
    /// The names that the operator was asked for, in order.
    pub prompted: Seq<Seq<char>>,
}

/// The message that prompts for the secret `name`.
pub open spec fn prompt_message(name: Seq<char>) -> Seq<char> {
    "Enter value for secret '"@ + name + "': "@
}

/// `line` after the placeholders of `names` were filled in one after another:
/// each step replaces every occurrence of the token of a name by the value
/// that `known` holds for it.
pub open spec fn filled(line: Seq<char>, names: Seq<Seq<char>>, known: Map<Seq<char>, Seq<char>>)
    -> Seq<char>
    decreases names.len(),
{
    if names.len() == 0 {
        line
    } else {
        let n = names.last();
        replaced(filled(line, names.drop_last(), known), token(n), known[n])
    }
}

/// The state in which the resolution of `command` starts.
pub open spec fn initial(command: Seq<char>) -> ResolverState {
    ResolverState {
        command,
        position: 0,
        known: Map::empty(),
        line: command,
        phase: Phase::Ready,
        looked_up: Seq::empty(),
        prompted: Seq::empty(),
    }
}

/// The name of the placeholder that is dealt with next.
pub open spec fn pending(s: ResolverState) -> Seq<char> {
    placeholder_names(s.command)[s.position]
}

/// `s` after `value` was learnt for the pending name and filled in.
pub open spec fn learn(s: ResolverState, value: Seq<char>) -> ResolverState {
    ResolverState {
        position: s.position + 1,
        known: s.known.insert(pending(s), value),
        line: replaced(s.line, token(pending(s)), value),
        ..s
    }
}

/// `s` after the placeholders that follow were filled in as far as their
/// names are known.
pub open spec fn settle(s: ResolverState) -> ResolverState
    decreases placeholder_names(s.command).len() - s.position,
{
    if 0 <= s.position < placeholder_names(s.command).len() && s.known.contains_key(pending(s)) {
        settle(
            ResolverState {
                position: s.position + 1,
                line: replaced(s.line, token(pending(s)), s.known[pending(s)]),
                ..s
            },
        )
    } else {
        s
    }
}

/// Goes on from `s` until a name is met that is not known, which is then
/// asked of the environment, or until no placeholder is left.
pub open spec fn proceed(s: ResolverState) -> (ResolverState, SecretActionView) {
    let t = settle(s);
    if t.position >= placeholder_names(t.command).len() {
        (ResolverState { phase: Phase::Finished, ..t }, SecretActionView::Done(t.line))
    } else {
        (
            ResolverState {
                phase: Phase::AwaitingEnv,
                looked_up: t.looked_up.push(pending(t)),
                ..t
            },
            SecretActionView::LookupEnv(pending(t)),
        )
    }
}

/// The state that follows `s` on `event`, and what is asked of the caller.
pub open spec fn step(s: ResolverState, event: SecretEventView) -> (
    ResolverState,
    SecretActionView,
) {
    match (s.phase, event) {
        (Phase::Ready, SecretEventView::Begin) => proceed(s),
        (Phase::AwaitingEnv, SecretEventView::EnvValue(Some(value))) => proceed(learn(s, value)),
        (Phase::AwaitingEnv, SecretEventView::EnvValue(None)) => (
            ResolverState {
                phase: Phase::AwaitingPrompt,
                prompted: s.prompted.push(pending(s)),
                ..s
            },
            SecretActionView::Prompt { name: pending(s), message: prompt_message(pending(s)) },
        ),
        (Phase::AwaitingPrompt, SecretEventView::Entered(value)) => proceed(learn(s, value)),
        (Phase::AwaitingPrompt, SecretEventView::PromptFailed(cause)) => (
            ResolverState { phase: Phase::Finished, ..s },
            SecretActionView::Failed { name: pending(s), cause },
        ),
        _ => (s, SecretActionView::OutOfTurn),
    }
}

/// What holds of every state that a resolution reaches.
pub open spec fn wf(s: ResolverState) -> bool {
    let names = placeholder_names(s.command);
    &&& 0 <= s.position <= names.len()
    &&& s.known.dom() =~= names.take(s.position).to_set()
    &&& s.line == filled(s.command, names.take(s.position), s.known)
    &&& s.looked_up.no_duplicates()
    &&& s.prompted.no_duplicates()
    &&& forall|n: Seq<char>| s.prompted.contains(n) ==> s.looked_up.contains(n)
    &&& match s.phase {
        Phase::Ready => s.position == 0 && s.looked_up.len() == 0 && s.prompted.len() == 0,
        Phase::AwaitingEnv => {
            &&& s.position < names.len()
            &&& !s.known.contains_key(pending(s))
            &&& s.looked_up.to_set() =~= s.known.dom().insert(pending(s))
            &&& !s.prompted.contains(pending(s))
        },
        Phase::AwaitingPrompt => {
            &&& s.position < names.len()
            &&& !s.known.contains_key(pending(s))
            &&& s.looked_up.to_set() =~= s.known.dom().insert(pending(s))
        },
        Phase::Finished => s.looked_up.to_set().subset_of(names.to_set()),
    }
}

/// The part of `wf` that does not depend on the phase.
pub open spec fn consistent(s: ResolverState) -> bool {
    let names = placeholder_names(s.command);
    &&& 0 <= s.position <= names.len()
    &&& s.known.dom() =~= names.take(s.position).to_set()
    &&& s.line == filled(s.command, names.take(s.position), s.known)
}

/// One more item taken adds that item to the set of those taken.
proof fn lemma_take_next(names: Seq<Seq<char>>, k: int)
    requires
        0 <= k < names.len(),
    ensures
        names.take(k + 1) == names.take(k).push(names[k]),
        names.take(k + 1).drop_last() == names.take(k),
        names.take(k + 1).last() == names[k],
        names.take(k + 1).to_set() =~= names.take(k).to_set().insert(names[k]),
        names.take(k).to_set().subset_of(names.to_set()),
        names.to_set().contains(names[k]),
{
    let a = names.take(k);
    let b = names.take(k + 1);
    assert forall|n: Seq<char>| b.to_set().contains(n) <==> a.to_set().insert(names[k]).contains(
        n,
    ) by {
        if n == names[k] {
            assert(b[k] == n);
        }
    }
}

/// A value for a name that is not among `names` does not change what filling
/// in `names` gives.
pub proof fn lemma_filled_ignores(
    line: Seq<char>,
    names: Seq<Seq<char>>,
    known: Map<Seq<char>, Seq<char>>,
    name: Seq<char>,
    value: Seq<char>,
)
    requires
        !names.contains(name),
    ensures
        filled(line, names, known.insert(name, value)) == filled(line, names, known),
    decreases names.len(),
{
    if names.len() > 0 {
        let front = names.drop_last();
        lemma_filled_ignores(line, front, known, name, value);
    }
}

/// Settling keeps a consistent state consistent, changes neither what is
/// known nor what was asked, and stops at the end or at a name that is not
/// known.
pub proof fn lemma_settle(s: ResolverState)
    requires
        consistent(s),
    ensures
        consistent(settle(s)),
        settle(s).command == s.command,
        settle(s).known == s.known,
        settle(s).phase == s.phase,
        settle(s).looked_up == s.looked_up,
        settle(s).prompted == s.prompted,
        s.position <= settle(s).position,
        settle(s).position < placeholder_names(s.command).len() ==> !s.known.contains_key(
            pending(settle(s)),
        ),
    decreases placeholder_names(s.command).len() - s.position,
{
    let names = placeholder_names(s.command);
    if 0 <= s.position < names.len() && s.known.contains_key(pending(s)) {
        let next = ResolverState {
            position: s.position + 1,
            line: replaced(s.line, token(pending(s)), s.known[pending(s)]),
            ..s
        };
        lemma_take_next(names, s.position);
        lemma_settle(next);
    }
}

/// Learning the value of the pending name keeps a consistent state
/// consistent.
pub proof fn lemma_learn(s: ResolverState, value: Seq<char>)
    requires
        consistent(s),
        s.position < placeholder_names(s.command).len(),
        !s.known.contains_key(pending(s)),
    ensures
        consistent(learn(s, value)),
{
    let names = placeholder_names(s.command);
    lemma_take_next(names, s.position);
    lemma_filled_ignores(s.command, names.take(s.position), s.known, pending(s), value);
}

/// Going on from a consistent state in which every name that was asked for is
/// known gives a state with `wf`.
proof fn lemma_proceed(s: ResolverState)
    requires
        consistent(s),
        s.looked_up.no_duplicates(),
        s.prompted.no_duplicates(),
        forall|n: Seq<char>| s.prompted.contains(n) ==> s.looked_up.contains(n),
        s.looked_up.to_set() =~= s.known.dom(),
    ensures
        wf(proceed(s).0),
        proceed(s).1 is Done || proceed(s).1 is LookupEnv,
{
    let names = placeholder_names(s.command);
    let t = settle(s);
    lemma_settle(s);
    if t.position < names.len() {
        let n = pending(t);
        let r = proceed(s).0;
        assert(r.looked_up.to_set() =~= r.known.dom().insert(n)) by {
            assert forall|m: Seq<char>| r.looked_up.to_set().contains(m) <==> r.known.dom().insert(
                n,
            ).contains(m) by {
                if t.looked_up.contains(m) {
                    let i = choose|i: int| 0 <= i < t.looked_up.len() && t.looked_up[i] == m;
                    assert(r.looked_up[i] == m);
                }
                if m == n {
                    assert(r.looked_up[t.looked_up.len() as int] == m);
                }
            }
        }
        assert forall|m: Seq<char>| r.prompted.contains(m) implies r.looked_up.contains(m) by {
            let i = choose|i: int| 0 <= i < t.looked_up.len() && t.looked_up[i] == m;
            assert(r.looked_up[i] == m);
        }
    }
}

/// A resolution starts in a state with `wf`.
pub proof fn initial_is_wf(command: Seq<char>)
    ensures
        wf(initial(command)),
{
}

/// Every step leads from a state with `wf` to a state with `wf`.
pub proof fn step_keeps_wf(s: ResolverState, event: SecretEventView)
    requires
        wf(s),
    ensures
        wf(step(s, event).0),
{
    match (s.phase, event) {
        (Phase::Ready, SecretEventView::Begin) => {
            lemma_proceed(s);
        },
        (Phase::AwaitingEnv, SecretEventView::EnvValue(Some(value))) => {
            lemma_learn(s, value);
            lemma_proceed(learn(s, value));
        },
        (Phase::AwaitingEnv, SecretEventView::EnvValue(None)) => {
            assert(s.looked_up.to_set().contains(pending(s)));
        },
        (Phase::AwaitingPrompt, SecretEventView::Entered(value)) => {
            lemma_learn(s, value);
            lemma_proceed(learn(s, value));
        },
        _ => {},
    }
}

/// A name is asked for at most once: the environment is asked only for a
/// name for which it was not asked before, and so is the operator. Neither is
/// asked for a name whose value is known.
pub proof fn asks_once(s: ResolverState, event: SecretEventView)
    requires
        wf(s),
    ensures
        step(s, event).1 matches SecretActionView::LookupEnv(name) ==> !s.looked_up.contains(name)
            && !step(s, event).0.known.contains_key(name),
        step(s, event).1 matches SecretActionView::Prompt { name, .. } ==> !s.prompted.contains(
            name,
        ) && !s.known.contains_key(name),
        step(s, event).0.looked_up.no_duplicates(),
        step(s, event).0.prompted.no_duplicates(),
{
    step_keeps_wf(s, event);
    match (s.phase, event) {
        (Phase::AwaitingEnv, SecretEventView::EnvValue(Some(value))) => {
            lemma_learn(s, value);
            lemma_settle(learn(s, value));
        },
        (Phase::AwaitingPrompt, SecretEventView::Entered(value)) => {
            lemma_learn(s, value);
            lemma_settle(learn(s, value));
        },
        _ => {},
    }
}

/// Once the command line was returned or resolution failed, nothing more is
/// asked: every event is out of turn. An event out of turn changes nothing.
pub proof fn finished_stays_finished(s: ResolverState, event: SecretEventView)
    ensures
        s.phase is Finished ==> step(s, event) == (s, SecretActionView::OutOfTurn),
        step(s, event).1 is OutOfTurn ==> step(s, event).0 == s,
        step(s, event).1 is Done || step(s, event).1 is Failed ==> step(s, event).0.phase
            is Finished,
{
}

/// What is known stays known, with the value that was given first.
pub proof fn known_values_stay(s: ResolverState, event: SecretEventView, name: Seq<char>)
    requires
        wf(s),
        s.known.contains_key(name),
    ensures
        step(s, event).0.known.contains_key(name),
        step(s, event).0.known[name] == s.known[name],
{
    match (s.phase, event) {
        (Phase::AwaitingEnv, SecretEventView::EnvValue(Some(value))) => {
            lemma_learn(s, value);
            lemma_settle(learn(s, value));
        },
        (Phase::AwaitingPrompt, SecretEventView::Entered(value)) => {
            lemma_learn(s, value);
            lemma_settle(learn(s, value));
        },
        _ => {},
    }
}

/// When the command line is returned, every placeholder of the command was
/// filled in, all occurrences of a name with the one value known for it, and
/// the environment was asked exactly once for each name among them.
pub proof fn done_fills_every_placeholder(s: ResolverState, event: SecretEventView)
    requires
        wf(s),
        step(s, event).1 is Done,
    ensures
        step(s, event).1 == SecretActionView::Done(
            filled(s.command, placeholder_names(s.command), step(s, event).0.known),
        ),
        step(s, event).0.looked_up.no_duplicates(),
        step(s, event).0.looked_up.to_set() =~= placeholder_names(s.command).to_set(),
        step(s, event).0.known.dom() =~= placeholder_names(s.command).to_set(),
{
    let names = placeholder_names(s.command);
    step_keeps_wf(s, event);
    let from = match (s.phase, event) {
        (Phase::Ready, SecretEventView::Begin) => s,
        (Phase::AwaitingEnv, SecretEventView::EnvValue(Some(value))) => learn(s, value),
        (Phase::AwaitingPrompt, SecretEventView::Entered(value)) => learn(s, value),
        _ => s,
    };
    match (s.phase, event) {
        (Phase::AwaitingEnv, SecretEventView::EnvValue(Some(value))) => {
            lemma_learn(s, value);
        },
        (Phase::AwaitingPrompt, SecretEventView::Entered(value)) => {
            lemma_learn(s, value);
        },
        _ => {},
    }
    lemma_settle(from);
    let t = settle(from);
    assert(names.take(t.position) =~= names);
}

/// Filling in the placeholders of a plain command one after another, with
/// values that hold no brace, is filling them in all at once.
pub proof fn lemma_filled_is_filled_in(command: Seq<char>, names: Seq<Seq<char>>, known: Values)
    requires
        is_plain(command),
        has_plain_values(known),
        forall|k: int|
            0 <= k < names.len() ==> is_name(#[trigger] names[k]) && known.contains_key(names[k]),
    ensures
        filled(command, names, known) == filled_in(command, known.restrict(names.to_set())),
    decreases names.len(),
{
    if names.len() == 0 {
        lemma_filled_in_nothing(command);
        assert(known.restrict(names.to_set()) =~= Map::empty());
    } else {
        let front = names.drop_last();
        let name = names.last();
        let before = known.restrict(front.to_set());
        lemma_filled_is_filled_in(command, front, known);
        assert(names.to_set() =~= front.to_set().insert(name)) by {
            assert forall|n: Seq<char>| names.to_set().contains(n) <==> front.to_set().insert(
                name,
            ).contains(n) by {
                if names.contains(n) {
                    let i = choose|i: int| 0 <= i < names.len() && names[i] == n;
                    if i < front.len() {
                        assert(front[i] == n);
                    }
                }
            }
        }
        if front.contains(name) {
            lemma_filled_in_holds_no_token(command, before, name);
            lemma_replaced_absent(filled_in(command, before), token(name), known[name]);
            assert(known.restrict(names.to_set()) =~= before);
        } else {
            lemma_fill_one_more(command, before, name, known[name]);
            assert(known.restrict(names.to_set()) =~= before.insert(name, known[name]));
        }
    }
}

/// With a plain command and values that hold no brace, the command line that
/// is returned holds no placeholder: it is the command with every placeholder
/// replaced by the value of its name.
pub proof fn done_leaves_no_placeholder(s: ResolverState, event: SecretEventView)
    requires
        wf(s),
        is_plain(s.command),
        step(s, event).1 is Done,
        has_plain_values(step(s, event).0.known),
    ensures
        step(s, event).1 == SecretActionView::Done(
            filled_in(s.command, step(s, event).0.known),
        ),
        first_unbound(s.command, step(s, event).0.known) is None,
        is_resolved(filled_in(s.command, step(s, event).0.known)),
{
    let names = placeholder_names(s.command);
    let known = step(s, event).0.known;
    done_fills_every_placeholder(s, event);
    lemma_names_are_names(s.command, 0);
    lemma_filled_is_filled_in(s.command, names, known);
    assert(known.restrict(names.to_set()) =~= known);
    lemma_all_bound(s.command, known);
    lemma_first_of_filled_in(s.command, known);
    lemma_first_placeholder(filled_in(s.command, known));
}

/// The values that `pairs` holds, by name; of two values for one name, the
/// later one.
pub open spec fn pairs_map(pairs: Seq<(Vec<char>, Vec<char>)>) -> Map<Seq<char>, Seq<char>>
    decreases pairs.len(),
{
    if pairs.len() == 0 {
        Map::empty()
    } else {
        pairs_map(pairs.drop_last()).insert(pairs.last().0@, pairs.last().1@)
    }
}

/// No name has two values in `pairs`.
pub open spec fn distinct_names(pairs: Seq<(Vec<char>, Vec<char>)>) -> bool {
    forall|i: int, j: int|
        0 <= i < j < pairs.len() ==> (#[trigger] pairs[i]).0@ != (#[trigger] pairs[j]).0@
}

/// Every name of `pairs` has a value in `pairs_map`.
proof fn lemma_pairs_map_names(pairs: Seq<(Vec<char>, Vec<char>)>)
    ensures
        forall|i: int|
            0 <= i < pairs.len() ==> pairs_map(pairs).contains_key((#[trigger] pairs[i]).0@),
    decreases pairs.len(),
{
    if pairs.len() > 0 {
        let front = pairs.drop_last();
        lemma_pairs_map_names(front);
        assert forall|i: int| 0 <= i < pairs.len() implies pairs_map(pairs).contains_key(
            (#[trigger] pairs[i]).0@,
        ) by {
            if i < front.len() {
                assert(front[i] == pairs[i]);
            }
        }
    }
}

/// The position in `known` of the value for `name`, if there is one.
fn lookup(known: &Vec<(Vec<char>, Vec<char>)>, name: &Vec<char>) -> (r: Option<usize>)
    ensures
        match r {
            Some(i) => {
                &&& i < known.len()
                &&& pairs_map(known@).contains_key(name@)
                &&& pairs_map(known@)[name@] == known@[i as int].1@
            },
            None => !pairs_map(known@).contains_key(name@),
        },
{
    let mut i: usize = known.len();
    assert(known@.take(i as int) =~= known@);
    while i > 0
        invariant
            i <= known.len(),
            pairs_map(known@).contains_key(name@) == pairs_map(known@.take(i as int)).contains_key(
                name@,
            ),
            pairs_map(known@).contains_key(name@) ==> pairs_map(known@)[name@] == pairs_map(
                known@.take(i as int),
            )[name@],
        decreases i,
    {
        i -= 1;
        proof {
            let p = known@.take(i + 1);
            assert(p.drop_last() =~= known@.take(i as int));
        }
        if same(&known[i].0, name) {
            return Some(i);
        }
    }
    None
}

/// A resolution in progress. Its view is the state that the steps are
/// stated over.
pub struct SecretResolver {
    names: Vec<Vec<char>>,
    position: usize,
    known: Vec<(Vec<char>, Vec<char>)>,
    line: Vec<char>,
    phase: Phase,
    command: Ghost<Seq<char>>,
    looked_up: Ghost<Seq<Seq<char>>>,
    prompted: Ghost<Seq<Seq<char>>>,
}

impl View for SecretResolver {
    type V = ResolverState;

    closed spec fn view(&self) -> ResolverState {
        ResolverState {
            command: self.command@,
            position: self.position as int,
            known: pairs_map(self.known@),
            line: self.line@,
            phase: self.phase,
            looked_up: self.looked_up@,
            prompted: self.prompted@,
        }
    }
}

impl SecretResolver {
    /// The names are those of the placeholders of the command, no name has
    /// two values, and the state is one that a resolution reaches.
    #[verifier::type_invariant]
    spec fn inv(&self) -> bool {
        &&& rows(self.names@) == placeholder_names(self.command@)
        &&& distinct_names(self.known@)
        &&& wf(self@)
    }

    /// Starts the resolution of `command`. Nothing is asked before the event
    /// `Begin` comes.
    pub fn new(command: &str) -> (r: SecretResolver)
        ensures
            r@ == initial(command@),
            wf(r@),
    {
        let line = to_chars(command);
        let names = names_of(&line);
        proof {
            initial_is_wf(command@);
        }
        SecretResolver {
            names,
            position: 0,
            known: Vec::new(),
            line,
            phase: Phase::Ready,
            command: Ghost(command@),
            looked_up: Ghost(Seq::empty()),
            prompted: Ghost(Seq::empty()),
        }
    }

    /// Where the resolution stands.
    pub fn phase(&self) -> (p: Phase)
        ensures
            p == self@.phase,
    {
        self.phase
    }

    /// Takes the answer to what was asked last and returns what is asked
    /// next. The first event is `Begin`. The environment is asked for a name
    /// whose value is not known; where it has none, the operator is asked for
    /// it. A value, once given, is filled in wherever the token of its name
    /// stands. When no placeholder is left to deal with, the command line is
    /// returned.
    pub fn advance(self, event: SecretEvent) -> (r: (SecretResolver, SecretAction))
        ensures
            (r.0@, r.1@) == step(self@, event@),
            wf(self@),
            wf(r.0@),
    {
        proof {
            use_type_invariant(&self);
        }
        let ghost s = self@;
        match (self.phase, event) {
            (Phase::Ready, SecretEvent::Begin) => {
                self.go_on()
            },
            (Phase::AwaitingEnv, SecretEvent::EnvValue(Some(value))) => {
                let learnt = self.learn(value);
                learnt.go_on()
            },
            (Phase::AwaitingEnv, SecretEvent::EnvValue(None)) => {
                let name = to_string(&self.names[self.position]);
                let mut message = String::from_str("Enter value for secret '");
                message.append(name.as_str());
                message.append("': ");
                proof {
                    step_keeps_wf(s, SecretEventView::EnvValue(None));
                }
                let SecretResolver {
                    names,
                    position,
                    known,
                    line,
                    phase,
                    command,
                    looked_up,
                    prompted,
                } = self;
                let next = SecretResolver {
                    names,
                    position,
                    known,
                    line,
                    phase: Phase::AwaitingPrompt,
                    command,
                    looked_up,
                    prompted: Ghost(prompted@.push(pending(s))),
                };
                (next, SecretAction::Prompt { name, message })
            },
            (Phase::AwaitingPrompt, SecretEvent::Entered(value)) => {
                let learnt = self.learn(value);
                learnt.go_on()
            },
            (Phase::AwaitingPrompt, SecretEvent::PromptFailed(cause)) => {
                let name = to_string(&self.names[self.position]);
                proof {
                    step_keeps_wf(s, SecretEventView::PromptFailed(cause@));
                }
                let SecretResolver {
                    names,
                    position,
                    known,
                    line,
                    phase,
                    command,
                    looked_up,
                    prompted,
                } = self;
                let next = SecretResolver {
                    names,
                    position,
                    known,
                    line,
                    phase: Phase::Finished,
                    command,
                    looked_up,
                    prompted,
                };
                (next, SecretAction::Failed(SecretInputFailure { name, cause }))
            },
            (_, _) => (self, SecretAction::OutOfTurn),
        }
    }

    /// Takes in the value of the pending name and fills it in.
    fn learn(self, value: String) -> (r: Learnt)
        requires
            self@.phase is AwaitingEnv || self@.phase is AwaitingPrompt,
        ensures
            r.view() == learn(self@, value@),
            r.inv(),
    {
        proof {
            use_type_invariant(&self);
            lemma_learn(self@, value@);
        }
        let ghost name = pending(self@);
        let SecretResolver {
            names,
            position,
            mut known,
            line,
            phase,
            command,
            looked_up,
            prompted,
        } = self;
        assert(position < names.len());
        let next = position + 1;
        let pat = make_token(&names[position]);
        let chars = to_chars(value.as_str());
        let line = replace_all(&line, &pat, &chars);
        let ghost before = known@;
        known.push((copy_range(&names[position], 0, names[position].len()), chars));
        proof {
            lemma_pairs_map_names(before);
            assert forall|i: int, j: int| 0 <= i < j < known@.len() implies (
            #[trigger] known@[i]).0@ != (#[trigger] known@[j]).0@ by {
                if j >= before.len() {
                    assert(known@[j].0@ == name);
                }
            }
            assert(names@[position as int]@.subrange(0, names@[position as int]@.len() as int)
                =~= names@[position as int]@);
            assert(known@.drop_last() =~= before);
        }
        Learnt { names, position: next, known, line, phase, command, looked_up, prompted }
    }

    /// Fills in the placeholders whose names are known and asks for the
    /// first one that is not, or returns the command line.
    fn go_on(self) -> (r: (SecretResolver, SecretAction))
        requires
            self@.phase is Ready,
        ensures
            (r.0@, r.1@) == proceed(self@),
            wf(r.0@),
    {
        proof {
            use_type_invariant(&self);
        }
        let SecretResolver {
            names,
            position,
            known,
            line,
            phase,
            command,
            looked_up,
            prompted,
        } = self;
        Learnt { names, position, known, line, phase, command, looked_up, prompted }.go_on()
    }
}

/// A resolution between two requests: the answer to the last one is taken
/// in, the next one is not made yet.
struct Learnt {
    names: Vec<Vec<char>>,
    position: usize,
    known: Vec<(Vec<char>, Vec<char>)>,
    line: Vec<char>,
    phase: Phase,
    command: Ghost<Seq<char>>,
    looked_up: Ghost<Seq<Seq<char>>>,
    prompted: Ghost<Seq<Seq<char>>>,
}

impl Learnt {
    /// The state that the fields stand for.
    spec fn view(&self) -> ResolverState {
        ResolverState {
            command: self.command@,
            position: self.position as int,
            known: pairs_map(self.known@),
            line: self.line@,
            phase: self.phase,
            looked_up: self.looked_up@,
            prompted: self.prompted@,
        }
    }

    /// No name has two values, the state is consistent, and every name that
    /// was asked for is known.
    spec fn inv(&self) -> bool {
        let s = self.view();
        &&& rows(self.names@) == placeholder_names(self.command@)
        &&& distinct_names(self.known@)
        &&& consistent(s)
        &&& s.looked_up.no_duplicates()
        &&& s.prompted.no_duplicates()
        &&& forall|n: Seq<char>| s.prompted.contains(n) ==> s.looked_up.contains(n)
        &&& s.looked_up.to_set() =~= s.known.dom()
    }

    /// Fills in the placeholders whose names are known and asks for the
    /// first one that is not, or returns the command line.
    fn go_on(self) -> (r: (SecretResolver, SecretAction))
        requires
            self.inv(),
        ensures
            (r.0@, r.1@) == proceed(self.view()),
            wf(r.0@),
    {
        let ghost s = self.view();
        let Learnt {
            names,
            mut position,
            known,
            mut line,
            phase,
            command,
            looked_up,
            prompted,
        } = self;
        let ghost now = s;
        while position < names.len()
            invariant
                position <= names.len(),
                rows(names@) == placeholder_names(s.command),
                now == (ResolverState { position: position as int, line: line@, ..s }),
                s.known == pairs_map(known@),
                consistent(now),
                settle(now) == settle(s),
            ensures
                position < names.len() ==> !s.known.contains_key(pending(now)),
            decreases names.len() - position,
        {
            match lookup(&known, &names[position]) {
                Some(i) => {
                    let pat = make_token(&names[position]);
                    proof {
                        lemma_take_next(placeholder_names(s.command), position as int);
                    }
                    line = replace_all(&line, &pat, &known[i].1);
                    position += 1;
                    proof {
                        now = ResolverState { position: position as int, line: line@, ..s };
                    }
                },
                None => {
                    break ;
                },
            }
        }
        proof {
            lemma_proceed(s);
        }
        if position >= names.len() {
            let done = to_string(&line);
            (
                SecretResolver {
                    names,
                    position,
                    known,
                    line,
                    phase: Phase::Finished,
                    command,
                    looked_up,
                    prompted,
                },
                SecretAction::Done(done),
            )
        } else {
            let name = to_string(&names[position]);
            (
                SecretResolver {
                    names,
                    position,
                    known,
                    line,
                    phase: Phase::AwaitingEnv,
                    command,
                    looked_up: Ghost(looked_up@.push(pending(now))),
                    prompted,
                },
                SecretAction::LookupEnv(name),
            )
        }
    }
}

} // verus!
