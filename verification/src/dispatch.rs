//! What the words of a command line ask for: which command to recall, under
//! which name and namespace a command is saved, and how the parts of a command
//! become one command line.
use crate::api::NewCommand;
use crate::naming::{detect_name_from_command, detected_name};
use crate::text::{parse_i32, parsed_i32, string_of, texts, to_chars};
use vstd::prelude::*;

verus! {

/// The error of shlex for a word that cannot be quoted.
#[verifier::external_type_specification]
#[verifier::external_body]
pub struct ExQuoteError(shlex::QuoteError);

/// The words of `words`, each quoted as a shell needs it, with single spaces
/// between them, as shlex writes them.
pub uninterp spec fn shell_joined(words: Seq<Seq<char>>) -> Seq<char>;

/// A nul character stands in one of `words`.
pub open spec fn has_nul(words: Seq<Seq<char>>) -> bool {
    exists|i: int| 0 <= i < words.len() && (#[trigger] words[i]).contains('\0')
}

/// `shlex::try_join` quotes each word as a shell needs it and joins the
/// words with single spaces. It fails where a word holds a nul character,
/// and only there.
#[verifier::external_body]
fn shell_join(words: &[String]) -> (r: Result<String, shlex::QuoteError>)
    ensures
        r is Err <==> has_nul(texts(words@)),
        r matches Ok(line) ==> line@ == shell_joined(texts(words@)),
{
    shlex::try_join(words.iter().map(|w| w.as_str()))
}

/// The parts of a command could not be joined: one of them holds a nul
/// character.
#[derive(Debug)]
pub struct JoinFailure {}

impl JoinFailure {
    /// The message that reports the failure.
    pub fn message(&self) -> (m: String)
        ensures
            m@ == "Failed to join command parts"@,
    {
        "Failed to join command parts".to_owned()
    }
}

/// Makes one command line of the parts of a command, each quoted as a shell
/// needs it. This fails where a part holds a nul character, and only there.
pub fn join_command_parts(parts: &[String]) -> (r: Result<String, JoinFailure>)
    ensures
        r is Err <==> has_nul(texts(parts@)),
        r matches Ok(line) ==> line@ == shell_joined(texts(parts@)),
{
    match shell_join(parts) {
        Ok(line) => Ok(line),
        Err(_) => Err(JoinFailure {  }),
    }
}

/// The namespace of a command that is saved: the one given; else the one
/// detected; else the fallback.
pub open spec fn namespace_of(
    given: Option<Seq<char>>,
    detected: Option<Seq<char>>,
    fallback: Seq<char>,
) -> Seq<char> {
    match given {
        Some(n) => n,
        None => match detected {
            Some(d) => d,
            None => fallback,
        },
    }
}

/// The name of a command that is saved: the one given, else the one detected
/// from the command line.
pub open spec fn name_of(given: Option<Seq<char>>, command_string: Seq<char>) -> Seq<char> {
    match given {
        Some(n) => n,
        None => detected_name(command_string),
    }
}

/// The command to be saved for `command_string`, with the defaults for what
/// was not given. `detected_namespace` is the namespace that the context
/// suggests, if any, and `fallback_namespace` the one to take without it.
pub fn new_command_with_defaults(
    command_string: String,
    name: Option<String>,
    namespace: Option<String>,
    detected_namespace: Option<String>,
    fallback_namespace: &str,
    user: String,
    cwd: String,
    hostname: String,
    scope: String,
) -> (r: NewCommand)
    ensures
        r.command_string == command_string,
        r.name@ == name_of(string_of(name), command_string@),
        r.namespace@ == namespace_of(
            string_of(namespace),
            string_of(detected_namespace),
            fallback_namespace@,
        ),
        r.user == Some(user),
        r.cwd == Some(cwd),
        r.hostname == Some(hostname),
        r.scope == scope,
{
    let name = match name {
        Some(n) => n,
        None => detect_name_from_command(command_string.as_str()),
    };
    let namespace = match namespace {
        Some(n) => n,
        None => match detected_namespace {
            Some(d) => d,
            None => fallback_namespace.to_owned(),
        },
    };
    NewCommand {
        command_string,
        name,
        namespace,
        user: Some(user),
        cwd: Some(cwd),
        hostname: Some(hostname),
        scope,
    }
}

/// The namespace of a command that is saved without a namespace in a
/// context that suggests none.
pub const AD_HOC: &'static str = "ad-hoc";

/// The namespace of a command that is saved from history without a namespace
/// in a context that suggests none.
pub const QUICK_SAVE: &'static str = "quick-save";

/// The scope of a command that is saved without a scope.
pub const PERSONAL: &'static str = "personal";

/// The number of suggestions that are asked for where none is given.
pub const DEFAULT_SUGGESTIONS: i32 = 5;

/// The number of suggestions that are asked for where similar commands are
/// wanted too.
pub const SIMILAR_SUGGESTIONS: i32 = 10;

/// The number of suggestions to ask for: the one requested, else the
/// default.
pub fn suggestion_limit(requested: Option<i32>) -> (r: i32)
    ensures
        r == match requested {
            Some(n) => n,
            None => DEFAULT_SUGGESTIONS,
        },
{
    match requested {
        Some(n) => n,
        None => DEFAULT_SUGGESTIONS,
    }
}

/// The number of suggestions to ask for in the current directory.
pub fn here_limit(similar: bool) -> (r: i32)
    ensures
        r == if similar {
            SIMILAR_SUGGESTIONS
        } else {
            DEFAULT_SUGGESTIONS
        },
{
    if similar {
        SIMILAR_SUGGESTIONS
    } else {
        DEFAULT_SUGGESTIONS
    }
}

/// The command that a recall asks for, and the arguments for it.
#[derive(Debug)]
pub enum RecallTarget {
    /// The command with this identifier.
    ById { command_id: i32, extra_args: Vec<String> },
    /// The command of this name in this namespace.
    ByName { namespace: String, name: String, extra_args: Vec<String> },
}

/// A [`RecallTarget`] over character sequences.
pub enum RecallView {
    ById { command_id: i32, extra_args: Seq<Seq<char>> },
    ByName { namespace: Seq<char>, name: Seq<char>, extra_args: Seq<Seq<char>> },
}

impl View for RecallTarget {
    type V = RecallView;

    open spec fn view(&self) -> RecallView {
        match self {
            RecallTarget::ById { command_id, extra_args } => RecallView::ById {
                command_id: *command_id,
                extra_args: texts(extra_args@),
            },
            RecallTarget::ByName { namespace, name, extra_args } => RecallView::ByName {
                namespace: namespace@,
                name: name@,
                extra_args: texts(extra_args@),
            },
        }
    }
}

/// Why the words of a recall name no command.
#[derive(Debug, Clone, Copy, PartialEq, Eq, Structural)]
pub enum UsageError {
    /// There is no word at all.
    NoArguments,
    /// The one word is no identifier, and the name is missing.
    NameMissing,
}

impl UsageError {
    /// The message that reports the error.
    pub fn message(&self) -> (m: String)
        ensures
            m@ == match self {
                UsageError::NoArguments =>
                    "Error: requires at least one argument: <id> or <namespace> <name>"@,
                UsageError::NameMissing =>
                    "Error: recall requires at least two arguments: <namespace> <name>"@,
            },
    {
        match self {
            UsageError::NoArguments => {
                "Error: requires at least one argument: <id> or <namespace> <name>".to_owned()
            },
            UsageError::NameMissing => {
                "Error: recall requires at least two arguments: <namespace> <name>".to_owned()
            },
        }
    }
}

/// What the words of a recall ask for. A first word that is an integer is the
/// identifier of the command, and the other words are its arguments. Else the
/// first two words are the namespace and the name, and the words after them
/// the arguments.
pub open spec fn recall_of(args: Seq<Seq<char>>) -> Result<RecallView, UsageError> {
    if args.len() == 0 {
        Err(UsageError::NoArguments)
    } else {
        match parsed_i32(args[0]) {
            Some(command_id) => Ok(RecallView::ById { command_id, extra_args: args.skip(1) }),
            None => if args.len() < 2 {
                Err(UsageError::NameMissing)
            } else {
                Ok(
                    RecallView::ByName {
                        namespace: args[0],
                        name: args[1],
                        extra_args: args.skip(2),
                    },
                )
            },
        }
    }
}

/// The words of `args` from position `from` on.
fn words_from(args: &[String], from: usize) -> (r: Vec<String>)
    requires
        from <= args.len(),
    ensures
        texts(r@) == texts(args@).skip(from as int),
{
    let mut r: Vec<String> = Vec::new();
    let mut i: usize = from;
    while i < args.len()
        invariant
            from <= i <= args.len(),
            texts(r@) == texts(args@).subrange(from as int, i as int),
        decreases args.len() - i,
    {
        let ghost before = texts(r@);
        r.push(args[i].clone());
        i += 1;
        assert(texts(r@) =~= before.push(args@[i - 1]@));
    }
    r
}

/// Reads the words of a recall.
pub fn recall_target(args: &[String]) -> (r: Result<RecallTarget, UsageError>)
    ensures
        match recall_of(texts(args@)) {
            Ok(target) => r matches Ok(t) && t@ == target,
            Err(e) => r == Err::<RecallTarget, UsageError>(e),
        },
{
    if args.len() == 0 {
        return Err(UsageError::NoArguments);
    }
    let first = to_chars(args[0].as_str());
    match parse_i32(&first) {
        Some(command_id) => Ok(RecallTarget::ById { command_id, extra_args: words_from(args, 1) }),
        None => {
            if args.len() < 2 {
                Err(UsageError::NameMissing)
            } else {
                Ok(
                    RecallTarget::ByName {
                        namespace: args[0].clone(),
                        name: args[1].clone(),
                        extra_args: words_from(args, 2),
                    },
                )
            }
        },
    }
}

} // verus!
