//! The lines from which the operator picks a command.
use crate::api::Command;
use crate::text::{
    decimal, decimal_string, find_seq, joined, matches_at, occurs_at, parse_i32, parsed_i32,
    position_of_seq, same, string_of, text_of, to_chars, to_string, trim_range, trimmed,
};
use vstd::prelude::*;
use vstd::string::StringExecFns;

verus! {

/// `n` spaces.
pub open spec fn spaces(n: nat) -> Seq<char> {
    Seq::new(n, |i: int| ' ')
}

/// `s` filled up with spaces at its end to `width` characters; `s` itself
/// where it has that many or more.
pub open spec fn padded(s: Seq<char>, width: nat) -> Seq<char> {
    if s.len() >= width {
        s
    } else {
        s + spaces((width - s.len()) as nat)
    }
}

/// `s`, or the empty text where there is none.
pub open spec fn or_empty(s: Option<Seq<char>>) -> Seq<char> {
    match s {
        Some(t) => t,
        None => ""@,
    }
}

/// A [`Command`] over character sequences, as far as a line shows it.
pub struct CommandView {
    pub id: i32,
    pub command_string: Seq<char>,
    pub name: Seq<char>,
    pub namespace: Seq<char>,
    pub user: Option<Seq<char>>,
    pub cwd: Option<Seq<char>>,
    pub scope: Seq<char>,
}

/// What a line shows of `command`.
pub open spec fn shown(command: Command) -> CommandView {
    CommandView {
        id: command.id,
        command_string: command.command_string@,
        name: command.name@,
        namespace: command.namespace@,
        user: string_of(command.user),
        cwd: string_of(command.cwd),
        scope: command.scope@,
    }
}

/// The line for one command: its identifier, namespace, name, user, scope
/// and directory in columns of 4, 15, 15, 10, 10 and 25 characters with a
/// space between them, then ` :: ` and the command line.
pub open spec fn line_of(c: CommandView) -> Seq<char> {
    "ID:"@ + padded(decimal(c.id as int), 4) + " "@ + padded(c.namespace, 15) + " "@ + padded(
        c.name,
        15,
    ) + " "@ + padded(or_empty(c.user), 10) + " "@ + padded(c.scope, 10) + " "@ + padded(
        or_empty(c.cwd),
        25,
    ) + " :: "@ + c.command_string
}

/// The lines for `commands`, one below the other.
pub open spec fn find_output(commands: Seq<Command>) -> Seq<char> {
    joined(commands.map_values(|c: Command| line_of(shown(c))), seq!['\n'])
}

/// Appends `s` to `out`, filled up with spaces to `width` characters.
fn push_padded(out: &mut String, s: &str, width: usize)
    ensures
        final(out)@ == old(out)@ + padded(s@, width as nat),
{
    let ghost start = out@;
    out.append(s);
    let n = s.unicode_len();
    let mut i: usize = n;
    while i < width
        invariant
            n <= i,
            n == s@.len(),
            i == n || i <= width,
            out@ == start + (s@ + spaces((i - n) as nat)),
        decreases width - i,
    {
        out.push(' ');
        i += 1;
    }
}

/// The line for one command.
fn format_line(command: &Command) -> (line: String)
    ensures
        line@ == line_of(shown(*command)),
{
    let mut line = String::from_str("ID:");
    let id = decimal_string(command.id);
    push_padded(&mut line, id.as_str(), 4);
    line.append(" ");
    push_padded(&mut line, command.namespace.as_str(), 15);
    line.append(" ");
    push_padded(&mut line, command.name.as_str(), 15);
    line.append(" ");
    match &command.user {
        Some(u) => push_padded(&mut line, u.as_str(), 10),
        None => push_padded(&mut line, "", 10),
    }
    line.append(" ");
    push_padded(&mut line, command.scope.as_str(), 10);
    line.append(" ");
    match &command.cwd {
        Some(d) => push_padded(&mut line, d.as_str(), 25),
        None => push_padded(&mut line, "", 25),
    }
    line.append(" :: ");
    line.append(command.command_string.as_str());
    line
}

/// Lays out `commands` as the lines from which the operator picks one.
pub fn format_find_output(commands: &[Command]) -> (r: String)
    ensures
        r@ == find_output(commands@),
{
    let mut out = String::new();
    let ghost lines = commands@.map_values(|c: Command| line_of(shown(c)));
    let mut i: usize = 0;
    while i < commands.len()
        invariant
            i <= commands.len(),
            lines == commands@.map_values(|c: Command| line_of(shown(c))),
            out@ == joined(lines.take(i as int), seq!['\n']),
        decreases commands.len() - i,
    {
        let ghost next = lines.take(i + 1);
        proof {
            assert(next.drop_last() =~= lines.take(i as int));
        }
        if i > 0 {
            out.push('\n');
        }
        let line = format_line(&commands[i]);
        out.append(line.as_str());
        i += 1;
    }
    assert(lines.take(i as int) =~= lines);
    out
}

/// What stands between the columns of a line and its command line.
pub open spec fn separator() -> Seq<char> {
    seq![':', ':']
}

/// What a line starts with.
pub open spec fn id_label() -> Seq<char> {
    seq!['I', 'D', ':']
}

/// What was picked: the identifier of the command where the line gives one,
/// and the command line.
#[derive(Debug)]
pub struct Selection {
    pub command_id: Option<i32>,
    pub command_string: String,
}

/// What a picked line says. Without a separator in it, it says nothing. Else
/// the command line is what stands after the first separator, up to the next
/// one if there is one, without white space around it. The identifier is what
/// stands between the label and the first separator, without white space
/// around it, where that is an integer.
pub open spec fn selection_of(line: Seq<char>) -> Option<(Option<i32>, Seq<char>)> {
    let p = position_of_seq(line, separator());
    if 0 <= p && p + 2 <= line.len() {
        let head = line.take(p);
        let rest = line.skip(p + 2);
        let body = rest.take(position_of_seq(rest, separator()));
        let id = if occurs_at(head, id_label(), 0) {
            parsed_i32(trimmed(head.skip(3)))
        } else {
            None
        };
        Some((id, trimmed(body)))
    } else {
        None
    }
}

/// Reads the line that the operator picked.
pub fn parse_selection(line: &str) -> (r: Option<Selection>)
    ensures
        match selection_of(line@) {
            Some((id, command)) => r matches Some(s) && s.command_id == id && s.command_string@
                == command,
            None => r is None,
        },
{
    let v = to_chars(line);
    let mut sep: Vec<char> = Vec::new();
    sep.push(':');
    sep.push(':');
    assert(sep@ =~= separator());
    let mut label: Vec<char> = Vec::new();
    label.push('I');
    label.push('D');
    label.push(':');
    assert(label@ =~= id_label());
    assert(v@.skip(0) =~= v@);
    let p = find_seq(&v, 0, &sep);
    if p >= v.len() {
        return None;
    }
    let ghost head = v@.take(p as int);
    let ghost rest = v@.skip(p + 2);
    let q = find_seq(&v, p + 2, &sep);
    proof {
        assert(rest.take(q - (p + 2)) =~= v@.subrange(p + 2, q as int));
        if p >= 3 {
            assert(head.subrange(0, 3) =~= v@.subrange(0, 3));
            assert(head.skip(3) =~= v@.subrange(3, p as int));
        }
    }
    let command = trim_range(&v, p + 2, q);
    let command_id = if p >= 3 && matches_at(&v, 0, &label) {
        parse_i32(&trim_range(&v, 3, p))
    } else {
        None
    };
    Some(Selection { command_id, command_string: to_string(&command) })
}

/// Whether `command` is in the namespace and of the scope that are asked
/// for; what is not asked for is not tested.
pub fn matches_filter(command: &Command, namespace: Option<&str>, scope: Option<&str>) -> (r:
    bool)
    ensures
        r == ((text_of(namespace) matches Some(n) ==> command.namespace@ == n) && (text_of(
            scope,
        ) matches Some(s) ==> command.scope@ == s)),
{
    let namespace_match = match namespace {
        Some(n) => same(&to_chars(command.namespace.as_str()), &to_chars(n)),
        None => true,
    };
    let scope_match = match scope {
        Some(s) => same(&to_chars(command.scope.as_str()), &to_chars(s)),
        None => true,
    };
    namespace_match && scope_match
}

} // verus!
