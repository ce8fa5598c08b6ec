//! The rows of the tables that show commands.
//!
//! The library draws no table: it gives the header and the cells, and the
//! caller lays them out.
use crate::api::{Command, Timestamp};
use crate::text::{decimal, decimal_string, string_of, texts};
use std::fmt::Write;
use vstd::prelude::*;

verus! {

/// The point of time `seconds` after the Unix epoch and `nanos` within the
/// second, in UTC, written after `pattern` as chrono writes it; nothing
/// where there is no such point of time or `pattern` cannot be followed.
pub uninterp spec fn time_text(seconds: i64, nanos: u32, pattern: Seq<char>) -> Option<Seq<char>>;

/// `chrono::DateTime::from_timestamp` gives the point of time in UTC, if
/// there is one, and `chrono::DateTime::format` writes it after the pattern.
#[verifier::external_body]
fn format_time(seconds: i64, nanos: u32, pattern: &str) -> (r: Option<String>)
    ensures
        string_of(r) == time_text(seconds, nanos, pattern@),
{
    let time = chrono::DateTime::from_timestamp(seconds, nanos)?;
    let mut text = String::new();
    write!(text, "{}", time.format(pattern)).ok()?;
    Some(text)
}

/// The pattern after which a table writes a point of time: year, month and
/// day, then hour, minute and second.
pub open spec fn time_pattern() -> Seq<char> {
    "%Y-%m-%d %H:%M:%S"@
}

/// `written`, or the empty text where there is none.
pub open spec fn cell_of(written: Option<Seq<char>>) -> Seq<char> {
    match written {
        Some(t) => t,
        None => ""@,
    }
}

/// The cell for `time` in a table.
pub open spec fn time_cell_of(time: Timestamp) -> Seq<char> {
    cell_of(time_text(time.seconds, time.nanos, time_pattern()))
}

/// The cell for the time of the last use, or `never` where there was none.
pub open spec fn last_used_of(time: Option<Timestamp>, never: Seq<char>) -> Seq<char> {
    match time {
        Some(t) => time_cell_of(t),
        None => never,
    }
}

/// The cell for a point of time as it was written, if it could be.
pub fn written_cell(written: Option<String>) -> (r: String)
    ensures
        r@ == cell_of(string_of(written)),
{
    match written {
        Some(t) => t,
        None => "".to_owned(),
    }
}

/// The cell for `time` in a table.
pub fn time_cell(time: &Timestamp) -> (r: String)
    ensures
        r@ == time_cell_of(*time),
{
    written_cell(format_time(time.seconds, time.nanos, "%Y-%m-%d %H:%M:%S"))
}

/// The cell for the time of the last use, or `never` where there was none.
pub fn last_used_cell(time: &Option<Timestamp>, never: &str) -> (r: String)
    ensures
        r@ == last_used_of(*time, never@),
{
    match time {
        Some(t) => time_cell(t),
        None => never.to_owned(),
    }
}

/// The cell for an optional text, or `absent` where there is none.
fn text_cell(text: &Option<String>, absent: &str) -> (r: String)
    ensures
        r@ == match string_of(*text) {
            Some(t) => t,
            None => absent@,
        },
{
    match text {
        Some(t) => t.clone(),
        None => absent.to_owned(),
    }
}

/// `text`, or `absent` where there is none.
pub open spec fn or_else(text: Option<Seq<char>>, absent: Seq<char>) -> Seq<char> {
    match text {
        Some(t) => t,
        None => absent,
    }
}

/// The strings of `cells`, as owned strings.
fn owned(cells: &[&str]) -> (r: Vec<String>)
    ensures
        r@.len() == cells@.len(),
        forall|i: int| 0 <= i < r@.len() ==> (#[trigger] r@[i])@ == cells@[i]@,
{
    let mut r: Vec<String> = Vec::new();
    let mut i: usize = 0;
    while i < cells.len()
        invariant
            i <= cells.len(),
            r@.len() == i,
            forall|k: int| 0 <= k < i ==> (#[trigger] r@[k])@ == cells@[k]@,
        decreases cells.len() - i,
    {
        r.push(cells[i].to_owned());
        i += 1;
    }
    r
}

/// The header of the table of a search.
pub open spec fn search_header_of() -> Seq<Seq<char>> {
    seq![
        "ID"@,
        "Namespace"@,
        "Name"@,
        "User"@,
        "Hostname"@,
        "Scope"@,
        "Directory"@,
        "Created"@,
        "Last Used"@,
        "Uses"@,
        "Command"@,
    ]
}

/// The row of `c` in the table of a search.
pub open spec fn search_row_of(c: Command) -> Seq<Seq<char>> {
    seq![
        decimal(c.id as int),
        c.namespace@,
        c.name@,
        or_else(string_of(c.user), ""@),
        or_else(string_of(c.hostname), ""@),
        c.scope@,
        or_else(string_of(c.cwd), ""@),
        time_cell_of(c.created_at),
        last_used_of(c.last_used_at, ""@),
        decimal(c.use_count as int),
        c.command_string@,
    ]
}

/// The header of the table of a search.
pub fn search_header() -> (r: Vec<String>)
    ensures
        texts(r@) == search_header_of(),
{
    let r = owned(
        &[
            "ID",
            "Namespace",
            "Name",
            "User",
            "Hostname",
            "Scope",
            "Directory",
            "Created",
            "Last Used",
            "Uses",
            "Command",
        ],
    );
    r
}

/// The row of `c` in the table of a search.
pub fn search_row(c: &Command) -> (r: Vec<String>)
    ensures
        texts(r@) == search_row_of(*c),
{
    let mut r: Vec<String> = Vec::new();
    r.push(decimal_string(c.id));
    r.push(c.namespace.clone());
    r.push(c.name.clone());
    r.push(text_cell(&c.user, ""));
    r.push(text_cell(&c.hostname, ""));
    r.push(c.scope.clone());
    r.push(text_cell(&c.cwd, ""));
    r.push(time_cell(&c.created_at));
    r.push(last_used_cell(&c.last_used_at, ""));
    r.push(decimal_string(c.use_count));
    r.push(c.command_string.clone());
    r
}

/// The header of the table that lists the commands of a user.
pub open spec fn list_header_of() -> Seq<Seq<char>> {
    seq![
        "ID"@,
        "Namespace"@,
        "Name"@,
        "Hostname"@,
        "Scope"@,
        "Directory"@,
        "Created"@,
        "Last Used"@,
        "Uses"@,
        "Command"@,
    ]
}

/// The row of `c` in the table that lists the commands of a user.
pub open spec fn list_row_of(c: Command) -> Seq<Seq<char>> {
    seq![
        decimal(c.id as int),
        c.namespace@,
        c.name@,
        or_else(string_of(c.hostname), ""@),
        c.scope@,
        or_else(string_of(c.cwd), ""@),
        time_cell_of(c.created_at),
        last_used_of(c.last_used_at, ""@),
        decimal(c.use_count as int),
        c.command_string@,
    ]
}

/// The header of the table that lists the commands of a user.
pub fn list_header() -> (r: Vec<String>)
    ensures
        texts(r@) == list_header_of(),
{
    let r = owned(
        &[
            "ID",
            "Namespace",
            "Name",
            "Hostname",
            "Scope",
            "Directory",
            "Created",
            "Last Used",
            "Uses",
            "Command",
        ],
    );
    r
}

/// The row of `c` in the table that lists the commands of a user.
pub fn list_row(c: &Command) -> (r: Vec<String>)
    ensures
        texts(r@) == list_row_of(*c),
{
    let mut r: Vec<String> = Vec::new();
    r.push(decimal_string(c.id));
    r.push(c.namespace.clone());
    r.push(c.name.clone());
    r.push(text_cell(&c.hostname, ""));
    r.push(c.scope.clone());
    r.push(text_cell(&c.cwd, ""));
    r.push(time_cell(&c.created_at));
    r.push(last_used_cell(&c.last_used_at, ""));
    r.push(decimal_string(c.use_count));
    r.push(c.command_string.clone());
    r
}

/// The header of the table that shows one command.
pub open spec fn info_header_of() -> Seq<Seq<char>> {
    seq!["Property"@, "Value"@]
}

/// The properties of `c` in the table that shows one command, in order.
pub open spec fn info_labels_of() -> Seq<Seq<char>> {
    seq![
        "Command ID"@,
        "Name"@,
        "Namespace"@,
        "Scope"@,
        "User"@,
        "Hostname"@,
        "Directory"@,
        "Created"@,
        "Last Used"@,
        "Use Count"@,
        "Command"@,
    ]
}

/// The values of `c` in the table that shows one command, in the order of
/// the properties.
pub open spec fn info_values_of(c: Command) -> Seq<Seq<char>> {
    seq![
        decimal(c.id as int),
        c.name@,
        c.namespace@,
        c.scope@,
        or_else(string_of(c.user), "N/A"@),
        or_else(string_of(c.hostname), "N/A"@),
        or_else(string_of(c.cwd), "N/A"@),
        time_cell_of(c.created_at),
        last_used_of(c.last_used_at, "Never"@),
        decimal(c.use_count as int),
        c.command_string@,
    ]
}

/// The header of the table that shows one command.
pub fn info_header() -> (r: Vec<String>)
    ensures
        texts(r@) == info_header_of(),
{
    let r = owned(&["Property", "Value"]);
    r
}

/// The properties in the table that shows one command.
pub fn info_labels() -> (r: Vec<String>)
    ensures
        texts(r@) == info_labels_of(),
{
    let r = owned(
        &[
            "Command ID",
            "Name",
            "Namespace",
            "Scope",
            "User",
            "Hostname",
            "Directory",
            "Created",
            "Last Used",
            "Use Count",
            "Command",
        ],
    );
    r
}

/// The values of `c` in the table that shows one command.
pub fn info_values(c: &Command) -> (r: Vec<String>)
    ensures
        texts(r@) == info_values_of(*c),
{
    let mut r: Vec<String> = Vec::new();
    r.push(decimal_string(c.id));
    r.push(c.name.clone());
    r.push(c.namespace.clone());
    r.push(c.scope.clone());
    r.push(text_cell(&c.user, "N/A"));
    r.push(text_cell(&c.hostname, "N/A"));
    r.push(text_cell(&c.cwd, "N/A"));
    r.push(time_cell(&c.created_at));
    r.push(last_used_cell(&c.last_used_at, "Never"));
    r.push(decimal_string(c.use_count));
    r.push(c.command_string.clone());
    r
}

/// The header of the table of the commands that fit the current directory.
pub open spec fn here_header_of() -> Seq<Seq<char>> {
    seq!["ID"@, "Name"@, "Uses"@, "Last Used"@, "Command"@]
}

/// The row of `c` in the table of the commands that fit the current
/// directory.
pub open spec fn here_row_of(c: Command) -> Seq<Seq<char>> {
    seq![
        decimal(c.id as int),
        c.name@,
        decimal(c.use_count as int),
        last_used_of(c.last_used_at, "Never"@),
        c.command_string@,
    ]
}

/// The header of the table of the commands that fit the current directory.
pub fn here_header() -> (r: Vec<String>)
    ensures
        texts(r@) == here_header_of(),
{
    let r = owned(&["ID", "Name", "Uses", "Last Used", "Command"]);
    r
}

/// The row of `c` in the table of the commands that fit the current
/// directory.
pub fn here_row(c: &Command) -> (r: Vec<String>)
    ensures
        texts(r@) == here_row_of(*c),
{
    let mut r: Vec<String> = Vec::new();
    r.push(decimal_string(c.id));
    r.push(c.name.clone());
    r.push(decimal_string(c.use_count));
    r.push(last_used_cell(&c.last_used_at, "Never"));
    r.push(c.command_string.clone());
    r
}

/// The header of the table of suggested and of similar commands.
pub open spec fn suggestion_header_of() -> Seq<Seq<char>> {
    seq!["ID"@, "Namespace"@, "Name"@, "Uses"@, "Last Used"@, "Command"@]
}

/// The row of `c` in the table of suggested and of similar commands.
pub open spec fn suggestion_row_of(c: Command) -> Seq<Seq<char>> {
    seq![
        decimal(c.id as int),
        c.namespace@,
        c.name@,
        decimal(c.use_count as int),
        last_used_of(c.last_used_at, "Never"@),
        c.command_string@,
    ]
}

/// The header of the table of suggested and of similar commands.
pub fn suggestion_header() -> (r: Vec<String>)
    ensures
        texts(r@) == suggestion_header_of(),
{
    let r = owned(&["ID", "Namespace", "Name", "Uses", "Last Used", "Command"]);
    r
}

/// The row of `c` in the table of suggested and of similar commands.
pub fn suggestion_row(c: &Command) -> (r: Vec<String>)
    ensures
        texts(r@) == suggestion_row_of(*c),
{
    let mut r: Vec<String> = Vec::new();
    r.push(decimal_string(c.id));
    r.push(c.namespace.clone());
    r.push(c.name.clone());
    r.push(decimal_string(c.use_count));
    r.push(last_used_cell(&c.last_used_at, "Never"));
    r.push(c.command_string.clone());
    r
}

} // verus!
