//! Shell history: which shell is in use, where its history file lies, and
//! what commands the text of that file holds.
//!
//! The library reads neither the environment nor the disk: the caller hands
//! in the values of the environment variables and the text of the file.
use crate::text::{
    all_digits, blank, contains, copy_range, in_dir, is_blank, is_digit, join_path,
    lemma_run_unique, lines_of, matches_at, occurs_in, rows, run, split_lines, string_of, text_of,
    texts, to_chars, to_string,
};
use vstd::prelude::*;
use vstd::string::StringExecFns;

verus! {

/// The shells whose history can be read.
#[derive(Debug, Clone, Copy, PartialEq, Eq, Structural)]
pub enum ShellType {
    Bash,
    Zsh,
    Fish,
    Unknown,
}

/// The shell that the value of the shell variable stands for: the first of
/// bash, zsh and fish whose name stands in it.
pub open spec fn shell_of(shell: Option<Seq<char>>) -> ShellType {
    match shell {
        Some(s) => if occurs_in(s, "bash"@) {
            ShellType::Bash
        } else if occurs_in(s, "zsh"@) {
            ShellType::Zsh
        } else if occurs_in(s, "fish"@) {
            ShellType::Fish
        } else {
            ShellType::Unknown
        },
        None => ShellType::Unknown,
    }
}

/// The path of `file` in the home directory, where the home directory is
/// known.
pub open spec fn in_home(home: Option<Seq<char>>, file: Seq<char>) -> Option<Seq<char>> {
    match home {
        Some(h) => Some(in_dir(h, file)),
        None => None,
    }
}

/// The history file of `shell`. An unknown shell has none. Zsh takes the file
/// that its history variable names, whether or not the home directory is
/// known; without that variable its file lies in the home directory, as the
/// files of bash and fish do, and there is none where the home directory is
/// not known.
pub open spec fn history_path_of(
    shell: ShellType,
    home: Option<Seq<char>>,
    histfile: Option<Seq<char>>,
) -> Option<Seq<char>> {
    match shell {
        ShellType::Bash => in_home(home, ".bash_history"@),
        ShellType::Zsh => match histfile {
            Some(f) => Some(f),
            None => in_home(home, ".zsh_history"@),
        },
        ShellType::Fish => in_home(home, ".local/share/fish/fish_history"@),
        ShellType::Unknown => None,
    }
}

/// The test for a line of bash history that is a command: it is not blank and
/// does not start with `#`.
pub open spec fn is_bash_command() -> spec_fn(Seq<char>) -> bool {
    |line: Seq<char>| !is_blank(line) && !(line.len() > 0 && line[0] == '#')
}

/// The test for a line that is not blank.
pub open spec fn is_not_blank() -> spec_fn(Seq<char>) -> bool {
    |line: Seq<char>| !is_blank(line)
}

/// The test for a decimal digit.
pub open spec fn digit() -> spec_fn(char) -> bool {
    |c: char| is_digit(c)
}

/// The number of digits at the start of what `line` holds from position
/// `from` on; 0 where `from` lies beyond the line.
pub open spec fn digits_at(line: Seq<char>, from: int) -> int {
    if 0 <= from <= line.len() {
        run(line.skip(from), digit())
    } else {
        0
    }
}

/// `c` stands in `line` at position `at`.
pub open spec fn stands_at(line: Seq<char>, at: int, c: char) -> bool {
    0 <= at < line.len() && line[at] == c
}

/// The length of the metadata that a line of zsh history starts with: a
/// colon and a space, a time stamp of one digit or more, a colon, a flag of
/// one digit or more, and a semicolon. It is 0 where the line does not start
/// with metadata of that shape.
pub open spec fn zsh_metadata_len(line: Seq<char>) -> int {
    let stamp = digits_at(line, 2);
    let flag = digits_at(line, 3 + stamp);
    if stands_at(line, 0, ':') && stands_at(line, 1, ' ') && stamp > 0 && stands_at(
        line,
        2 + stamp,
        ':',
    ) && flag > 0 && stands_at(line, 3 + stamp + flag, ';') {
        4 + stamp + flag
    } else {
        0
    }
}

/// The command of a line of zsh history: what follows the metadata where the
/// line starts with metadata, else the line itself. The semicolon that ends
/// the metadata is the first one of the line.
pub open spec fn zsh_command() -> spec_fn(Seq<char>) -> Seq<char> {
    |line: Seq<char>| line.skip(zsh_metadata_len(line))
}

/// A line of zsh history that does not start with a colon and a space is a
/// command as it stands, whatever colons and semicolons it holds.
pub proof fn zsh_line_without_metadata_is_kept(line: Seq<char>)
    requires
        !(stands_at(line, 0, ':') && stands_at(line, 1, ' ')),
    ensures
        zsh_metadata_len(line) == 0,
        zsh_command()(line) == line,
{
}

/// A line of zsh history that does not go on with a digit after its first
/// two characters is a command as it stands.
pub proof fn zsh_line_without_time_stamp_is_kept(line: Seq<char>)
    requires
        line.len() <= 2 || !is_digit(line[2]),
    ensures
        zsh_metadata_len(line) == 0,
        zsh_command()(line) == line,
{
}

/// The command of a line of zsh history that is made of a colon, a space, a
/// time stamp of digits, a colon, a flag of digits, a semicolon and a
/// command is that command, semicolons and all.
pub proof fn zsh_line_with_metadata_is_cut(stamp: Seq<char>, flag: Seq<char>, command: Seq<char>)
    requires
        stamp.len() > 0,
        flag.len() > 0,
        all_digits(stamp),
        all_digits(flag),
    ensures
        zsh_command()(seq![':', ' '] + stamp + seq![':'] + flag + seq![';'] + command)
            == command,
{
    let line = seq![':', ' '] + stamp + seq![':'] + flag + seq![';'] + command;
    let s = stamp.len() as int;
    let f = flag.len() as int;
    lemma_run_unique(line.skip(2), digit(), s);
    lemma_run_unique(line.skip(3 + s), digit(), f);
}

/// The history variable of zsh names its history file whether or not the
/// home directory is known, and an unknown shell has no history file
/// whatever the variables hold.
pub proof fn zsh_override_needs_no_home(home: Option<Seq<char>>, file: Seq<char>)
    ensures
        history_path_of(ShellType::Zsh, home, Some(file)) == Some(file),
        history_path_of(ShellType::Unknown, home, Some(file)) is None,
        history_path_of(ShellType::Bash, None, Some(file)) is None,
        history_path_of(ShellType::Fish, None, Some(file)) is None,
        history_path_of(ShellType::Zsh, None, None) is None,
{
}

/// What a line of fish history starts with when it holds a command.
pub open spec fn fish_prefix() -> Seq<char> {
    "- cmd: "@
}

/// The test for a line of fish history that holds a command.
pub open spec fn is_fish_command() -> spec_fn(Seq<char>) -> bool {
    |line: Seq<char>| fish_prefix().is_prefix_of(line)
}

/// The command of a line of fish history: what follows the prefix.
pub open spec fn fish_command() -> spec_fn(Seq<char>) -> Seq<char> {
    |line: Seq<char>| line.skip(fish_prefix().len() as int)
}

/// The commands of a bash history, in the order of the file.
pub open spec fn bash_commands(content: Seq<char>) -> Seq<Seq<char>> {
    lines_of(content).filter(is_bash_command())
}

/// The commands of a zsh history, in the order of the file.
pub open spec fn zsh_commands(content: Seq<char>) -> Seq<Seq<char>> {
    lines_of(content).filter(is_not_blank()).map_values(zsh_command())
}

/// The commands of a fish history, in the order of the file.
pub open spec fn fish_commands(content: Seq<char>) -> Seq<Seq<char>> {
    lines_of(content).filter(is_fish_command()).map_values(fish_command())
}

/// The commands that `content` holds when read as the history of `shell`.
pub open spec fn commands_of(shell: ShellType, content: Seq<char>) -> Seq<Seq<char>> {
    match shell {
        ShellType::Bash => bash_commands(content),
        ShellType::Zsh => zsh_commands(content),
        ShellType::Fish => fish_commands(content),
        ShellType::Unknown => Seq::empty(),
    }
}

/// The last of `commands`, if there is any.
pub open spec fn last_of(commands: Seq<Seq<char>>) -> Option<Seq<char>> {
    if commands.len() == 0 {
        None
    } else {
        Some(commands.last())
    }
}

/// The last `count` of `commands`, in their order; all of them where there
/// are no more than `count`.
pub open spec fn recent_of(commands: Seq<Seq<char>>, count: nat) -> Seq<Seq<char>> {
    if commands.len() <= count {
        commands
    } else {
        commands.skip(commands.len() - count)
    }
}

/// An empty history holds no command, whatever the shell: there is no last
/// command and there are no recent ones.
pub proof fn empty_history_has_no_commands(shell: ShellType, count: nat)
    ensures
        commands_of(shell, Seq::empty()).len() == 0,
        last_of(commands_of(shell, Seq::empty())) is None,
        recent_of(commands_of(shell, Seq::empty()), count).len() == 0,
{
    reveal(Seq::filter);
}

/// The last command is the one recent command that is asked for with a count
/// of one.
pub proof fn last_is_most_recent(commands: Seq<Seq<char>>)
    ensures
        match last_of(commands) {
            Some(last) => recent_of(commands, 1) == seq![last],
            None => recent_of(commands, 1).len() == 0,
        },
{
}

/// The name of `shell` as it is written in a status description.
pub open spec fn shell_name(shell: ShellType) -> Seq<char> {
    match shell {
        ShellType::Bash => "Bash"@,
        ShellType::Zsh => "Zsh"@,
        ShellType::Fish => "Fish"@,
        ShellType::Unknown => "Unknown"@,
    }
}

/// The description of how history stands for `shell` with the history file
/// at `path`, which exists or not.
pub open spec fn status_of(shell: ShellType, path: Option<Seq<char>>, exists: bool) -> Seq<char> {
    match (shell, path) {
        (ShellType::Unknown, _) => "Shell type not detected or unsupported"@,
        (_, None) => "History file path not available for "@ + shell_name(shell),
        (_, Some(p)) => if exists {
            "Connected to "@ + shell_name(shell) + " history at "@ + p
        } else {
            "History file not found at "@ + p + " ("@ + shell_name(shell) + ")"@
        },
    }
}

impl ShellType {
    /// The shell that is in use, from the value of the shell variable.
    pub fn detect(shell: Option<&str>) -> (r: ShellType)
        ensures
            r == shell_of(text_of(shell)),
    {
        match shell {
            Some(s) => {
                let chars = to_chars(s);
                if contains(&chars, &to_chars("bash")) {
                    ShellType::Bash
                } else if contains(&chars, &to_chars("zsh")) {
                    ShellType::Zsh
                } else if contains(&chars, &to_chars("fish")) {
                    ShellType::Fish
                } else {
                    ShellType::Unknown
                }
            },
            None => ShellType::Unknown,
        }
    }

    /// The path of this shell's history file, from the values of the home
    /// variable and of zsh's history variable.
    pub fn history_file_path(&self, home: Option<&str>, histfile: Option<&str>) -> (r: Option<
        String,
    >)
        ensures
            string_of(r) == history_path_of(*self, text_of(home), text_of(histfile)),
    {
        match self {
            ShellType::Bash => home_file(home, ".bash_history"),
            ShellType::Zsh => match histfile {
                Some(f) => Some(f.to_owned()),
                None => home_file(home, ".zsh_history"),
            },
            ShellType::Fish => home_file(home, ".local/share/fish/fish_history"),
            ShellType::Unknown => None,
        }
    }

    /// The name of the shell as a status description writes it.
    pub fn name(&self) -> (r: &'static str)
        ensures
            r@ == shell_name(*self),
    {
        match self {
            ShellType::Bash => "Bash",
            ShellType::Zsh => "Zsh",
            ShellType::Fish => "Fish",
            ShellType::Unknown => "Unknown",
        }
    }
}

/// The path of `file` in the home directory, where the home directory is
/// known.
fn home_file(home: Option<&str>, file: &str) -> (r: Option<String>)
    ensures
        string_of(r) == in_home(text_of(home), file@),
{
    match home {
        Some(h) => Some(join_path(h, file)),
        None => None,
    }
}

/// The commands of the bash history `content`.
fn bash_lines(content: &str) -> (out: Vec<Vec<char>>)
    ensures
        rows(out@) == bash_commands(content@),
{
    let chars = to_chars(content);
    let lines = split_lines(&chars);
    let ghost all = lines_of(content@);
    let mut out: Vec<Vec<char>> = Vec::new();
    let mut i: usize = 0;
    proof {
        reveal(Seq::filter);
    }
    while i < lines.len()
        invariant
            i <= lines.len(),
            all == rows(lines@),
            rows(out@) == all.take(i as int).filter(is_bash_command()),
        decreases lines.len() - i,
    {
        let line = &lines[i];
        proof {
            assert(all.take(i + 1) =~= all.take(i as int).push(line@));
            all.take(i as int).lemma_filter_push(line@, is_bash_command());
        }
        if !blank(line) && !(line.len() > 0 && line[0] == '#') {
            let copy = copy_range(line, 0, line.len());
            assert(copy@ =~= line@);
            out.push(copy);
        }
        i += 1;
    }
    assert(all.take(i as int) =~= all);
    out
}

/// The position after the digits that stand in `line` from position `from`
/// on.
fn skip_digits(line: &Vec<char>, from: usize) -> (to: usize)
    requires
        from <= line.len(),
    ensures
        to == from + digits_at(line@, from as int),
        from <= to <= line.len(),
{
    let mut to: usize = from;
    while to < line.len() && '0' <= line[to] && line[to] <= '9'
        invariant
            from <= to <= line.len(),
            forall|k: int| from <= k < to ==> is_digit(#[trigger] line@[k]),
        decreases line.len() - to,
    {
        to += 1;
    }
    proof {
        lemma_run_unique(line@.skip(from as int), digit(), to - from);
    }
    to
}

/// The length of the metadata that `line` starts with, or 0 where it starts
/// with none.
fn zsh_metadata_length(line: &Vec<char>) -> (n: usize)
    ensures
        n == zsh_metadata_len(line@),
        n <= line.len(),
{
    if line.len() < 2 || line[0] != ':' || line[1] != ' ' {
        return 0;
    }
    let stamp_end = skip_digits(line, 2);
    if stamp_end == 2 || stamp_end >= line.len() || line[stamp_end] != ':' {
        return 0;
    }
    let flag_end = skip_digits(line, stamp_end + 1);
    if flag_end == stamp_end + 1 || flag_end >= line.len() || line[flag_end] != ';' {
        return 0;
    }
    flag_end + 1
}

/// The commands of the zsh history `content`.
fn zsh_lines(content: &str) -> (out: Vec<Vec<char>>)
    ensures
        rows(out@) == zsh_commands(content@),
{
    let chars = to_chars(content);
    let lines = split_lines(&chars);
    let ghost all = lines_of(content@);
    let mut out: Vec<Vec<char>> = Vec::new();
    let mut i: usize = 0;
    proof {
        reveal(Seq::filter);
    }
    while i < lines.len()
        invariant
            i <= lines.len(),
            all == rows(lines@),
            rows(out@) == all.take(i as int).filter(is_not_blank()).map_values(zsh_command()),
        decreases lines.len() - i,
    {
        let line = &lines[i];
        let ghost kept = all.take(i as int).filter(is_not_blank());
        proof {
            assert(all.take(i + 1) =~= all.take(i as int).push(line@));
            all.take(i as int).lemma_filter_push(line@, is_not_blank());
            assert(kept.push(line@).map_values(zsh_command()) =~= kept.map_values(
                zsh_command(),
            ).push(zsh_command()(line@)));
        }
        if !blank(line) {
            let from = zsh_metadata_length(line);
            let command = copy_range(line, from, line.len());
            out.push(command);
        }
        i += 1;
    }
    assert(all.take(i as int) =~= all);
    out
}

/// The commands of the fish history `content`.
fn fish_lines(content: &str) -> (out: Vec<Vec<char>>)
    ensures
        rows(out@) == fish_commands(content@),
{
    let chars = to_chars(content);
    let lines = split_lines(&chars);
    let prefix = to_chars("- cmd: ");
    let ghost all = lines_of(content@);
    let mut out: Vec<Vec<char>> = Vec::new();
    let mut i: usize = 0;
    proof {
        reveal(Seq::filter);
    }
    while i < lines.len()
        invariant
            i <= lines.len(),
            all == rows(lines@),
            prefix@ == fish_prefix(),
            rows(out@) == all.take(i as int).filter(is_fish_command()).map_values(fish_command()),
        decreases lines.len() - i,
    {
        let line = &lines[i];
        let ghost kept = all.take(i as int).filter(is_fish_command());
        proof {
            assert(all.take(i + 1) =~= all.take(i as int).push(line@));
            all.take(i as int).lemma_filter_push(line@, is_fish_command());
            assert(kept.push(line@).map_values(fish_command()) =~= kept.map_values(
                fish_command(),
            ).push(fish_command()(line@)));
        }
        if matches_at(line, 0, &prefix) {
            let command = copy_range(line, prefix.len(), line.len());
            out.push(command);
        }
        i += 1;
    }
    assert(all.take(i as int) =~= all);
    out
}

/// The last of `commands` as a string.
fn last_string(commands: &Vec<Vec<char>>) -> (r: Option<String>)
    ensures
        string_of(r) == last_of(rows(commands@)),
{
    if commands.len() == 0 {
        None
    } else {
        Some(to_string(&commands[commands.len() - 1]))
    }
}

/// The last `count` of `commands` as strings.
fn recent_strings(commands: &Vec<Vec<char>>, count: usize) -> (r: Vec<String>)
    ensures
        texts(r@) == recent_of(rows(commands@), count as nat),
{
    let start: usize = if commands.len() > count {
        commands.len() - count
    } else {
        0
    };
    let mut r: Vec<String> = Vec::new();
    let mut i: usize = start;
    while i < commands.len()
        invariant
            start <= i <= commands.len(),
            texts(r@) == rows(commands@).subrange(start as int, i as int),
        decreases commands.len() - i,
    {
        let ghost before = texts(r@);
        let text = to_string(&commands[i]);
        r.push(text);
        i += 1;
        assert(texts(r@) =~= before.push(text@));
    }
    r
}

/// Reads the history of one shell.
pub struct HistoryManager {
    shell_type: ShellType,
    history_path: Option<String>,
}

impl HistoryManager {
    /// The shell whose history is read.
    pub closed spec fn shell(&self) -> ShellType {
        self.shell_type
    }

    /// The path of the history file, if the shell has one.
    pub closed spec fn path(&self) -> Option<Seq<char>> {
        string_of(self.history_path)
    }

    /// The history manager for the shell in use, from the values of the shell
    /// variable, of the home variable and of zsh's history variable.
    pub fn new(shell: Option<&str>, home: Option<&str>, histfile: Option<&str>) -> (r: Self)
        ensures
            r.shell() == shell_of(text_of(shell)),
            r.path() == history_path_of(r.shell(), text_of(home), text_of(histfile)),
    {
        let shell_type = ShellType::detect(shell);
        let history_path = shell_type.history_file_path(home, histfile);
        HistoryManager { shell_type, history_path }
    }

    /// The history manager for a given shell.
    pub fn for_shell(shell_type: ShellType, home: Option<&str>, histfile: Option<&str>) -> (r: Self)
        ensures
            r.shell() == shell_type,
            r.path() == history_path_of(shell_type, text_of(home), text_of(histfile)),
    {
        let history_path = shell_type.history_file_path(home, histfile);
        HistoryManager { shell_type, history_path }
    }

    /// The shell whose history is read.
    pub fn shell_type(&self) -> (r: ShellType)
        ensures
            r == self.shell(),
    {
        self.shell_type
    }

    /// The path of the history file, if the shell has one.
    pub fn history_path(&self) -> (r: Option<String>)
        ensures
            string_of(r) == self.path(),
    {
        match &self.history_path {
            Some(p) => Some(p.clone()),
            None => None,
        }
    }

    /// The last command of the history. `content` is the text of the history
    /// file, or nothing where that file does not exist. Without a history
    /// path or without the file there is no command.
    pub fn get_last_command(&self, content: Option<&str>) -> (r: Option<String>)
        ensures
            string_of(r) == match (self.path(), content) {
                (Some(_), Some(c)) => last_of(commands_of(self.shell(), c@)),
                _ => None,
            },
    {
        match (&self.history_path, content) {
            (Some(_), Some(c)) => match self.shell_type {
                ShellType::Bash => self.parse_bash_history(c),
                ShellType::Zsh => self.parse_zsh_history(c),
                ShellType::Fish => self.parse_fish_history(c),
                ShellType::Unknown => None,
            },
            _ => None,
        }
    }

    /// The last `count` commands of the history, in the order of the file.
    /// `content` is the text of the history file, or nothing where that file
    /// does not exist. Without a history path or without the file there are
    /// no commands.
    pub fn get_recent_commands(&self, content: Option<&str>, count: usize) -> (r: Vec<String>)
        ensures
            texts(r@) == match (self.path(), content) {
                (Some(_), Some(c)) => recent_of(commands_of(self.shell(), c@), count as nat),
                _ => Seq::empty(),
            },
    {
        match (&self.history_path, content) {
            (Some(_), Some(c)) => match self.shell_type {
                ShellType::Bash => self.parse_bash_recent(c, count),
                ShellType::Zsh => self.parse_zsh_recent(c, count),
                ShellType::Fish => self.parse_fish_recent(c, count),
                ShellType::Unknown => {
                    let r: Vec<String> = Vec::new();
                    r
                },
            },
            _ => {
                let r: Vec<String> = Vec::new();
                r
            },
        }
    }

    /// The last command of a bash history.
    pub fn parse_bash_history(&self, content: &str) -> (r: Option<String>)
        ensures
            string_of(r) == last_of(bash_commands(content@)),
    {
        last_string(&bash_lines(content))
    }

    /// The last `count` commands of a bash history.
    pub fn parse_bash_recent(&self, content: &str, count: usize) -> (r: Vec<String>)
        ensures
            texts(r@) == recent_of(bash_commands(content@), count as nat),
    {
        recent_strings(&bash_lines(content), count)
    }

    /// The last command of a zsh history.
    pub fn parse_zsh_history(&self, content: &str) -> (r: Option<String>)
        ensures
            string_of(r) == last_of(zsh_commands(content@)),
    {
        last_string(&zsh_lines(content))
    }

    /// The last `count` commands of a zsh history.
    pub fn parse_zsh_recent(&self, content: &str, count: usize) -> (r: Vec<String>)
        ensures
            texts(r@) == recent_of(zsh_commands(content@), count as nat),
    {
        recent_strings(&zsh_lines(content), count)
    }

    /// The last command of a fish history.
    pub fn parse_fish_history(&self, content: &str) -> (r: Option<String>)
        ensures
            string_of(r) == last_of(fish_commands(content@)),
    {
        last_string(&fish_lines(content))
    }

    /// The last `count` commands of a fish history.
    pub fn parse_fish_recent(&self, content: &str, count: usize) -> (r: Vec<String>)
        ensures
            texts(r@) == recent_of(fish_commands(content@), count as nat),
    {
        recent_strings(&fish_lines(content), count)
    }

    /// Whether history can be read: there is a history path, and the file at
    /// that path exists.
    pub fn is_available(&self, file_exists: bool) -> (r: bool)
        ensures
            r == (self.path() is Some && file_exists),
    {
        self.history_path.is_some() && file_exists
    }

    /// A description of how history stands, for the operator.
    pub fn status_description(&self, file_exists: bool) -> (r: String)
        ensures
            r@ == status_of(self.shell(), self.path(), file_exists),
    {
        match (self.shell_type, &self.history_path) {
            (ShellType::Unknown, _) => "Shell type not detected or unsupported".to_owned(),
            (shell, None) => {
                let mut r = String::from_str("History file path not available for ");
                r.append(shell.name());
                r
            },
            (shell, Some(path)) => {
                if file_exists {
                    let mut r = String::from_str("Connected to ");
                    r.append(shell.name());
                    r.append(" history at ");
                    r.append(path.as_str());
                    r
                } else {
                    let mut r = String::from_str("History file not found at ");
                    r.append(path.as_str());
                    r.append(" (");
                    r.append(shell.name());
                    r.append(")");
                    r
                }
            },
        }
    }
}

/// The hint at how to save a command by hand under `name`, in `namespace`
/// where one is given.
pub open spec fn manual_save_hint_of(name: Seq<char>, namespace: Option<Seq<char>>) -> Seq<char> {
    "To save a command manually, use: hp save \"<command>\" --name "@ + name + " --namespace "@
        + match namespace {
        Some(n) => n,
        None => "<namespace>"@,
    }
}

/// The hint at how to save a command by hand, for when history gives none.
pub fn manual_save_hint(name: &str, namespace: Option<&str>) -> (r: String)
    ensures
        r@ == manual_save_hint_of(name@, text_of(namespace)),
{
    let mut r = String::from_str("To save a command manually, use: hp save \"<command>\" --name ");
    r.append(name);
    r.append(" --namespace ");
    match namespace {
        Some(n) => r.append(n),
        None => r.append("<namespace>"),
    }
    r
}

} // verus!
