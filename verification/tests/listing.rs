use hp::api::{Command, Timestamp};
use hp::listing::format_find_output;

fn command(
    id: i32,
    namespace: &str,
    name: &str,
    user: Option<&str>,
    cwd: Option<&str>,
    line: &str,
) -> Command {
    Command {
        id,
        command_string: line.to_string(),
        name: name.to_string(),
        namespace: namespace.to_string(),
        user: user.map(|s| s.to_string()),
        cwd: cwd.map(|s| s.to_string()),
        hostname: Some("optionality.local".to_string()),
        scope: "personal".to_string(),
        created_at: Timestamp { seconds: 1_700_000_000, nanos: 0 },
        last_used_at: None,
        use_count: 0,
        is_new: false,
    }
}

#[test]
fn test_format_find_output() {
    let commands = vec![command(
        1,
        "there",
        "hello",
        Some("matt"),
        Some("/Users/matt/repos/hiproc"),
        "echo hi",
    )];
    let output = format_find_output(&commands);
    assert!(output.contains("ID:1"));
    assert!(output.contains("there"));
    assert!(output.contains("hello"));
    assert!(output.contains("matt"));
    assert!(output.contains("personal"));
    assert!(output.contains("/Users/matt/repos/hiproc"));
    assert!(output.contains("echo hi"));
}

#[test]
fn line_has_columns_of_fixed_width() {
    let commands = vec![command(
        1,
        "there",
        "hello",
        Some("matt"),
        Some("/Users/matt/repos/hiproc"),
        "echo hi",
    )];
    assert_eq!(
        format_find_output(&commands),
        "ID:1    there           hello           matt       personal   /Users/matt/repos/hiproc  :: echo hi"
    );
}

#[test]
fn lines_are_joined_by_line_feeds() {
    let commands = vec![
        command(12345, "a-namespace-longer-than-its-column", "n", None, None, "x :: y"),
        command(-7, "", "\u{e9}t\u{e9}", Some("0123456789"), Some(""), ""),
    ];
    let first = format!(
        "ID:12345 a-namespace-longer-than-its-column {:<15} {:<10} {:<10} {:<25} :: x :: y",
        "n", "", "personal", ""
    );
    let second = format!(
        "ID:{:<4} {:<15} {:<15} {:<10} {:<10} {:<25} :: {}",
        -7, "", "\u{e9}t\u{e9}", "0123456789", "personal", "", ""
    );
    assert_eq!(format_find_output(&commands), format!("{}\n{}", first, second));
}

#[test]
fn no_commands_no_lines() {
    assert_eq!(format_find_output(&[]), "");
}

#[test]
fn selection_of_a_formatted_line_has_no_identifier() {
    let commands = vec![command(
        1,
        "there",
        "hello",
        Some("matt"),
        Some("/Users/matt/repos/hiproc"),
        "echo hi",
    )];
    let line = format_find_output(&commands);
    let selection = hp::listing::parse_selection(&line).unwrap();
    assert_eq!(selection.command_id, None);
    assert_eq!(selection.command_string, "echo hi");
}

#[test]
fn selection_with_an_identifier() {
    let selection = hp::listing::parse_selection("ID: 42  ::  cargo build  ").unwrap();
    assert_eq!(selection.command_id, Some(42));
    assert_eq!(selection.command_string, "cargo build");
    let selection = hp::listing::parse_selection("ID:-3::x").unwrap();
    assert_eq!(selection.command_id, Some(-3));
    assert_eq!(selection.command_string, "x");
}

#[test]
fn selection_ends_at_the_next_separator() {
    let selection = hp::listing::parse_selection("ID:7 :: echo a :: b :: c").unwrap();
    assert_eq!(selection.command_id, Some(7));
    assert_eq!(selection.command_string, "echo a");
    let selection = hp::listing::parse_selection("a:::b").unwrap();
    assert_eq!(selection.command_id, None);
    assert_eq!(selection.command_string, ":b");
    let selection = hp::listing::parse_selection("::").unwrap();
    assert_eq!(selection.command_id, None);
    assert_eq!(selection.command_string, "");
    let selection = hp::listing::parse_selection("id:7 :: x").unwrap();
    assert_eq!(selection.command_id, None);
    let selection = hp::listing::parse_selection("ID:7 8 :: x").unwrap();
    assert_eq!(selection.command_id, None);
}

#[test]
fn line_without_separator_is_no_selection() {
    assert!(hp::listing::parse_selection("").is_none());
    assert!(hp::listing::parse_selection("ID:1 echo hi").is_none());
    assert!(hp::listing::parse_selection("a:b:c").is_none());
}

#[test]
fn filter_by_namespace_and_scope() {
    let c = command(1, "rust", "build", None, None, "cargo build");
    assert!(hp::listing::matches_filter(&c, None, None));
    assert!(hp::listing::matches_filter(&c, Some("rust"), None));
    assert!(hp::listing::matches_filter(&c, Some("rust"), Some("personal")));
    assert!(hp::listing::matches_filter(&c, None, Some("personal")));
    assert!(!hp::listing::matches_filter(&c, Some("rus"), None));
    assert!(!hp::listing::matches_filter(&c, Some("rust"), Some("team")));
    assert!(!hp::listing::matches_filter(&c, Some(""), None));
}
