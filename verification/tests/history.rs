use hp::history::{HistoryManager, ShellType};

fn bash() -> HistoryManager {
    HistoryManager::for_shell(ShellType::Bash, Some("/home/user"), None)
}

fn zsh() -> HistoryManager {
    HistoryManager::for_shell(ShellType::Zsh, Some("/home/user"), None)
}

fn fish() -> HistoryManager {
    HistoryManager::for_shell(ShellType::Fish, Some("/home/user"), None)
}

#[test]
fn test_shell_type_detection() {
    let shell_type = ShellType::detect(Some("/bin/bash"));
    println!("Detected shell type: {:?}", shell_type);
    assert_eq!(shell_type, ShellType::Bash);
}

#[test]
fn test_bash_history_parsing() {
    let manager = bash();
    let content = "command1\ncommand2\n# comment\ncommand3\n";

    let last = manager.parse_bash_history(content);
    assert_eq!(last, Some("command3".to_string()));

    let recent = manager.parse_bash_recent(content, 2);
    assert_eq!(recent, vec!["command2", "command3"]);
}

#[test]
fn test_zsh_history_parsing() {
    let manager = zsh();
    let content = ": 1234567890:0;first command\n: 1234567891:0;second command\n";

    let last = manager.parse_zsh_history(content);
    assert_eq!(last, Some("second command".to_string()));

    let recent = manager.parse_zsh_recent(content, 2);
    assert_eq!(recent, vec!["first command", "second command"]);
}

#[test]
fn test_fish_history_parsing() {
    let manager = fish();
    let content =
        "- cmd: first command\n  when: 1234567890\n- cmd: second command\n  when: 1234567891\n";

    let last = manager.parse_fish_history(content);
    assert_eq!(last, Some("second command".to_string()));

    let recent = manager.parse_fish_recent(content, 2);
    assert_eq!(recent, vec!["first command", "second command"]);
}

#[test]
fn test_empty_history() {
    let manager = bash();
    let last = manager.parse_bash_history("");
    assert_eq!(last, None);

    let recent = manager.parse_bash_recent("", 5);
    assert!(recent.is_empty());
}

#[test]
fn bash_last_and_recent_two() {
    let manager = bash();
    let content = "a\nb\n# c\nd\n";
    assert_eq!(manager.parse_bash_history(content), Some("d".to_string()));
    assert_eq!(manager.parse_bash_recent(content, 2), vec!["b", "d"]);
}

#[test]
fn zsh_last_after_metadata() {
    let manager = zsh();
    let content = ": 111:0;x\n: 112:0;y\n";
    assert_eq!(manager.parse_zsh_history(content), Some("y".to_string()));
}

#[test]
fn fish_last_ignores_metadata_lines() {
    let manager = fish();
    let content = "- cmd: x\n  when: 1\n- cmd: y\n  when: 2\n";
    assert_eq!(manager.parse_fish_history(content), Some("y".to_string()));
}

#[test]
fn empty_content_is_empty_for_every_shell() {
    assert_eq!(bash().parse_bash_history(""), None);
    assert_eq!(zsh().parse_zsh_history(""), None);
    assert_eq!(fish().parse_fish_history(""), None);
    assert!(bash().parse_bash_recent("", 3).is_empty());
    assert!(zsh().parse_zsh_recent("", 3).is_empty());
    assert!(fish().parse_fish_recent("", 3).is_empty());
    assert_eq!(bash().get_last_command(Some("")), None);
    assert_eq!(zsh().get_last_command(Some("")), None);
    assert_eq!(fish().get_last_command(Some("")), None);
}

#[test]
fn detection_prefers_bash_then_zsh_then_fish() {
    assert_eq!(ShellType::detect(Some("/usr/bin/zsh")), ShellType::Zsh);
    assert_eq!(ShellType::detect(Some("/usr/local/bin/fish")), ShellType::Fish);
    assert_eq!(ShellType::detect(Some("/bin/sh")), ShellType::Unknown);
    assert_eq!(ShellType::detect(Some("")), ShellType::Unknown);
    assert_eq!(ShellType::detect(None), ShellType::Unknown);
    assert_eq!(ShellType::detect(Some("/opt/zsh/bin/bash")), ShellType::Bash);
    assert_eq!(ShellType::detect(Some("fish-in-zsh")), ShellType::Zsh);
}

#[test]
fn history_paths_per_shell() {
    let home = Some("/home/user");
    assert_eq!(
        ShellType::Bash.history_file_path(home, None),
        Some("/home/user/.bash_history".to_string())
    );
    assert_eq!(
        ShellType::Zsh.history_file_path(home, None),
        Some("/home/user/.zsh_history".to_string())
    );
    assert_eq!(
        ShellType::Zsh.history_file_path(home, Some("/tmp/hist")),
        Some("/tmp/hist".to_string())
    );
    assert_eq!(
        ShellType::Fish.history_file_path(home, None),
        Some("/home/user/.local/share/fish/fish_history".to_string())
    );
    assert_eq!(ShellType::Unknown.history_file_path(home, Some("/tmp/hist")), None);
    assert_eq!(ShellType::Bash.history_file_path(None, None), None);
    assert_eq!(ShellType::Bash.history_file_path(None, Some("/tmp/hist")), None);
    assert_eq!(ShellType::Fish.history_file_path(None, Some("/tmp/hist")), None);
    assert_eq!(ShellType::Zsh.history_file_path(None, None), None);
    assert_eq!(ShellType::Unknown.history_file_path(None, Some("/tmp/hist")), None);
}

#[test]
fn zsh_override_without_home() {
    assert_eq!(
        ShellType::Zsh.history_file_path(None, Some("/tmp/zh")),
        Some("/tmp/zh".to_string())
    );
    let manager = HistoryManager::new(Some("/bin/zsh"), None, Some("/tmp/zh"));
    assert_eq!(manager.shell_type(), ShellType::Zsh);
    assert_eq!(manager.history_path(), Some("/tmp/zh".to_string()));
    assert!(manager.is_available(true));
    assert!(!manager.is_available(false));
    assert_eq!(
        manager.status_description(true),
        "Connected to Zsh history at /tmp/zh"
    );
    assert_eq!(
        manager.get_last_command(Some(": 1700000000:0;make test\n")),
        Some("make test".to_string())
    );
    let homeless = HistoryManager::new(Some("/bin/zsh"), None, None);
    assert_eq!(homeless.history_path(), None);
    assert_eq!(
        homeless.status_description(false),
        "History file path not available for Zsh"
    );
}

#[test]
fn history_path_separator() {
    assert_eq!(
        ShellType::Bash.history_file_path(Some("/home/user/"), None),
        Some("/home/user/.bash_history".to_string())
    );
    assert_eq!(
        ShellType::Bash.history_file_path(Some("/"), None),
        Some("/.bash_history".to_string())
    );
    assert_eq!(
        ShellType::Bash.history_file_path(Some(""), None),
        Some(".bash_history".to_string())
    );
}

#[test]
fn manager_from_environment_values() {
    let manager = HistoryManager::new(Some("/bin/zsh"), Some("/home/u"), Some("/data/zhist"));
    assert_eq!(manager.shell_type(), ShellType::Zsh);
    assert_eq!(manager.history_path(), Some("/data/zhist".to_string()));
    let unknown = HistoryManager::new(None, Some("/home/u"), None);
    assert_eq!(unknown.shell_type(), ShellType::Unknown);
    assert_eq!(unknown.history_path(), None);
}

#[test]
fn unknown_shell_reads_nothing() {
    let manager = HistoryManager::for_shell(ShellType::Unknown, Some("/home/user"), None);
    assert_eq!(manager.get_last_command(Some("ls\n")), None);
    assert!(manager.get_recent_commands(Some("ls\n"), 4).is_empty());
    assert!(!manager.is_available(true));
    assert_eq!(
        manager.status_description(true),
        "Shell type not detected or unsupported"
    );
}

#[test]
fn missing_file_reads_nothing() {
    assert_eq!(bash().get_last_command(None), None);
    assert!(bash().get_recent_commands(None, 4).is_empty());
    assert!(!bash().is_available(false));
    assert!(bash().is_available(true));
}

#[test]
fn last_and_recent_go_by_the_shell() {
    assert_eq!(
        bash().get_last_command(Some("ls\n: 1:0;pwd\n")),
        Some(": 1:0;pwd".to_string())
    );
    assert_eq!(
        zsh().get_last_command(Some("ls\n: 1:0;pwd\n")),
        Some("pwd".to_string())
    );
    assert_eq!(
        fish().get_last_command(Some("- cmd: ls\n- cmd: pwd\nwhen: 3\n")),
        Some("pwd".to_string())
    );
    assert_eq!(
        zsh().get_recent_commands(Some("a\n: 1:0;b\nc\n"), 2),
        vec!["b", "c"]
    );
    assert_eq!(
        fish().get_recent_commands(Some("- cmd: a\n- cmd: b\n"), 5),
        vec!["a", "b"]
    );
}

#[test]
fn recent_counts() {
    let content = "one\ntwo\nthree\n";
    assert!(bash().parse_bash_recent(content, 0).is_empty());
    assert_eq!(bash().parse_bash_recent(content, 1), vec!["three"]);
    assert_eq!(bash().parse_bash_recent(content, 3), vec!["one", "two", "three"]);
    assert_eq!(
        bash().parse_bash_recent(content, usize::MAX),
        vec!["one", "two", "three"]
    );
}

#[test]
fn bash_skips_blank_lines_and_comments() {
    let content = "first\n\n   \n\t\n#second\n # third\nlast";
    assert_eq!(
        bash().parse_bash_recent(content, 10),
        vec!["first", " # third", "last"]
    );
}

#[test]
fn lines_end_with_line_feed_or_carriage_return_line_feed() {
    assert_eq!(bash().parse_bash_recent("a\r\nb\r\n", 10), vec!["a", "b"]);
    assert_eq!(bash().parse_bash_recent("a\rb\nc\r", 10), vec!["a\rb", "c\r"]);
}

#[test]
fn zsh_line_shapes() {
    let content = ": 1:0;echo a;echo b\nplain ; text\n:no semicolon\n: 2:0;\n";
    assert_eq!(
        zsh().parse_zsh_recent(content, 10),
        vec!["echo a;echo b", "plain ; text", ":no semicolon", ""]
    );
}

#[test]
fn zsh_line_that_only_looks_like_metadata_is_kept() {
    assert_eq!(zsh().parse_zsh_history(":foo;bar\n"), Some(":foo;bar".to_string()));
    for line in [
        ":foo;bar",
        ":1:0;x",
        ": :0;x",
        ": 1:;x",
        ": 1;x",
        ": 1:0",
        ": 1:0 ;x",
        ": 1 :0;x",
        ":  1:0;x",
        ": a:0;x",
        ": 1:b;x",
        ": 1:0:2;x",
        " : 1:0;x",
        ": -1:0;x",
        ": \u{663}:0;x",
        ":;",
        ": ;",
        ":",
    ] {
        assert_eq!(zsh().parse_zsh_recent(line, 3), vec![line], "line {:?}", line);
    }
}

#[test]
fn zsh_metadata_ends_at_the_first_semicolon() {
    assert_eq!(
        zsh().parse_zsh_recent(": 1700000000:0;a;b\n: 0:12;: 1:0;c\n: 007:00; d \n", 5),
        vec!["a;b", ": 1:0;c", " d "]
    );
}

#[test]
fn fish_takes_the_rest_of_the_line() {
    let content = "- cmd:   spaced  \n-cmd: no\n - cmd: indented\n- cmd: \n";
    assert_eq!(fish().parse_fish_recent(content, 10), vec!["  spaced  ", ""]);
}

#[test]
fn status_descriptions() {
    assert_eq!(
        bash().status_description(true),
        "Connected to Bash history at /home/user/.bash_history"
    );
    assert_eq!(
        zsh().status_description(false),
        "History file not found at /home/user/.zsh_history (Zsh)"
    );
    let homeless = HistoryManager::for_shell(ShellType::Fish, None, None);
    assert_eq!(
        homeless.status_description(false),
        "History file path not available for Fish"
    );
    assert!(!homeless.is_available(true));
}

#[test]
fn hint_for_saving_by_hand() {
    assert_eq!(
        hp::history::manual_save_hint("deploy", Some("ops")),
        "To save a command manually, use: hp save \"<command>\" --name deploy --namespace ops"
    );
    assert_eq!(
        hp::history::manual_save_hint("deploy", None),
        "To save a command manually, use: hp save \"<command>\" --name deploy --namespace <namespace>"
    );
}

#[test]
fn blank_goes_by_white_space_of_unicode() {
    let manager = bash();
    for code in 0..=0x10FFFFu32 {
        if let Some(c) = char::from_u32(code) {
            if c == '\n' {
                continue;
            }
            let line = c.to_string();
            let skipped = manager.parse_bash_history(&line).is_none();
            assert_eq!(skipped, c.is_whitespace() || c == '#', "character {:?}", c);
        }
    }
}
