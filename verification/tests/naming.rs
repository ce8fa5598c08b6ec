use hp::naming::{detect_name_from_command, keeps};

#[test]
fn test_detect_name_from_command() {
    // Test basic command
    assert_eq!(detect_name_from_command("ls -la"), "ls");

    // Test path-based command
    assert_eq!(detect_name_from_command("/usr/bin/git status"), "git");
    assert_eq!(detect_name_from_command("./scripts/build.sh"), "build");

    // Test complex command
    assert_eq!(detect_name_from_command("cargo build --release"), "cargo");
    assert_eq!(detect_name_from_command("npm run dev"), "npm");

    // Test command with special characters
    assert_eq!(
        detect_name_from_command("python3.11 -m pip install uv"),
        "python3"
    );

    // Test empty/edge cases
    assert_eq!(detect_name_from_command(""), "command");
    assert_eq!(detect_name_from_command("   "), "command");
    assert_eq!(detect_name_from_command("@#$%"), "command");

    // Test commands with extensions
    assert_eq!(detect_name_from_command("script.py arg1 arg2"), "script");
    assert_eq!(detect_name_from_command("./test.sh"), "test");
}

#[test]
fn name_after_the_last_slash() {
    assert_eq!(detect_name_from_command("a/b/c-d_e.f g/h"), "c-d_e");
    assert_eq!(detect_name_from_command("dir/ x"), "command");
    assert_eq!(detect_name_from_command("\t\n  /opt/tool\u{a0}arg"), "tool");
}

#[test]
fn name_keeps_letters_of_any_script() {
    assert_eq!(detect_name_from_command("\u{e9}macs file"), "\u{e9}macs");
    assert_eq!(detect_name_from_command("bin/\u{3c0}2 x"), "\u{3c0}2");
}

#[test]
fn name_characters() {
    assert!(keeps('a', true));
    assert!(keeps('-', false));
    assert!(keeps('_', false));
    assert!(!keeps('.', false));
    assert!(!keeps('/', false));
}
