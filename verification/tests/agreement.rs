use hp::history::{HistoryManager, ShellType};
use hp::naming::detect_name_from_command;
use hp::secrets::{SecretAction, SecretEvent, SecretResolver};
use hp::templating::resolve_arguments;
use regex::Regex;

const PLACEHOLDER: &str = r"\{\{([a-zA-Z_][a-zA-Z0-9_]*)\}\}";

/// A small generator of numbers, the same on every run.
struct Numbers(u64);

impl Numbers {
    fn next(&mut self) -> u64 {
        self.0 = self.0.wrapping_mul(6364136223846793005).wrapping_add(1442695040888963407);
        self.0 >> 33
    }

    fn below(&mut self, n: usize) -> usize {
        (self.next() % n as u64) as usize
    }

    fn text(&mut self, alphabet: &[&str], max_len: usize) -> String {
        let len = self.below(max_len + 1);
        let mut s = String::new();
        for _ in 0..len {
            s.push_str(alphabet[self.below(alphabet.len())]);
        }
        s
    }
}

const TEMPLATE_PIECES: [&str; 14] =
    ["{{", "}}", "{", "}", "A", "B", "_", "a1", "9", " ", ":", "{{A}}", "{{B}}", "\u{e9}"];

/// Resolution with the functions of std and regex, bindings in the order in
/// which their keys first came.
fn resolve_with_regex(template: &str, args: &[String]) -> Result<String, String> {
    let mut named: Vec<(String, String)> = Vec::new();
    let mut passthrough: Vec<String> = Vec::new();
    for arg in args {
        if let Some((key, value)) = arg.split_once(':') {
            match named.iter_mut().find(|(k, _)| k == key) {
                Some(entry) => entry.1 = value.to_string(),
                None => named.push((key.to_string(), value.to_string())),
            }
        } else {
            passthrough.push(arg.clone());
        }
    }
    let mut resolved = template.to_string();
    for (key, value) in named {
        resolved = resolved.replace(&format!("{{{{{}}}}}", key), &value);
    }
    let re = Regex::new(PLACEHOLDER).unwrap();
    if let Some(unresolved) = re.find(&resolved) {
        return Err(unresolved.as_str().to_string());
    }
    if !passthrough.is_empty() {
        resolved.push(' ');
        resolved.push_str(&passthrough.join(" "));
    }
    Ok(resolved)
}

#[test]
fn templating_agrees_with_regex_and_std() {
    let mut numbers = Numbers(1);
    let arg_pieces = ["A", "B", ":", "x", "{{B}}", "{{", "}}", "-", " ", ""];
    for _ in 0..4000 {
        let template = numbers.text(&TEMPLATE_PIECES, 8);
        let count = numbers.below(4);
        let args: Vec<String> = (0..count).map(|_| numbers.text(&arg_pieces, 4)).collect();
        let expected = resolve_with_regex(&template, &args);
        let got = resolve_arguments(&template, &args).map_err(|e| e.token);
        assert_eq!(got, expected, "template {:?}, arguments {:?}", template, args);
    }
}

/// Secret resolution with the functions of std and regex; the values come
/// from `value_of`, which records each name that it is asked for.
fn secrets_with_regex(command: &str, asked: &mut Vec<String>) -> String {
    let re = Regex::new(PLACEHOLDER).unwrap();
    let mut known: Vec<(String, String)> = Vec::new();
    let mut line = command.to_string();
    for cap in re.captures_iter(command) {
        let placeholder = cap.get(0).unwrap().as_str();
        let name = cap.get(1).unwrap().as_str();
        if let Some((_, value)) = known.iter().find(|(k, _)| k == name) {
            line = line.replace(placeholder, value);
            continue;
        }
        asked.push(name.to_string());
        let value = value_of(name);
        known.push((name.to_string(), value.clone()));
        line = line.replace(placeholder, &value);
    }
    line
}

/// The value of a secret in these tests; some values hold placeholders.
fn value_of(name: &str) -> String {
    match name {
        "A" => "{{B}}".to_string(),
        "B" => "b".to_string(),
        "_" => "{{".to_string(),
        other => format!("<{}>", other),
    }
}

#[test]
fn secrets_agree_with_regex_and_std() {
    let mut numbers = Numbers(2);
    for round in 0..4000 {
        let command = numbers.text(&TEMPLATE_PIECES, 10);
        let mut expected_asked = Vec::new();
        let expected = secrets_with_regex(&command, &mut expected_asked);

        let mut asked = Vec::new();
        let mut resolver = SecretResolver::new(&command);
        let mut event = SecretEvent::Begin;
        let line = loop {
            let (next, action) = resolver.advance(event);
            resolver = next;
            event = match action {
                SecretAction::LookupEnv(name) => {
                    asked.push(name.clone());
                    if round % 2 == 0 {
                        SecretEvent::EnvValue(Some(value_of(&name)))
                    } else {
                        SecretEvent::EnvValue(None)
                    }
                }
                SecretAction::Prompt { name, .. } => SecretEvent::Entered(value_of(&name)),
                SecretAction::Done(line) => break line,
                other => panic!("unexpected action {:?}", other),
            };
        };
        assert_eq!(line, expected, "command {:?}", command);
        assert_eq!(asked, expected_asked, "command {:?}", command);
    }
}

fn bash_with_std(content: &str) -> Vec<String> {
    content
        .lines()
        .filter(|line| !line.trim().is_empty())
        .filter(|line| !line.starts_with('#'))
        .map(|s| s.to_string())
        .collect()
}

fn zsh_with_regex(content: &str) -> Vec<String> {
    let metadata = Regex::new("^: [0-9]+:[0-9]+;").unwrap();
    content
        .lines()
        .filter(|line| !line.trim().is_empty())
        .map(|line| match metadata.find(line) {
            Some(found) => line[found.end()..].to_string(),
            None => line.to_string(),
        })
        .collect()
}

fn fish_with_std(content: &str) -> Vec<String> {
    let mut commands = Vec::new();
    for line in content.lines() {
        if let Some(cmd) = line.strip_prefix("- cmd: ") {
            commands.push(cmd.to_string());
        }
    }
    commands
}

fn last_n(commands: Vec<String>, count: usize) -> Vec<String> {
    commands.into_iter().rev().take(count).rev().collect()
}

#[test]
fn history_agrees_with_std() {
    let pieces = [
        "\n", "\r\n", "\r", " ", "\t", "#", ":", ";", "- cmd: ", "- cmd:", "ls", "x", "\u{a0}",
        "\u{3000}", "\u{e9}", ": ", "1", "07", ": 1:0;", "\u{663}",
    ];
    let bash = HistoryManager::for_shell(ShellType::Bash, Some("/h"), None);
    let zsh = HistoryManager::for_shell(ShellType::Zsh, Some("/h"), None);
    let fish = HistoryManager::for_shell(ShellType::Fish, Some("/h"), None);
    let mut numbers = Numbers(3);
    for _ in 0..8000 {
        let content = numbers.text(&pieces, 12);
        let count = numbers.below(5);
        assert_eq!(
            bash.parse_bash_recent(&content, count),
            last_n(bash_with_std(&content), count),
            "content {:?}",
            content
        );
        assert_eq!(bash.parse_bash_history(&content), bash_with_std(&content).pop());
        assert_eq!(
            zsh.parse_zsh_recent(&content, count),
            last_n(zsh_with_regex(&content), count),
            "content {:?}",
            content
        );
        assert_eq!(zsh.parse_zsh_history(&content), zsh_with_regex(&content).pop());
        assert_eq!(
            fish.parse_fish_recent(&content, count),
            last_n(fish_with_std(&content), count),
            "content {:?}",
            content
        );
        assert_eq!(fish.parse_fish_history(&content), fish_with_std(&content).pop());
    }
}

fn name_with_std(command_string: &str) -> String {
    let first_word = command_string.trim().split_whitespace().next().unwrap_or("command");
    let command_name = if first_word.contains('/') {
        first_word.split('/').last().unwrap_or(first_word)
    } else {
        first_word
    };
    let clean_name = command_name
        .chars()
        .take_while(|c| c.is_alphanumeric() || *c == '-' || *c == '_')
        .collect::<String>();
    if clean_name.is_empty() {
        "command".to_string()
    } else {
        clean_name
    }
}

#[test]
fn names_agree_with_std() {
    let pieces = [
        " ", "\t", "\n", "/", ".", "-", "_", "git", "x", "9", "\u{e9}", "\u{a0}", "\u{2003}", "$",
    ];
    let mut numbers = Numbers(4);
    for _ in 0..4000 {
        let line = numbers.text(&pieces, 10);
        assert_eq!(detect_name_from_command(&line), name_with_std(&line), "line {:?}", line);
    }
}

fn detect_with_std(shell: &str) -> ShellType {
    if shell.contains("bash") {
        ShellType::Bash
    } else if shell.contains("zsh") {
        ShellType::Zsh
    } else if shell.contains("fish") {
        ShellType::Fish
    } else {
        ShellType::Unknown
    }
}

#[test]
fn detection_agrees_with_std() {
    let pieces = ["ba", "sh", "z", "fi", "bash", "zsh", "fish", "/", "s", "h"];
    let mut numbers = Numbers(5);
    for _ in 0..4000 {
        let shell = numbers.text(&pieces, 6);
        assert_eq!(ShellType::detect(Some(&shell)), detect_with_std(&shell), "shell {:?}", shell);
    }
}

#[test]
fn integers_agree_with_std() {
    let pieces = ["+", "-", "0", "1", "9", "2147483647", "2147483648", " ", "a", ""];
    let mut numbers = Numbers(6);
    for _ in 0..4000 {
        let word = numbers.text(&pieces, 3);
        let args = vec![word.clone(), "name".to_string()];
        let expected = word.parse::<i32>().ok();
        let got = match hp::dispatch::recall_target(&args) {
            Ok(hp::dispatch::RecallTarget::ById { command_id, .. }) => Some(command_id),
            _ => None,
        };
        assert_eq!(got, expected, "word {:?}", word);
    }
}

#[test]
fn lines_of_the_picker_agree_with_std() {
    let pieces = ["ID:", "::", ":", " ", "7", "-", "x", "\t", "I", "\u{a0}"];
    let mut numbers = Numbers(7);
    for _ in 0..4000 {
        let line = numbers.text(&pieces, 8);
        let parts: Vec<&str> = line.split("::").collect();
        let expected = match (parts.first(), parts.get(1)) {
            (Some(id_part), Some(command_string)) => {
                let id = id_part.strip_prefix("ID:").and_then(|s| s.trim().parse::<i32>().ok());
                Some((id, command_string.trim().to_string()))
            }
            _ => None,
        };
        let got = hp::listing::parse_selection(&line).map(|s| (s.command_id, s.command_string));
        assert_eq!(got, expected, "line {:?}", line);
    }
}

#[test]
fn plain_templates_are_filled_in_at_once() {
    let names = ["A", "B", "C_1", "_x"];
    let texts = ["echo ", "-p ", ":80", " ", "x", "\u{e9}", ""];
    let values = ["1", "v w", "", "\u{e9}:", "A", "B"];
    let extras = ["-d", "x", ""];
    let mut numbers = Numbers(8);
    for _ in 0..4000 {
        let mut template = String::new();
        let mut parts: Vec<(bool, &str)> = Vec::new();
        for _ in 0..numbers.below(6) {
            if numbers.below(2) == 0 {
                let name = names[numbers.below(names.len())];
                template.push_str(&format!("{{{{{}}}}}", name));
                parts.push((true, name));
            } else {
                let text = texts[numbers.below(texts.len())];
                template.push_str(text);
                parts.push((false, text));
            }
        }
        let mut args: Vec<String> = Vec::new();
        let mut bound: Vec<(&str, &str)> = Vec::new();
        let mut passthrough: Vec<&str> = Vec::new();
        for _ in 0..numbers.below(5) {
            if numbers.below(3) == 0 {
                let extra = extras[numbers.below(extras.len())];
                args.push(extra.to_string());
                passthrough.push(extra);
            } else {
                let name = names[numbers.below(names.len())];
                let value = values[numbers.below(values.len())];
                args.push(format!("{}:{}", name, value));
                bound.retain(|(k, _)| *k != name);
                bound.push((name, value));
            }
        }
        let value_of = |name: &str| bound.iter().find(|(k, _)| *k == name).map(|(_, v)| *v);
        let unbound = parts.iter().find(|(is_name, text)| *is_name && value_of(text).is_none());
        let expected = match unbound {
            Some((_, name)) => Err(format!("{{{{{}}}}}", name)),
            None => {
                let mut line = String::new();
                for (is_name, text) in &parts {
                    line.push_str(if *is_name { value_of(text).unwrap() } else { text });
                }
                if !passthrough.is_empty() {
                    line.push(' ');
                    line.push_str(&passthrough.join(" "));
                }
                Ok(line)
            }
        };
        let got = resolve_arguments(&template, &args).map_err(|e| e.token);
        assert_eq!(got, expected, "template {:?}, arguments {:?}", template, args);
    }
}

#[test]
fn plain_commands_hold_no_placeholder_when_done() {
    let names = ["A", "B", "C_1", "_x"];
    let texts = ["echo ", "-p ", ":80", " ", "x", "\u{e9}", ""];
    let re = Regex::new(PLACEHOLDER).unwrap();
    let value = |name: &str| format!("<{}>", name.to_lowercase());
    let mut numbers = Numbers(9);
    for _ in 0..4000 {
        let mut command = String::new();
        let mut expected = String::new();
        for _ in 0..numbers.below(7) {
            if numbers.below(2) == 0 {
                let name = names[numbers.below(names.len())];
                command.push_str(&format!("{{{{{}}}}}", name));
                expected.push_str(&value(name));
            } else {
                let text = texts[numbers.below(texts.len())];
                command.push_str(text);
                expected.push_str(text);
            }
        }
        let mut resolver = SecretResolver::new(&command);
        let mut event = SecretEvent::Begin;
        let line = loop {
            let (next, action) = resolver.advance(event);
            resolver = next;
            event = match action {
                SecretAction::LookupEnv(name) => SecretEvent::EnvValue(Some(value(&name))),
                SecretAction::Done(line) => break line,
                other => panic!("unexpected action {:?}", other),
            };
        };
        assert_eq!(line, expected, "command {:?}", command);
        assert!(re.find(&line).is_none(), "command {:?}", command);
    }
}
