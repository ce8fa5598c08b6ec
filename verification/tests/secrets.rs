use hp::secrets::{Phase, SecretAction, SecretEvent, SecretResolver};

/// Drives a resolution to its end, answering from `env` and then from
/// `entered`, and returns the command line with the names that were looked up
/// and prompted for.
fn drive(
    command: &str,
    env: &[(&str, &str)],
    entered: &[(&str, &str)],
) -> (Option<String>, Vec<String>, Vec<String>) {
    let mut looked_up = Vec::new();
    let mut prompted = Vec::new();
    let mut resolver = SecretResolver::new(command);
    let mut event = SecretEvent::Begin;
    for _ in 0..1000 {
        let (next, action) = resolver.advance(event);
        resolver = next;
        match action {
            SecretAction::LookupEnv(name) => {
                let found = env.iter().find(|(k, _)| *k == name).map(|(_, v)| v.to_string());
                looked_up.push(name);
                event = SecretEvent::EnvValue(found);
            }
            SecretAction::Prompt { name, message } => {
                assert_eq!(message, format!("Enter value for secret '{}': ", name));
                let found = entered.iter().find(|(k, _)| *k == name).map(|(_, v)| v.to_string());
                prompted.push(name);
                event = match found {
                    Some(value) => SecretEvent::Entered(value),
                    None => SecretEvent::PromptFailed("no terminal".to_string()),
                };
            }
            SecretAction::Done(line) => {
                assert_eq!(resolver.phase(), Phase::Finished);
                return (Some(line), looked_up, prompted);
            }
            SecretAction::Failed(failure) => {
                assert_eq!(failure.cause, "no terminal");
                assert_eq!(failure.message(), "Failed to read secret from prompt");
                assert_eq!(resolver.phase(), Phase::Finished);
                return (None, looked_up, prompted);
            }
            SecretAction::OutOfTurn => panic!("the resolver refused an answer to its own request"),
        }
    }
    panic!("the resolution did not end");
}

#[test]
fn command_without_placeholders_is_done_at_once() {
    let (line, looked_up, prompted) = drive("ls -la", &[], &[]);
    assert_eq!(line, Some("ls -la".to_string()));
    assert!(looked_up.is_empty());
    assert!(prompted.is_empty());
}

#[test]
fn secret_from_environment() {
    let (line, looked_up, prompted) = drive("curl -H {{TOKEN}} host", &[("TOKEN", "abc")], &[]);
    assert_eq!(line, Some("curl -H abc host".to_string()));
    assert_eq!(looked_up, vec!["TOKEN"]);
    assert!(prompted.is_empty());
}

#[test]
fn secret_from_prompt_when_environment_lacks_it() {
    let (line, looked_up, prompted) = drive("login {{USER}}", &[], &[("USER", "ann")]);
    assert_eq!(line, Some("login ann".to_string()));
    assert_eq!(looked_up, vec!["USER"]);
    assert_eq!(prompted, vec!["USER"]);
}

#[test]
fn name_twice_is_asked_once_and_filled_twice() {
    let (line, looked_up, prompted) =
        drive("echo {{KEY}} and {{KEY}} again", &[("KEY", "v1")], &[]);
    assert_eq!(line, Some("echo v1 and v1 again".to_string()));
    assert_eq!(looked_up, vec!["KEY"]);
    assert!(prompted.is_empty());
}

#[test]
fn name_twice_is_prompted_once() {
    let (line, looked_up, prompted) = drive("{{P}}:{{P}}", &[], &[("P", "x")]);
    assert_eq!(line, Some("x:x".to_string()));
    assert_eq!(looked_up, vec!["P"]);
    assert_eq!(prompted, vec!["P"]);
}

#[test]
fn names_are_asked_in_order_of_first_occurrence() {
    let (line, looked_up, prompted) = drive(
        "{{B}} {{A}} {{B}} {{C}} {{A}}",
        &[("A", "1"), ("C", "3")],
        &[("B", "2")],
    );
    assert_eq!(line, Some("2 1 2 3 1".to_string()));
    assert_eq!(looked_up, vec!["B", "A", "C"]);
    assert_eq!(prompted, vec!["B"]);
}

#[test]
fn empty_value_is_accepted() {
    let (line, _, prompted) = drive("a{{E}}b", &[], &[("E", "")]);
    assert_eq!(line, Some("ab".to_string()));
    assert_eq!(prompted, vec!["E"]);
}

#[test]
fn unreadable_prompt_fails() {
    let (line, looked_up, prompted) = drive("{{A}} {{B}}", &[("A", "1")], &[]);
    assert_eq!(line, None);
    assert_eq!(looked_up, vec!["A", "B"]);
    assert_eq!(prompted, vec!["B"]);
}

#[test]
fn only_well_formed_placeholders_are_secrets() {
    let (line, looked_up, _) = drive(
        "{{1X}} {{}} {{ A }} {A} {{_ok9}} {{{{Z}}",
        &[("_ok9", "v"), ("Z", "w")],
        &[],
    );
    assert_eq!(line, Some("{{1X}} {{}} {{ A }} {A} v {{w".to_string()));
    assert_eq!(looked_up, vec!["_ok9", "Z"]);
}

#[test]
fn value_is_not_searched_for_new_names() {
    let (line, looked_up, _) = drive("{{A}}", &[("A", "{{B}}"), ("B", "no")], &[]);
    assert_eq!(line, Some("{{B}}".to_string()));
    assert_eq!(looked_up, vec!["A"]);
}

#[test]
fn later_value_fills_what_an_earlier_value_brought() {
    let (line, looked_up, _) = drive("{{A}} {{B}}", &[("A", "{{B}}"), ("B", "b")], &[]);
    assert_eq!(line, Some("b b".to_string()));
    assert_eq!(looked_up, vec!["A", "B"]);
}

#[test]
fn events_out_of_turn_change_nothing() {
    let resolver = SecretResolver::new("{{A}}");
    assert_eq!(resolver.phase(), Phase::Ready);
    let (resolver, action) = resolver.advance(SecretEvent::Entered("x".to_string()));
    assert!(matches!(action, SecretAction::OutOfTurn));
    assert_eq!(resolver.phase(), Phase::Ready);
    let (resolver, action) = resolver.advance(SecretEvent::Begin);
    assert!(matches!(action, SecretAction::LookupEnv(ref n) if n == "A"));
    assert_eq!(resolver.phase(), Phase::AwaitingEnv);
    let (resolver, action) = resolver.advance(SecretEvent::Begin);
    assert!(matches!(action, SecretAction::OutOfTurn));
    let (resolver, action) = resolver.advance(SecretEvent::EnvValue(None));
    assert!(matches!(action, SecretAction::Prompt { .. }));
    assert_eq!(resolver.phase(), Phase::AwaitingPrompt);
    let (resolver, action) = resolver.advance(SecretEvent::EnvValue(Some("v".to_string())));
    assert!(matches!(action, SecretAction::OutOfTurn));
    let (resolver, action) = resolver.advance(SecretEvent::Entered("v".to_string()));
    assert!(matches!(action, SecretAction::Done(ref l) if l == "v"));
    let (resolver, action) = resolver.advance(SecretEvent::Begin);
    assert!(matches!(action, SecretAction::OutOfTurn));
    assert_eq!(resolver.phase(), Phase::Finished);
}

#[test]
fn stray_braces_can_join_into_a_placeholder_of_a_secret() {
    let (line, looked_up, _) = drive("{{A}}{B}}", &[("A", "{")], &[]);
    assert_eq!(line, Some("{{B}}".to_string()));
    assert_eq!(looked_up, vec!["A"]);
    let (line, looked_up, _) = drive("{{{S}}-{{S}}", &[("S", "{S}}")], &[]);
    assert_eq!(line, Some("{S}}-{S}}".to_string()));
    assert_eq!(looked_up, vec!["S"]);
}
