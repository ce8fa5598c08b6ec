use hp::templating::{parse_arguments, resolve_arguments};

#[test]
fn test_resolve_no_args() {
    let template = "ls -la";
    let args = vec![];
    let result = resolve_arguments(template, &args).unwrap();
    assert_eq!(result, "ls -la");
}

#[test]
fn test_resolve_named_args() {
    let template = "ssh -i key.pem user@{{HOSTNAME}}";
    let args = vec!["HOSTNAME:mysite.com".to_string()];
    let result = resolve_arguments(template, &args).unwrap();
    assert_eq!(result, "ssh -i key.pem user@mysite.com");
}

#[test]
fn test_resolve_passthrough_args() {
    let template = "git log";
    let args = vec!["--oneline".to_string(), "--graph".to_string()];
    let result = resolve_arguments(template, &args).unwrap();
    assert_eq!(result, "git log --oneline --graph");
}

#[test]
fn test_resolve_mixed_args() {
    let template = "docker run -p {{PORT}}:80 my-image";
    let args = vec![
        "PORT:8080".to_string(),
        "-d".to_string(),
        "--name=my-container".to_string(),
    ];
    let result = resolve_arguments(template, &args).unwrap();
    assert_eq!(
        result,
        "docker run -p 8080:80 my-image -d --name=my-container"
    );
}

#[test]
fn test_resolve_missing_placeholder_fails() {
    let template = "echo {{MESSAGE}}";
    let args = vec![];
    let result = resolve_arguments(template, &args);
    assert!(result.is_err());
    assert_eq!(
        result.unwrap_err().message(),
        "The following placeholder was not provided: {{MESSAGE}}"
    );
}

#[test]
fn parse_arguments_splits_at_first_colon() {
    let args = vec!["URL:http://host:80".to_string(), "plain".to_string()];
    let parsed = parse_arguments(&args);
    assert_eq!(
        parsed.named_args(),
        &vec![("URL".to_string(), "http://host:80".to_string())]
    );
    assert_eq!(parsed.passthrough_args(), &vec!["plain".to_string()]);
}

#[test]
fn end_to_end_example() {
    let args = vec!["PORT:8080".to_string(), "-d".to_string()];
    let result = resolve_arguments("docker run -p {{PORT}}:80 img", &args).unwrap();
    assert_eq!(result, "docker run -p 8080:80 img -d");
}

#[test]
fn empty_template_without_arguments() {
    assert_eq!(resolve_arguments("", &[]).unwrap(), "");
}

#[test]
fn template_without_placeholders_is_unchanged() {
    for template in ["ls -la", "echo {}", "a {{ b }} c", "{{1x}}", "{{}}", "{x}} {{y}"] {
        assert_eq!(resolve_arguments(template, &[]).unwrap(), template);
    }
}

#[test]
fn single_binding_leaves_no_trailing_space() {
    let args = vec!["KEY:VALUE".to_string()];
    assert_eq!(resolve_arguments("a {{KEY}} b", &args).unwrap(), "a VALUE b");
    assert_eq!(resolve_arguments("{{KEY}}", &args).unwrap(), "VALUE");
    let args = vec!["A:1".to_string(), "B:2".to_string()];
    assert_eq!(resolve_arguments("{{B}}-{{A}}", &args).unwrap(), "2-1");
}

#[test]
fn every_occurrence_is_replaced() {
    let args = vec!["X:ab".to_string()];
    assert_eq!(resolve_arguments("{{X}}{{X}} {{X}}", &args).unwrap(), "abab ab");
}

#[test]
fn unbound_placeholder_is_named() {
    let args = vec!["A:1".to_string(), "-v".to_string()];
    let e = resolve_arguments("run {{A}} {{B}} {{C}}", &args).unwrap_err();
    assert_eq!(e.token, "{{B}}");
    assert_eq!(e.message(), "The following placeholder was not provided: {{B}}");
}

#[test]
fn unused_binding_is_no_error() {
    let args = vec!["UNUSED:1".to_string()];
    assert_eq!(resolve_arguments("ls", &args).unwrap(), "ls");
}

#[test]
fn later_binding_overwrites_earlier() {
    let args = vec!["K:1".to_string(), "J:x".to_string(), "K:2".to_string()];
    assert_eq!(resolve_arguments("{{K}}{{J}}", &args).unwrap(), "2x");
    let parsed = parse_arguments(&args);
    assert_eq!(
        parsed.named_args(),
        &vec![("K".to_string(), "2".to_string()), ("J".to_string(), "x".to_string())]
    );
}

#[test]
fn passthrough_keeps_order_among_bindings() {
    let args = vec![
        "A:1".to_string(),
        "-x".to_string(),
        "B:2".to_string(),
        "C:3".to_string(),
        "y".to_string(),
        "".to_string(),
        "z z".to_string(),
    ];
    assert_eq!(resolve_arguments("cmd", &args).unwrap(), "cmd -x y  z z");
    assert_eq!(
        parse_arguments(&args).passthrough_args(),
        &vec!["-x".to_string(), "y".to_string(), "".to_string(), "z z".to_string()]
    );
}

#[test]
fn bindings_are_substituted_in_order_of_first_key() {
    let args = vec!["A:{{B}}".to_string(), "B:x".to_string()];
    assert_eq!(resolve_arguments("{{A}}", &args).unwrap(), "x");
    let args = vec!["B:x".to_string(), "A:{{B}}".to_string()];
    let e = resolve_arguments("{{A}}", &args).unwrap_err();
    assert_eq!(e.token, "{{B}}");
}

#[test]
fn key_with_braces_can_take_a_placeholder_away() {
    let args = vec!["X}}:v".to_string()];
    assert_eq!(resolve_arguments("{{X}}}}", &args).unwrap(), "v");
}

#[test]
fn empty_key_and_empty_value() {
    let args = vec![":v".to_string(), "K:".to_string()];
    assert_eq!(resolve_arguments("a{{}}b{{K}}c", &args).unwrap(), "avbc");
}

#[test]
fn placeholder_in_passthrough_is_not_checked() {
    let args = vec!["{{LATER}}".to_string()];
    assert_eq!(resolve_arguments("echo", &args).unwrap(), "echo {{LATER}}");
}

#[test]
fn text_beyond_ascii() {
    let args = vec!["N:\u{e9}t\u{e9}".to_string(), "\u{1f600}".to_string()];
    assert_eq!(
        resolve_arguments("caf\u{e9} {{N}} \u{4e2d}", &args).unwrap(),
        "caf\u{e9} \u{e9}t\u{e9} \u{4e2d} \u{1f600}"
    );
}

#[test]
fn stray_braces_can_join_into_a_placeholder() {
    let e = resolve_arguments("{{{A}}", &["A:{B}}".to_string()]).unwrap_err();
    assert_eq!(e.token, "{{B}}");
    let e = resolve_arguments("{{{{A}}B}}", &["A:".to_string()]).unwrap_err();
    assert_eq!(e.token, "{{B}}");
}

#[test]
fn key_with_stray_braces_can_cover_a_placeholder() {
    assert_eq!(resolve_arguments("{{{{A}}", &["{{A:y".to_string()]).unwrap(), "y");
}
