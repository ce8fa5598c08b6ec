use hp::api::{Command, Timestamp};
use hp::tables::{
    here_header, here_row, info_header, info_labels, info_values, last_used_cell, list_header,
    list_row, search_header, search_row, suggestion_header, suggestion_row, time_cell, written_cell,
};

fn sample() -> Command {
    Command {
        id: 7,
        command_string: "cargo build".to_string(),
        name: "build".to_string(),
        namespace: "rust".to_string(),
        user: Some("ann".to_string()),
        cwd: None,
        hostname: Some("box".to_string()),
        scope: "personal".to_string(),
        created_at: Timestamp { seconds: 1431648000, nanos: 0 },
        last_used_at: Some(Timestamp { seconds: 1700000000, nanos: 999_999_999 }),
        use_count: 3,
        is_new: false,
    }
}

fn unused() -> Command {
    Command { user: None, hostname: None, last_used_at: None, use_count: 0, ..sample() }
}

#[test]
fn time_is_written_in_utc() {
    assert_eq!(time_cell(&Timestamp { seconds: 0, nanos: 0 }), "1970-01-01 00:00:00");
    assert_eq!(time_cell(&Timestamp { seconds: 1431648000, nanos: 0 }), "2015-05-15 00:00:00");
    assert_eq!(
        time_cell(&Timestamp { seconds: 1700000000, nanos: 999_999_999 }),
        "2023-11-14 22:13:20"
    );
    assert_eq!(time_cell(&Timestamp { seconds: -1, nanos: 0 }), "1969-12-31 23:59:59");
}

#[test]
fn time_out_of_range_is_empty() {
    assert_eq!(time_cell(&Timestamp { seconds: i64::MAX, nanos: 0 }), "");
    assert_eq!(time_cell(&Timestamp { seconds: 0, nanos: u32::MAX }), "");
}

#[test]
fn cell_of_what_was_written() {
    assert_eq!(written_cell(Some("x".to_string())), "x");
    assert_eq!(written_cell(None), "");
}

#[test]
fn last_use_or_never() {
    assert_eq!(last_used_cell(&None, "Never"), "Never");
    assert_eq!(last_used_cell(&None, ""), "");
    assert_eq!(
        last_used_cell(&Some(Timestamp { seconds: 60, nanos: 0 }), "Never"),
        "1970-01-01 00:01:00"
    );
}

#[test]
fn search_table() {
    assert_eq!(
        search_header(),
        vec![
            "ID", "Namespace", "Name", "User", "Hostname", "Scope", "Directory", "Created",
            "Last Used", "Uses", "Command"
        ]
    );
    assert_eq!(
        search_row(&sample()),
        vec![
            "7",
            "rust",
            "build",
            "ann",
            "box",
            "personal",
            "",
            "2015-05-15 00:00:00",
            "2023-11-14 22:13:20",
            "3",
            "cargo build"
        ]
    );
    assert_eq!(
        search_row(&unused()),
        vec![
            "7",
            "rust",
            "build",
            "",
            "",
            "personal",
            "",
            "2015-05-15 00:00:00",
            "",
            "0",
            "cargo build"
        ]
    );
}

#[test]
fn list_table() {
    assert_eq!(
        list_header(),
        vec![
            "ID", "Namespace", "Name", "Hostname", "Scope", "Directory", "Created", "Last Used",
            "Uses", "Command"
        ]
    );
    assert_eq!(
        list_row(&sample()),
        vec![
            "7",
            "rust",
            "build",
            "box",
            "personal",
            "",
            "2015-05-15 00:00:00",
            "2023-11-14 22:13:20",
            "3",
            "cargo build"
        ]
    );
}

#[test]
fn info_table() {
    assert_eq!(info_header(), vec!["Property", "Value"]);
    assert_eq!(
        info_labels(),
        vec![
            "Command ID", "Name", "Namespace", "Scope", "User", "Hostname", "Directory",
            "Created", "Last Used", "Use Count", "Command"
        ]
    );
    assert_eq!(
        info_values(&unused()),
        vec![
            "7",
            "build",
            "rust",
            "personal",
            "N/A",
            "N/A",
            "N/A",
            "2015-05-15 00:00:00",
            "Never",
            "0",
            "cargo build"
        ]
    );
    assert_eq!(info_values(&sample())[4], "ann");
    assert_eq!(info_values(&sample())[8], "2023-11-14 22:13:20");
}

#[test]
fn here_and_suggestion_tables() {
    assert_eq!(here_header(), vec!["ID", "Name", "Uses", "Last Used", "Command"]);
    assert_eq!(
        here_row(&sample()),
        vec!["7", "build", "3", "2023-11-14 22:13:20", "cargo build"]
    );
    assert_eq!(here_row(&unused()), vec!["7", "build", "0", "Never", "cargo build"]);
    assert_eq!(
        suggestion_header(),
        vec!["ID", "Namespace", "Name", "Uses", "Last Used", "Command"]
    );
    assert_eq!(
        suggestion_row(&unused()),
        vec!["7", "rust", "build", "0", "Never", "cargo build"]
    );
}
