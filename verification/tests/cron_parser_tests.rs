use cron_manager::cron_entry::CronEntry;
use cron_manager::cron_parser::CronParser;

#[test]
fn test_parse_simple_crontab() {
    let content = r#"# NAME: Daily Backup
0 2 * * * /bin/backup.sh

# NAME: Hourly Check
0 * * * * /bin/hourly.sh
"#;

    let entries = CronParser::parse(content);
    assert_eq!(entries.len(), 2);
    assert_eq!(entries[0].name, "Daily Backup");
    assert_eq!(entries[0].schedule, "0 2 * * *");
    assert_eq!(entries[0].command, "/bin/backup.sh");
    assert!(entries[0].enabled);
}

#[test]
fn test_parse_disabled_entry() {
    let content = r#"# NAME: Disabled Job
# 0 2 * * * /bin/disabled.sh
"#;

    let entries = CronParser::parse(content);
    assert_eq!(entries.len(), 1);
    assert!(!entries[0].enabled);
}

#[test]
fn test_serialize() {
    let entries = vec![CronEntry::new(
        "Test".to_string(),
        "0 2 * * *".to_string(),
        "/bin/test".to_string(),
    )];

    let output = CronParser::serialize(&entries);
    assert!(output.contains("# NAME: Test"));
    assert!(output.contains("0 2 * * * /bin/test"));
}

#[test]
fn test_parse_unnamed_entries() {
    let entries = CronParser::parse("0 0 * * * /bin/a\n30 6 * * 1 /bin/b --flag x\n");
    assert_eq!(entries.len(), 2);
    assert_eq!(entries[0].name, "Unnamed (1)");
    assert_eq!(entries[0].schedule, "0 0 * * *");
    assert_eq!(entries[0].command, "/bin/a");
    assert_eq!(entries[1].name, "Unnamed (2)");
    assert_eq!(entries[1].command, "/bin/b --flag x");
}

#[test]
fn test_parse_garbage_and_empty() {
    assert_eq!(CronParser::parse("").len(), 0);
    assert_eq!(CronParser::parse("not a cron line\n# a comment\n\n").len(), 0);
}

#[test]
fn test_parse_drops_short_lines() {
    // A cron line with fewer than six tokens produces no entry.
    let entries = CronParser::parse("# NAME: Broken\n0 2 * * *\n");
    assert_eq!(entries.len(), 0);
}

#[test]
fn test_parse_serialize_roundtrip() {
    let mut disabled = CronEntry::new(
        "Disabled Job".to_string(),
        "15 3 * * 6".to_string(),
        "/usr/local/bin/sync --all".to_string(),
    );
    disabled.enabled = false;
    let entries = vec![
        CronEntry::new(
            "Daily Backup".to_string(),
            "0 2 * * *".to_string(),
            "/bin/backup.sh".to_string(),
        ),
        disabled,
        CronEntry::new(
            "Spaced Command".to_string(),
            "* * * * *".to_string(),
            "echo hello world".to_string(),
        ),
    ];

    let text = CronParser::serialize(&entries);
    let parsed = CronParser::parse(&text);
    assert_eq!(parsed.len(), entries.len());
    for (a, b) in entries.iter().zip(parsed.iter()) {
        assert_eq!(a.name, b.name);
        assert_eq!(a.schedule, b.schedule);
        assert_eq!(a.command, b.command);
        assert_eq!(a.enabled, b.enabled);
    }
}

#[test]
fn test_parse_cron_line_split() {
    let (schedule, command) = CronParser::parse_cron_line("0 2 * * * /bin/x a b").unwrap();
    assert_eq!(schedule, "0 2 * * *");
    assert_eq!(command, "/bin/x a b");
    assert!(CronParser::parse_cron_line("0 2 * * *").is_none());
}
