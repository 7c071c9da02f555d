use cron_manager::scheduler::launchd::{CronField, LaunchdScheduler, ValidationError};

fn scheduler() -> LaunchdScheduler {
    LaunchdScheduler::new("/tmp/agents".to_string(), "/tmp/logs".to_string())
}

#[test]
fn test_trigger_contains_exactly_non_star_fields() {
    let s = scheduler();
    let t = s.schedule_to_trigger("30 14 * * 7").unwrap();
    assert_eq!(t.minute, Some(30));
    assert_eq!(t.hour, Some(14));
    assert_eq!(t.day, None);
    assert_eq!(t.month, None);
    // Weekday 7 denotes the same day as 0 and is normalized.
    assert_eq!(t.weekday, Some(0));

    let all_star = s.schedule_to_trigger("* * * * *").unwrap();
    assert_eq!(all_star.minute, None);
    assert_eq!(all_star.hour, None);
    assert_eq!(all_star.day, None);
    assert_eq!(all_star.month, None);
    assert_eq!(all_star.weekday, None);

    let full = s.schedule_to_trigger("5 4 3 2 1").unwrap();
    assert_eq!(full.minute, Some(5));
    assert_eq!(full.hour, Some(4));
    assert_eq!(full.day, Some(3));
    assert_eq!(full.month, Some(2));
    assert_eq!(full.weekday, Some(1));
}

#[test]
fn test_trigger_error_variants() {
    let s = scheduler();
    assert_eq!(
        s.schedule_to_trigger("@daily").unwrap_err(),
        ValidationError::SpecialSyntax
    );
    assert_eq!(
        s.schedule_to_trigger("0 0 * *").unwrap_err(),
        ValidationError::WrongFieldCount
    );
    assert_eq!(
        s.schedule_to_trigger("0-30 * * * *").unwrap_err(),
        ValidationError::RangeSyntax(CronField::Minute)
    );
    assert_eq!(
        s.schedule_to_trigger("* 1,2 * * *").unwrap_err(),
        ValidationError::ListSyntax(CronField::Hour)
    );
    assert_eq!(
        s.schedule_to_trigger("* * */2 * *").unwrap_err(),
        ValidationError::StepSyntax(CronField::Day)
    );
    assert_eq!(
        s.schedule_to_trigger("* * * abc *").unwrap_err(),
        ValidationError::InvalidValue(CronField::Month)
    );
    assert_eq!(
        s.schedule_to_trigger("* * * * 8").unwrap_err(),
        ValidationError::OutOfRange(CronField::Weekday)
    );
}

#[test]
fn test_command_error_variants() {
    let s = scheduler();
    assert_eq!(
        s.validate_command("   ").unwrap_err(),
        ValidationError::EmptyCommand
    );
    assert_eq!(
        s.validate_command("a | b").unwrap_err(),
        ValidationError::DangerousChar('|')
    );
    // The metacharacters are reported in a fixed order: `|` before `$`.
    assert_eq!(
        s.validate_command("echo $X | cat").unwrap_err(),
        ValidationError::DangerousChar('|')
    );
    assert_eq!(
        s.validate_command("echo `date`").unwrap_err(),
        ValidationError::DangerousChar('`')
    );
}

#[test]
fn test_error_messages() {
    let s = scheduler();
    assert_eq!(
        s.validate_command("").unwrap_err().message(),
        "Command cannot be empty"
    );
    assert_eq!(
        s.schedule_to_trigger("61 * * * *").unwrap_err().message(),
        "Value in minute field is out of range"
    );
}

#[test]
fn test_descriptor_roundtrip() {
    let s = scheduler();
    let entry = cron_manager::cron_entry::CronEntry::new(
        "My <Fancy> & 'Quoted' Job".to_string(),
        "5 3 * * *".to_string(),
        "/bin/echo it works".to_string(),
    );
    let plist = s.create_plist(&entry).unwrap();
    assert!(plist.contains("<key>StartCalendarInterval</key>"));
    assert!(plist.contains("&lt;Fancy&gt;"));

    let back = s.parse_plist_text(&plist);
    assert_eq!(back.name, "My <Fancy> & 'Quoted' Job");
    assert_eq!(back.schedule, "5 3 * * *");
    assert_eq!(back.command, "/bin/echo it works");
    assert!(back.enabled);
}

#[test]
fn test_extract_functions() {
    let s = scheduler();
    let content = "<key>Label</key>\n<string>com.cronmanager.X.abc</string>\n\
                   <key>ProgramArguments</key>\n<array>\n<string>/bin/sh</string>\n\
                   <string>-c</string>\n<string>echo hi</string>\n</array>\n\
                   <key>Minute</key>\n<integer>12</integer>\n";
    assert_eq!(
        s.extract_xml_value(content, "Label").unwrap(),
        "com.cronmanager.X.abc"
    );
    assert_eq!(s.extract_xml_value(content, "Missing"), None);
    assert_eq!(s.extract_command(content).unwrap(), "echo hi");
    assert_eq!(s.extract_calendar_value(content, "Minute").unwrap(), "12");
    assert_eq!(
        s.extract_calendar_to_cron(content).unwrap(),
        "12 * * * *"
    );
}

#[test]
fn test_plist_path_and_agent_file_names() {
    let s = scheduler();
    assert_eq!(s.plist_path("com.cronmanager.X.abc"), "/tmp/agents/com.cronmanager.X.abc.plist");
    assert_eq!(
        s.agent_label_of_file_name("com.cronmanager.X.abc.plist").unwrap(),
        "com.cronmanager.X.abc"
    );
    assert_eq!(s.agent_label_of_file_name("org.other.plist"), None);
    assert_eq!(s.agent_label_of_file_name("com.cronmanager.X.abc"), None);
}

#[test]
fn test_bootstrap_outcome() {
    let s = scheduler();
    assert!(s.bootstrap_outcome_ok(true, ""));
    assert!(s.bootstrap_outcome_ok(false, "Bootstrap failed: Already loaded"));
    assert!(s.bootstrap_outcome_ok(false, "error: service already loaded"));
    assert!(!s.bootstrap_outcome_ok(false, "no such file"));
}
