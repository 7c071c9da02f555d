use cron_manager::cron_entry::CronEntry;
use cron_manager::scheduler::launchd::LaunchdScheduler;

fn scheduler() -> LaunchdScheduler {
    LaunchdScheduler::new(
        "/tmp/agents".to_string(),
        "/tmp/logs".to_string(),
    )
}

#[test]
fn test_launchd_scheduler_backend_name() {
    let scheduler = scheduler();
    assert_eq!(scheduler.backend_name(), "Launchd");
}

#[test]
fn test_xml_escape_and_unescape_roundtrip() {
    let scheduler = scheduler();

    let test_strings = vec![
        "simple text",
        "text with & ampersand",
        "text with < less than",
        "text with > greater than",
        "text with 'apostrophe'",
        "text with \"quotes\"",
        "&<>\"'",
        "complex & text < with > all 'special' \"characters\"",
    ];

    for original in test_strings {
        let escaped = scheduler.escape_xml(original);
        let unescaped = scheduler.unescape_xml(&escaped);
        assert_eq!(original, unescaped, "Roundtrip failed for: {}", original);
    }
}

#[test]
fn test_escape_xml_exact() {
    let scheduler = scheduler();
    assert_eq!(scheduler.escape_xml("&"), "&amp;");
    assert_eq!(scheduler.escape_xml("<"), "&lt;");
    assert_eq!(scheduler.escape_xml(">"), "&gt;");
    assert_eq!(scheduler.escape_xml("'"), "&apos;");
    assert_eq!(scheduler.escape_xml("\""), "&quot;");
    assert_eq!(scheduler.escape_xml("a&b"), "a&amp;b");
}

#[test]
fn test_entry_to_label_uniqueness() {
    let scheduler = scheduler();

    let entry1 = CronEntry::new("My Task".to_string(), "0 0 * * *".to_string(), "echo".to_string());
    let entry2 = CronEntry::new("My/Task".to_string(), "0 0 * * *".to_string(), "echo".to_string());
    let entry3 = CronEntry::new("My_Task".to_string(), "0 0 * * *".to_string(), "echo".to_string());

    let label1 = scheduler.entry_to_label(&entry1);
    let label2 = scheduler.entry_to_label(&entry2);
    let label3 = scheduler.entry_to_label(&entry3);

    assert_ne!(label1, label2, "Labels should be unique for different names");
    assert_ne!(label1, label3, "Labels should be unique for different names");
    assert_ne!(label2, label3, "Labels should be unique for different names");

    assert!(label1.starts_with("com.cronmanager"));
    assert!(label2.starts_with("com.cronmanager"));
    assert!(label3.starts_with("com.cronmanager"));
}

#[test]
fn test_entry_to_label_consistency() {
    let scheduler = scheduler();

    let entry = CronEntry::new("Test Task".to_string(), "0 0 * * *".to_string(), "echo".to_string());

    let label1 = scheduler.entry_to_label(&entry);
    let label2 = scheduler.entry_to_label(&entry);

    assert_eq!(label1, label2, "Same entry should generate consistent labels");
}

#[test]
fn test_entry_to_label_format() {
    let scheduler = scheduler();
    let entry = CronEntry::new("My Task".to_string(), "0 0 * * *".to_string(), "echo".to_string());
    let label = scheduler.entry_to_label(&entry);

    // Prefix, sanitized fragment ("MyTask"), and a 36-character UUID.
    assert!(label.starts_with("com.cronmanager.MyTask."));
    assert_eq!(label.len(), "com.cronmanager.MyTask.".len() + 36);
    let uuid_part = &label["com.cronmanager.MyTask.".len()..];
    assert!(uuid_part
        .chars()
        .all(|c| c.is_ascii_hexdigit() || c == '-'));
    assert_eq!(uuid_part.matches('-').count(), 4);
}

#[test]
fn test_validate_command_empty() {
    let scheduler = scheduler();

    let result = scheduler.validate_command("");
    assert!(result.is_err(), "Empty command should fail validation");

    let result = scheduler.validate_command("   ");
    assert!(result.is_err(), "Whitespace-only command should fail validation");
}

#[test]
fn test_validate_command_simple() {
    let scheduler = scheduler();

    let result = scheduler.validate_command("echo hello");
    assert!(result.is_ok(), "Simple command should pass validation");

    let result = scheduler.validate_command("/usr/bin/python script.py");
    assert!(result.is_ok(), "Simple command with path should pass validation");
}

#[test]
fn test_validate_command_dangerous_chars() {
    let scheduler = scheduler();

    let result = scheduler.validate_command("echo hello | wc -l");
    assert!(result.is_err(), "Command with pipe should be rejected");

    let result = scheduler.validate_command("echo hello && rm -rf /");
    assert!(result.is_err(), "Command with && should be rejected");

    let result = scheduler.validate_command("echo hello; ls");
    assert!(result.is_err(), "Command with semicolon should be rejected");

    let result = scheduler.validate_command("echo `whoami`");
    assert!(result.is_err(), "Command with backticks should be rejected");

    let result = scheduler.validate_command("echo $HOME");
    assert!(result.is_err(), "Command with $ should be rejected");
}

#[test]
fn test_cron_to_calendar_valid_expressions() {
    let scheduler = scheduler();

    let result = scheduler.cron_to_calendar_interval("0 0 * * *");
    assert!(result.is_ok(), "Simple cron expression should be valid");

    let result = scheduler.cron_to_calendar_interval("30 14 * * *");
    assert!(result.is_ok(), "Cron with specific hour and minute should be valid");

    let result = scheduler.cron_to_calendar_interval("0 0 1 1 *");
    assert!(result.is_ok(), "Cron with specific day and month should be valid");
}

#[test]
fn test_cron_to_calendar_invalid_expressions() {
    let scheduler = scheduler();

    let result = scheduler.cron_to_calendar_interval("0-30 * * * *");
    assert!(result.is_err(), "Range expression should be rejected");
    assert!(result.unwrap_err().message().contains("range"));

    let result = scheduler.cron_to_calendar_interval("0,30 * * * *");
    assert!(result.is_err(), "List expression should be rejected");
    assert!(result.unwrap_err().message().contains("list"));

    let result = scheduler.cron_to_calendar_interval("*/15 * * * *");
    assert!(result.is_err(), "Step value expression should be rejected");
    assert!(result.unwrap_err().message().contains("step"));

    let result = scheduler.cron_to_calendar_interval("@daily");
    assert!(result.is_err(), "Special syntax should be rejected");
    assert!(result.unwrap_err().message().contains("special"));

    let result = scheduler.cron_to_calendar_interval("invalid * * * *");
    assert!(result.is_err(), "Invalid value should be rejected");

    let result = scheduler.cron_to_calendar_interval("0 0 * *");
    assert!(result.is_err(), "Incomplete expression should be rejected");
}

#[test]
fn test_cron_to_calendar_out_of_range() {
    let scheduler = scheduler();

    let result = scheduler.cron_to_calendar_interval("60 0 * * *");
    assert!(result.is_err(), "Minute 60 should be rejected (max 59)");
    assert!(result.unwrap_err().message().contains("out of range"));

    let result = scheduler.cron_to_calendar_interval("0 24 * * *");
    assert!(result.is_err(), "Hour 24 should be rejected (max 23)");

    let result = scheduler.cron_to_calendar_interval("0 0 0 * *");
    assert!(result.is_err(), "Day 0 should be rejected (min 1)");

    let result = scheduler.cron_to_calendar_interval("0 0 32 * *");
    assert!(result.is_err(), "Day 32 should be rejected (max 31)");

    let result = scheduler.cron_to_calendar_interval("0 0 * 0 *");
    assert!(result.is_err(), "Month 0 should be rejected (min 1)");

    let result = scheduler.cron_to_calendar_interval("0 0 * 13 *");
    assert!(result.is_err(), "Month 13 should be rejected (max 12)");

    let result = scheduler.cron_to_calendar_interval("0 0 * * 8");
    assert!(result.is_err(), "Weekday 8 should be rejected (max 7)");
}

#[test]
fn test_cron_to_calendar_minute_hour() {
    let scheduler = scheduler();

    let result = scheduler.cron_to_calendar_interval("30 14 * * *");
    assert!(result.is_ok());
    let calendar = result.unwrap();

    assert!(calendar.contains("<key>Minute</key>"));
    assert!(calendar.contains("<integer>30</integer>"));
    assert!(calendar.contains("<key>Hour</key>"));
    assert!(calendar.contains("<integer>14</integer>"));
}

#[test]
fn test_create_plist_validates_command() {
    let scheduler = scheduler();

    let entry = CronEntry::new("test".to_string(), "0 0 * * *".to_string(), "".to_string());
    let result = scheduler.create_plist(&entry);
    assert!(result.is_err(), "Empty command should fail");

    let entry = CronEntry::new("test".to_string(), "invalid".to_string(), "echo test".to_string());
    let result = scheduler.create_plist(&entry);
    assert!(result.is_err(), "Invalid cron expression should fail");
}
