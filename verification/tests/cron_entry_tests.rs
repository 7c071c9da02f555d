use cron_manager::cron_entry::CronEntry;

#[test]
fn test_cron_entry_creation() {
    let entry = CronEntry::new(
        "Test Job".to_string(),
        "0 2 * * *".to_string(),
        "/bin/backup.sh".to_string(),
    );
    assert_eq!(entry.name, "Test Job");
    assert_eq!(entry.schedule, "0 2 * * *");
    assert!(entry.enabled);
}

#[test]
fn test_validate_schedule() {
    let entry = CronEntry::new(
        "Valid".to_string(),
        "0 2 * * *".to_string(),
        "/bin/test".to_string(),
    );
    assert!(entry.validate_schedule());

    let invalid = CronEntry::new(
        "Invalid".to_string(),
        "invalid cron".to_string(),
        "/bin/test".to_string(),
    );
    assert!(!invalid.validate_schedule());
}

#[test]
fn test_validate_schedule_extended_syntax() {
    let ranges = CronEntry::new(
        "Ranges".to_string(),
        "0-30 */2 1,15 1-6/2 *".to_string(),
        "/bin/test".to_string(),
    );
    assert!(ranges.validate_schedule());

    let out_of_domain = CronEntry::new(
        "Bad".to_string(),
        "61 0 * * *".to_string(),
        "/bin/test".to_string(),
    );
    assert!(!out_of_domain.validate_schedule());

    let backwards_range = CronEntry::new(
        "Backwards".to_string(),
        "30-10 * * * *".to_string(),
        "/bin/test".to_string(),
    );
    assert!(!backwards_range.validate_schedule());
}

#[test]
fn test_to_crontab_string() {
    let mut entry = CronEntry::new(
        "Job".to_string(),
        "0 2 * * *".to_string(),
        "/bin/x".to_string(),
    );
    assert_eq!(entry.to_crontab_string(), "# NAME: Job\n0 2 * * * /bin/x");
    entry.enabled = false;
    assert_eq!(entry.to_crontab_string(), "# NAME: Job\n# 0 2 * * * /bin/x");
}
