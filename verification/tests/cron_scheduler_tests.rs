use cron_manager::cron_entry::CronEntry;
use cron_manager::cron_parser::CronParser;
use cron_manager::scheduler::cron::CronScheduler;

#[test]
fn test_cron_scheduler_creation() {
    let scheduler = CronScheduler::new();
    assert_eq!(scheduler.backend_name(), "Cron");
}

#[test]
fn test_save_to_crontab_creates_secure_temp_file() {
    let _scheduler = CronScheduler::new();

    let entry = CronEntry::new(
        "test".to_string(),
        "0 0 * * *".to_string(),
        "echo test".to_string(),
    );
    let entries = vec![entry];

    let content = CronParser::serialize(&entries);

    assert!(content.contains("test"));
    assert!(content.contains("echo test"));
}

#[test]
fn test_parse_listing() {
    let scheduler = CronScheduler::new();
    let listed = scheduler.parse_listing(true, "# NAME: A\n0 0 * * * /bin/a\n");
    assert_eq!(listed.len(), 1);
    assert_eq!(listed[0].name, "A");

    // A failed listing command means no crontab exists: empty, not an error.
    let none = scheduler.parse_listing(false, "ignored");
    assert_eq!(none.len(), 0);
}

#[test]
fn test_render_for_install() {
    let scheduler = CronScheduler::new();
    let entries = vec![CronEntry::new(
        "A".to_string(),
        "0 0 * * *".to_string(),
        "/bin/a".to_string(),
    )];
    assert_eq!(
        scheduler.render_for_install(&entries),
        "# NAME: A\n0 0 * * * /bin/a\n"
    );
}
