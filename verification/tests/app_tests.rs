use cron_manager::app::{App, InputMode};
use cron_manager::cron_entry::CronEntry;
use cron_manager::scheduler::file::FileScheduler;
use cron_manager::scheduler::{create_scheduler, SchedulerKind};

fn two_entries() -> Vec<CronEntry> {
    vec![
        CronEntry::new("A".to_string(), "0 1 * * *".to_string(), "/bin/a".to_string()),
        CronEntry::new("B".to_string(), "0 2 * * *".to_string(), "/bin/b".to_string()),
    ]
}

#[test]
fn test_selection_moves() {
    let mut app = App::new(two_entries());
    assert_eq!(app.selected_index, 0);
    app.move_selection_up();
    assert_eq!(app.selected_index, 0);
    app.move_selection_down();
    assert_eq!(app.selected_index, 1);
    app.move_selection_down();
    assert_eq!(app.selected_index, 1);
    app.move_selection_up();
    assert_eq!(app.selected_index, 0);
}

#[test]
fn test_add_entry_flow() {
    let mut app = App::new(Vec::new());
    app.start_add_entry();
    assert_eq!(app.input_mode, InputMode::AddingName);
    for c in "Backup".chars() {
        app.handle_input_char(c);
    }
    app.confirm_input();
    assert_eq!(app.input_mode, InputMode::AddingSchedule);
    for c in "0 2 * * *".chars() {
        app.handle_input_char(c);
    }
    app.confirm_input();
    assert_eq!(app.input_mode, InputMode::AddingCommand);
    for c in "/bin/backup.sh".chars() {
        app.handle_input_char(c);
    }
    app.confirm_input();
    assert_eq!(app.input_mode, InputMode::Normal);
    assert!(app.dirty);
    assert_eq!(app.entries.len(), 1);
    assert_eq!(app.entries[0].name, "Backup");
    assert_eq!(app.entries[0].schedule, "0 2 * * *");
    assert_eq!(app.entries[0].command, "/bin/backup.sh");
    assert!(app.entries[0].enabled);
    assert_eq!(app.message.as_deref(), Some("Entry added successfully"));
}

#[test]
fn test_delete_and_toggle() {
    let mut app = App::new(two_entries());
    app.move_selection_down();
    app.toggle_enabled();
    assert!(!app.entries[1].enabled);
    assert!(app.dirty);
    app.mark_saved();
    assert!(!app.dirty);

    app.delete_entry();
    assert_eq!(app.entries.len(), 1);
    assert_eq!(app.selected_index, 0);
    assert!(app.dirty);
}

#[test]
fn test_backspace_and_cancel() {
    let mut app = App::new(Vec::new());
    app.start_add_entry();
    app.handle_input_char('a');
    app.handle_input_char('b');
    app.handle_input_backspace();
    assert_eq!(app.input_buffer, "a");
    app.cancel_input();
    assert_eq!(app.input_mode, InputMode::Normal);
    assert_eq!(app.input_buffer, "");
    assert_eq!(app.message.as_deref(), Some("Cancelled"));
}

#[test]
fn test_create_scheduler_selection() {
    assert_eq!(create_scheduler(false, true), SchedulerKind::File);
    assert_eq!(create_scheduler(false, false), SchedulerKind::File);
    assert_eq!(create_scheduler(true, true), SchedulerKind::CalendarJob);
    assert_eq!(create_scheduler(true, false), SchedulerKind::ShellCron);
    assert_eq!(SchedulerKind::File.backend_name(), "File");
}

#[test]
fn test_file_scheduler_bootstrap() {
    let fs = FileScheduler::new("/tmp/file".to_string());
    assert_eq!(fs.backend_name(), "File");
    assert_eq!(fs.bootstrap_content(&Vec::new()), None);
    let seeded = fs
        .bootstrap_content(&vec![CronEntry::new(
            "A".to_string(),
            "0 1 * * *".to_string(),
            "/bin/a".to_string(),
        )])
        .unwrap();
    assert_eq!(seeded, "# NAME: A\n0 1 * * * /bin/a\n");
    let parsed = fs.parse_content(&seeded);
    assert_eq!(parsed.len(), 1);
    assert_eq!(parsed[0].name, "A");
}
