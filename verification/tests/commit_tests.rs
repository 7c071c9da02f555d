use cron_manager::cron_entry::CronEntry;
use cron_manager::scheduler::commit::{decide_outcome, majority_failed, RegisterTally, SaveOutcome};
use cron_manager::scheduler::launchd::LaunchdScheduler;

fn scheduler() -> LaunchdScheduler {
    LaunchdScheduler::new("/tmp/agents".to_string(), "/tmp/logs".to_string())
}

fn four_entries() -> Vec<CronEntry> {
    vec![
        CronEntry::new("A".to_string(), "0 1 * * *".to_string(), "/bin/a".to_string()),
        CronEntry::new("B".to_string(), "0 2 * * *".to_string(), "/bin/b".to_string()),
        CronEntry::new("C".to_string(), "0 3 * * *".to_string(), "/bin/c".to_string()),
        CronEntry::new("D".to_string(), "0 4 * * *".to_string(), "/bin/d".to_string()),
    ]
}

#[test]
fn test_plan_save_stages_enabled_entries() {
    let s = scheduler();
    let mut entries = four_entries();
    entries[2].enabled = false;
    let plan = s.plan_save(&entries, &Vec::new()).unwrap();

    // One staged descriptor per enabled entry, in order.
    assert_eq!(plan.staged.len(), 3);
    assert_eq!(plan.staged[0].label, s.entry_to_label(&entries[0]));
    assert_eq!(plan.staged[1].label, s.entry_to_label(&entries[1]));
    assert_eq!(plan.staged[2].label, s.entry_to_label(&entries[3]));
    for job in &plan.staged {
        assert_eq!(job.live_path, format!("/tmp/agents/{}.plist", job.label));
        assert_eq!(job.staged_path, format!("{}.new", job.live_path));
        assert!(job.content.contains(&job.label));
    }
    assert_eq!(plan.backups.len(), 0);
}

#[test]
fn test_plan_save_validation_aborts_before_any_action() {
    let s = scheduler();
    let mut entries = four_entries();
    entries[1].command = "rm | oops".to_string();
    assert!(s.plan_save(&entries, &Vec::new()).is_err());

    // A disabled entry is never validated: it is not staged.
    let mut entries2 = four_entries();
    entries2[1].command = "rm | oops".to_string();
    entries2[1].enabled = false;
    assert!(s.plan_save(&entries2, &Vec::new()).is_ok());
}

#[test]
fn test_plan_save_backs_up_existing_labels() {
    let s = scheduler();
    let existing = vec![
        "com.cronmanager.Old1.u1".to_string(),
        "com.cronmanager.Old2.u2".to_string(),
    ];
    let plan = s.plan_save(&four_entries(), &existing).unwrap();
    assert_eq!(plan.backups.len(), 2);
    assert_eq!(plan.backups[0].label, "com.cronmanager.Old1.u1");
    assert_eq!(
        plan.backups[0].live_path,
        "/tmp/agents/com.cronmanager.Old1.u1.plist"
    );
    assert_eq!(
        plan.backups[0].backup_path,
        "/tmp/agents/com.cronmanager.Old1.u1.plist.backup"
    );
}

#[test]
fn test_majority_failure_rolls_back() {
    // Three of four registrations failing is a majority: roll back; the
    // backups of the four previously live descriptors are what restores
    // the prior state.
    let s = scheduler();
    let existing = vec![
        "com.cronmanager.P1.u1".to_string(),
        "com.cronmanager.P2.u2".to_string(),
        "com.cronmanager.P3.u3".to_string(),
        "com.cronmanager.P4.u4".to_string(),
    ];
    let plan = s.plan_save(&four_entries(), &existing).unwrap();
    assert_eq!(plan.staged.len(), 4);
    assert_eq!(plan.backups.len(), 4);

    let mut tally = RegisterTally::new();
    tally.record(false);
    tally.record(false);
    tally.record(false);
    tally.record(true);
    assert_eq!(tally.outcome(), SaveOutcome::RolledBack { failures: 3 });

    // One of four failing is a minority: the save stands, with a warning.
    let mut tally2 = RegisterTally::new();
    tally2.record(false);
    tally2.record(true);
    tally2.record(true);
    tally2.record(true);
    assert_eq!(tally2.outcome(), SaveOutcome::Committed { failures: 1 });
}

#[test]
fn test_majority_threshold_edges() {
    assert!(!majority_failed(0, 0));
    assert!(!majority_failed(1, 2));
    assert!(majority_failed(2, 2));
    assert!(!majority_failed(2, 4));
    assert!(majority_failed(3, 4));
    assert!(!majority_failed(2, 5));
    assert!(majority_failed(3, 5));
    assert_eq!(decide_outcome(0, 0), SaveOutcome::Committed { failures: 0 });
}
