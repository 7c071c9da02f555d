//! Scheduler backends and the backend selector.
//!
//! Dispatch is a closed choice among three backends, made once at
//! construction time: the plain-file backend, the shell-crontab backend,
//! and the launchd calendar-job backend.

use vstd::prelude::*;

pub mod commit;

pub mod cron;

pub mod file;

pub mod launchd;

verus! {

/// The three scheduler backends.
#[derive(Clone, Copy, Debug, PartialEq, Eq, Structural)]
pub enum SchedulerKind {
    /// Entries persisted in a plain text file.
    File,
    /// Entries synchronized with the OS crontab via the `crontab` tool.
    ShellCron,
    /// Entries synchronized with per-job launchd calendar descriptors.
    CalendarJob,
}

/// Chooses the backend: the file backend unless the system scheduler is
/// requested, in which case the calendar-job backend on a platform that
/// has one and the shell-crontab backend otherwise.
pub fn create_scheduler(use_system: bool, platform_has_calendar_jobs: bool) -> (r: SchedulerKind)
    ensures
        r == (if !use_system {
            SchedulerKind::File
        } else if platform_has_calendar_jobs {
            SchedulerKind::CalendarJob
        } else {
            SchedulerKind::ShellCron
        }),
{
    if !use_system {
        SchedulerKind::File
    } else if platform_has_calendar_jobs {
        SchedulerKind::CalendarJob
    } else {
        SchedulerKind::ShellCron
    }
}

impl SchedulerKind {
    /// The display name of the backend.
    pub fn backend_name(&self) -> (r: &'static str)
        ensures
            self is File ==> r@ == "File"@,
            self is ShellCron ==> r@ == "Cron"@,
            self is CalendarJob ==> r@ == "Launchd"@,
    {
        match self {
            SchedulerKind::File => "File",
            SchedulerKind::ShellCron => "Cron",
            SchedulerKind::CalendarJob => "Launchd",
        }
    }
}

} // verus!
