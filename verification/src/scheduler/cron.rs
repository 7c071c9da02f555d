//! The shell-crontab backend: entries are synchronized with the OS
//! crontab through the `crontab` command-line tool.  This module holds
//! the backend's logic — turning a listing into entries and entries into
//! the text to install; invoking the tool itself is the caller's job.

use crate::cron_entry::{models_of, CronEntry};
use crate::cron_parser::{parse_spec, serialize_spec, CronParser};
use vstd::prelude::*;

verus! {

/// The crontab-based scheduler backend.
pub struct CronScheduler;

impl CronScheduler {
    pub fn new() -> (r: Self) {
        Self
    }

    /// The display name of this backend.
    pub fn backend_name(&self) -> (r: &'static str)
        ensures
            r@ == "Cron"@,
    {
        "Cron"
    }

    /// The entries of a crontab listing.  A listing command that failed
    /// means no crontab is installed yet, which is an empty list, not an
    /// error.
    pub fn parse_listing(&self, listed: bool, output: &str) -> (r: Vec<CronEntry>)
        ensures
            listed ==> models_of(r@) == parse_spec(output@),
            !listed ==> r@.len() == 0,
    {
        if listed {
            CronParser::parse(output)
        } else {
            Vec::new()
        }
    }

    /// The exact text to hand to the crontab-install command.
    pub fn render_for_install(&self, entries: &Vec<CronEntry>) -> (r: String)
        ensures
            r@ == serialize_spec(models_of(entries@)),
    {
        CronParser::serialize(entries)
    }
}

} // verus!
