//! The file backend: entries persisted as plain text at a fixed path.
//! This module holds the backend's logic — the codec and the first-run
//! import decision; reading and writing the file is the caller's job.

use crate::cron_entry::{models_of, CronEntry};
use crate::cron_parser::{parse_spec, serialize_spec, CronParser};
use vstd::prelude::*;

verus! {

/// The file-based scheduler backend.
pub struct FileScheduler {
    /// The backing file path.
    pub file_path: String,
}

impl FileScheduler {
    /// Creates the backend over the given backing path.
    pub fn new(file_path: String) -> (r: Self)
        ensures
            r.file_path@ == file_path@,
    {
        Self { file_path }
    }

    /// The display name of this backend.
    pub fn backend_name(&self) -> (r: &'static str)
        ensures
            r@ == "File"@,
    {
        "File"
    }

    /// The entries held in the backing file's text.
    pub fn parse_content(&self, content: &str) -> (r: Vec<CronEntry>)
        ensures
            models_of(r@) == parse_spec(content@),
    {
        CronParser::parse(content)
    }

    /// The exact text to write to the backing file.
    pub fn render(&self, entries: &Vec<CronEntry>) -> (r: String)
        ensures
            r@ == serialize_spec(models_of(entries@)),
    {
        CronParser::serialize(entries)
    }

    /// The first-run import decision: when the backing file does not
    /// exist and the platform scheduler yielded at least one entry, that
    /// serialized text seeds the file; otherwise nothing is written.
    pub fn bootstrap_content(&self, imported: &Vec<CronEntry>) -> (r: Option<String>)
        ensures
            imported@.len() > 0 ==> r is Some && r->Some_0@ == serialize_spec(models_of(imported@)),
            imported@.len() == 0 ==> r is None,
    {
        if imported.len() > 0 {
            Some(CronParser::serialize(imported))
        } else {
            None
        }
    }
}

} // verus!
