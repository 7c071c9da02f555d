//! A library for managing named cron-style scheduled jobs.
//!
//! Entries (name, five-field schedule, shell command, enabled flag) are
//! persisted in a crontab-like text format, and can be converted into
//! launchd-style calendar job descriptors.  The text codec, the descriptor
//! codec, the schedule validation and the staged save protocol are all
//! verified; the surrounding process and file plumbing lives outside this
//! crate and only consumes the contracts stated here.

pub mod strutil;

pub mod cron_entry;

pub mod cron_parser;

pub mod scheduler;

pub mod app;
