//! The interactive application's state machine: the entry list, the
//! selection, the input modes and the pending-save flag.  The terminal
//! front-end driving it performs the drawing and the storage calls; every
//! state change is decided here.

use crate::cron_entry::{models_of, schedule_ok, CronEntry, EntryModel};
use crate::strutil::{chars_of, push_all, push_str_chars, string_from_chars};
use vstd::prelude::*;

verus! {

/// What keyboard input currently means.
#[derive(Clone, Copy, Debug, PartialEq, Eq, Structural)]
pub enum InputMode {
    Normal,
    AddingName,
    AddingSchedule,
    AddingCommand,
    EditingName,
    EditingSchedule,
    EditingCommand,
}

/// The application state.
pub struct App {
    pub entries: Vec<CronEntry>,
    pub selected_index: usize,
    pub input_mode: InputMode,
    pub input_buffer: String,
    pub message: Option<String>,
    pub should_quit: bool,
    /// Set whenever the entry list changed and a save is owed.
    pub dirty: bool,
    /// The name collected while adding a new entry.
    pub temp_name: String,
    /// The schedule collected while adding a new entry.
    pub temp_schedule: String,
}

fn empty_string() -> (r: String)
    ensures
        r@.len() == 0,
{
    let v: Vec<char> = Vec::new();
    string_from_chars(&v)
}

fn push_char(s: &mut String, c: char)
    ensures
        final(s)@ == old(s)@ + seq![c],
{
    let mut cs = chars_of(s.as_str());
    cs.push(c);
    *s = string_from_chars(&cs);
}

fn lit_string(t: &str) -> (r: String)
    ensures
        r@ == t@,
{
    let mut v: Vec<char> = Vec::new();
    push_str_chars(&mut v, t);
    string_from_chars(&v)
}

impl App {
    /// A fresh application over an already-loaded entry list.
    pub fn new(entries: Vec<CronEntry>) -> (r: Self)
        ensures
            r.entries@ == entries@,
            r.selected_index == 0,
            r.input_mode is Normal,
            r.input_buffer@.len() == 0,
            r.message is None,
            !r.should_quit,
            !r.dirty,
    {
        Self {
            entries,
            selected_index: 0,
            input_mode: InputMode::Normal,
            input_buffer: empty_string(),
            message: None,
            should_quit: false,
            dirty: false,
            temp_name: empty_string(),
            temp_schedule: empty_string(),
        }
    }

    /// Moves the selection one entry up, stopping at the top.
    pub fn move_selection_up(&mut self)
        ensures
            final(self).selected_index == (if old(self).selected_index > 0 {
                old(self).selected_index - 1
            } else {
                0int
            }),
            final(self).entries == old(self).entries,
            final(self).input_mode == old(self).input_mode,
            final(self).dirty == old(self).dirty,
            final(self).should_quit == old(self).should_quit,
            final(self).input_buffer == old(self).input_buffer,
            final(self).message == old(self).message,
            final(self).temp_name == old(self).temp_name,
            final(self).temp_schedule == old(self).temp_schedule,
    {
        if self.selected_index > 0 {
            self.selected_index = self.selected_index - 1;
        }
    }

    /// Moves the selection one entry down, stopping at the last entry.
    pub fn move_selection_down(&mut self)
        ensures
            final(self).selected_index == (if old(self).entries@.len() > 0 && old(
                self,
            ).selected_index + 1 < old(self).entries@.len() {
                old(self).selected_index + 1
            } else {
                old(self).selected_index as int
            }),
            final(self).entries == old(self).entries,
            final(self).input_mode == old(self).input_mode,
            final(self).dirty == old(self).dirty,
            final(self).should_quit == old(self).should_quit,
            final(self).input_buffer == old(self).input_buffer,
            final(self).message == old(self).message,
            final(self).temp_name == old(self).temp_name,
            final(self).temp_schedule == old(self).temp_schedule,
    {
        if self.entries.len() > 0 && self.selected_index < self.entries.len() - 1 {
            self.selected_index = self.selected_index + 1;
        }
    }

    /// Begins adding a new entry, starting with its name.
    pub fn start_add_entry(&mut self)
        ensures
            final(self).input_mode is AddingName,
            final(self).input_buffer@.len() == 0,
            final(self).message is Some && final(self).message->Some_0@
                == "Enter name for new cron entry:"@,
            final(self).entries == old(self).entries,
            final(self).selected_index == old(self).selected_index,
            final(self).dirty == old(self).dirty,
            final(self).should_quit == old(self).should_quit,
            final(self).temp_name == old(self).temp_name,
            final(self).temp_schedule == old(self).temp_schedule,
    {
        self.input_mode = InputMode::AddingName;
        self.input_buffer = empty_string();
        self.message = Some(lit_string("Enter name for new cron entry:"));
    }

    /// Begins editing the selected entry's name, if one is selected.
    pub fn start_edit_name(&mut self)
        ensures
            old(self).selected_index < old(self).entries@.len() ==> {
                &&& final(self).input_mode is EditingName
                &&& final(self).input_buffer@ == old(self).entries@[old(
                    self,
                ).selected_index as int].name@
                &&& final(self).message is Some && final(self).message->Some_0@ == "Edit name:"@
            },
            old(self).selected_index >= old(self).entries@.len() ==> *final(self) == *old(self),
            final(self).entries == old(self).entries,
            final(self).selected_index == old(self).selected_index,
            final(self).dirty == old(self).dirty,
            final(self).should_quit == old(self).should_quit,
            final(self).temp_name == old(self).temp_name,
            final(self).temp_schedule == old(self).temp_schedule,
    {
        if self.selected_index < self.entries.len() {
            self.input_mode = InputMode::EditingName;
            self.input_buffer = self.entries[self.selected_index].name.clone();
            self.message = Some(lit_string("Edit name:"));
        }
    }

    /// Begins editing the selected entry's schedule, if one is selected.
    pub fn start_edit_schedule(&mut self)
        ensures
            old(self).selected_index < old(self).entries@.len() ==> {
                &&& final(self).input_mode is EditingSchedule
                &&& final(self).input_buffer@ == old(self).entries@[old(
                    self,
                ).selected_index as int].schedule@
                &&& final(self).message is Some && final(self).message->Some_0@
                    == "Edit schedule (cron format):"@
            },
            old(self).selected_index >= old(self).entries@.len() ==> *final(self) == *old(self),
            final(self).entries == old(self).entries,
            final(self).selected_index == old(self).selected_index,
            final(self).dirty == old(self).dirty,
            final(self).should_quit == old(self).should_quit,
            final(self).temp_name == old(self).temp_name,
            final(self).temp_schedule == old(self).temp_schedule,
    {
        if self.selected_index < self.entries.len() {
            self.input_mode = InputMode::EditingSchedule;
            self.input_buffer = self.entries[self.selected_index].schedule.clone();
            self.message = Some(lit_string("Edit schedule (cron format):"));
        }
    }

    /// Begins editing the selected entry's command, if one is selected.
    pub fn start_edit_command(&mut self)
        ensures
            old(self).selected_index < old(self).entries@.len() ==> {
                &&& final(self).input_mode is EditingCommand
                &&& final(self).input_buffer@ == old(self).entries@[old(
                    self,
                ).selected_index as int].command@
                &&& final(self).message is Some && final(self).message->Some_0@ == "Edit command:"@
            },
            old(self).selected_index >= old(self).entries@.len() ==> *final(self) == *old(self),
            final(self).entries == old(self).entries,
            final(self).selected_index == old(self).selected_index,
            final(self).dirty == old(self).dirty,
            final(self).should_quit == old(self).should_quit,
            final(self).temp_name == old(self).temp_name,
            final(self).temp_schedule == old(self).temp_schedule,
    {
        if self.selected_index < self.entries.len() {
            self.input_mode = InputMode::EditingCommand;
            self.input_buffer = self.entries[self.selected_index].command.clone();
            self.message = Some(lit_string("Edit command:"));
        }
    }

    /// Deletes the selected entry, keeping the selection in range; a save
    /// becomes owed.
    pub fn delete_entry(&mut self)
        ensures
            old(self).selected_index < old(self).entries@.len() ==> {
                &&& final(self).entries@ == old(self).entries@.remove(
                    old(self).selected_index as int,
                )
                &&& final(self).selected_index == (if old(self).selected_index > 0 && old(
                    self,
                ).selected_index >= final(self).entries@.len() {
                    old(self).selected_index - 1
                } else {
                    old(self).selected_index as int
                })
                &&& final(self).dirty
                &&& final(self).message is Some && final(self).message->Some_0@
                    == "Entry deleted"@
            },
            old(self).selected_index >= old(self).entries@.len() ==> *final(self) == *old(self),
            final(self).input_mode == old(self).input_mode,
            final(self).should_quit == old(self).should_quit,
            final(self).input_buffer == old(self).input_buffer,
            final(self).temp_name == old(self).temp_name,
            final(self).temp_schedule == old(self).temp_schedule,
    {
        if self.entries.len() > 0 && self.selected_index < self.entries.len() {
            self.entries.remove(self.selected_index);
            if self.selected_index > 0 && self.selected_index >= self.entries.len() {
                self.selected_index = self.selected_index - 1;
            }
            self.dirty = true;
            self.message = Some(lit_string("Entry deleted"));
        }
    }

    /// Toggles the selected entry's enabled flag; a save becomes owed
    /// either way, matching the persist-after-every-action policy.
    pub fn toggle_enabled(&mut self)
        ensures
            final(self).dirty,
            old(self).selected_index < old(self).entries@.len() ==> {
                &&& final(self).entries@.len() == old(self).entries@.len()
                &&& final(self).entries@[old(self).selected_index as int]@ == (EntryModel {
                    enabled: !old(self).entries@[old(self).selected_index as int]@.enabled,
                    ..old(self).entries@[old(self).selected_index as int]@
                })
                &&& forall|k: int|
                    0 <= k < old(self).entries@.len() && k != old(self).selected_index
                        ==> final(self).entries@[k] == old(self).entries@[k]
                &&& final(self).message is Some && final(self).message->Some_0@ == "Entry "@ + old(
                    self,
                ).entries@[old(self).selected_index as int].name@ + (if !old(self).entries@[old(
                    self,
                ).selected_index as int]@.enabled {
                    " enabled"@
                } else {
                    " disabled"@
                })
            },
            old(self).selected_index >= old(self).entries@.len() ==> final(self).entries == old(
                self,
            ).entries && final(self).message == old(self).message,
            final(self).selected_index == old(self).selected_index,
            final(self).input_mode == old(self).input_mode,
            final(self).should_quit == old(self).should_quit,
            final(self).input_buffer == old(self).input_buffer,
            final(self).temp_name == old(self).temp_name,
            final(self).temp_schedule == old(self).temp_schedule,
    {
        if self.selected_index < self.entries.len() {
            let idx = self.selected_index;
            let flipped = !self.entries[idx].enabled;
            self.entries[idx].enabled = flipped;
        }
        self.dirty = true;
        if self.selected_index < self.entries.len() {
            let idx = self.selected_index;
            let mut m: Vec<char> = Vec::new();
            push_str_chars(&mut m, "Entry ");
            let name = chars_of(self.entries[idx].name.as_str());
            push_all(&mut m, &name);
            if self.entries[idx].enabled {
                push_str_chars(&mut m, " enabled");
            } else {
                push_str_chars(&mut m, " disabled");
            }
            self.message = Some(string_from_chars(&m));
        }
    }

    /// Appends one typed character to the input buffer.
    pub fn handle_input_char(&mut self, c: char)
        ensures
            final(self).input_buffer@ == old(self).input_buffer@ + seq![c],
            final(self).entries == old(self).entries,
            final(self).input_mode == old(self).input_mode,
            final(self).selected_index == old(self).selected_index,
            final(self).dirty == old(self).dirty,
            final(self).should_quit == old(self).should_quit,
            final(self).message == old(self).message,
            final(self).temp_name == old(self).temp_name,
            final(self).temp_schedule == old(self).temp_schedule,
    {
        push_char(&mut self.input_buffer, c);
    }

    /// Removes the last character of the input buffer, if any.
    pub fn handle_input_backspace(&mut self)
        ensures
            final(self).input_buffer@ == (if old(self).input_buffer@.len() > 0 {
                old(self).input_buffer@.drop_last()
            } else {
                old(self).input_buffer@
            }),
            final(self).entries == old(self).entries,
            final(self).input_mode == old(self).input_mode,
            final(self).selected_index == old(self).selected_index,
            final(self).dirty == old(self).dirty,
            final(self).should_quit == old(self).should_quit,
            final(self).message == old(self).message,
            final(self).temp_name == old(self).temp_name,
            final(self).temp_schedule == old(self).temp_schedule,
    {
        let cs = chars_of(self.input_buffer.as_str());
        if cs.len() > 0 {
            let shorter = crate::strutil::subvec(&cs, 0, cs.len() - 1);
            proof {
                assert(shorter@ =~= self.input_buffer@.drop_last());
            }
            self.input_buffer = string_from_chars(&shorter);
        }
    }

    /// Confirms the current input: advances the add flow, or applies the
    /// edit to the selected entry (making a save owed).
    pub fn confirm_input(&mut self)
        ensures
            old(self).input_mode is AddingName ==> (if old(self).input_buffer@.len() > 0 {
                &&& final(self).temp_name@ == old(self).input_buffer@
                &&& final(self).input_buffer@.len() == 0
                &&& final(self).input_mode is AddingSchedule
                &&& final(self).message is Some && final(self).message->Some_0@ == "Name: "@ + old(
                    self,
                ).input_buffer@ + " | Enter schedule (cron format):"@
                &&& final(self).entries == old(self).entries
                &&& final(self).dirty == old(self).dirty
                &&& final(self).temp_schedule == old(self).temp_schedule
            } else {
                *final(self) == *old(self)
            }),
            old(self).input_mode is AddingSchedule ==> (if old(self).input_buffer@.len() > 0 {
                &&& final(self).temp_schedule@ == old(self).input_buffer@
                &&& final(self).input_buffer@.len() == 0
                &&& final(self).input_mode is AddingCommand
                &&& final(self).message is Some && final(self).message->Some_0@ == "Name: "@ + old(
                    self,
                ).temp_name@ + " | Schedule: "@ + old(self).input_buffer@ + " | Enter command:"@
                &&& final(self).entries == old(self).entries
                &&& final(self).dirty == old(self).dirty
                &&& final(self).temp_name == old(self).temp_name
            } else {
                *final(self) == *old(self)
            }),
            old(self).input_mode is AddingCommand ==> (if old(self).input_buffer@.len() > 0 {
                &&& models_of(final(self).entries@) == models_of(old(self).entries@).push(
                    EntryModel {
                        name: old(self).temp_name@,
                        schedule: old(self).temp_schedule@,
                        command: old(self).input_buffer@,
                        enabled: true,
                    },
                )
                &&& final(self).dirty
                &&& final(self).input_mode is Normal
                &&& final(self).input_buffer@.len() == 0
                &&& final(self).temp_name@.len() == 0
                &&& final(self).temp_schedule@.len() == 0
                &&& final(self).message is Some && final(self).message->Some_0@ == (if schedule_ok(
                    old(self).temp_schedule@,
                ) {
                    "Entry added successfully"@
                } else {
                    "Warning: Invalid cron schedule format. Entry still added."@
                })
            } else {
                *final(self) == *old(self)
            }),
            old(self).input_mode is EditingName ==> (if old(self).selected_index < old(
                self,
            ).entries@.len() {
                &&& final(self).entries@.len() == old(self).entries@.len()
                &&& final(self).entries@[old(self).selected_index as int]@ == (EntryModel {
                    name: old(self).input_buffer@,
                    ..old(self).entries@[old(self).selected_index as int]@
                })
                &&& forall|k: int|
                    0 <= k < old(self).entries@.len() && k != old(self).selected_index
                        ==> final(self).entries@[k] == old(self).entries@[k]
                &&& final(self).dirty
                &&& final(self).input_mode is Normal
                &&& final(self).input_buffer@.len() == 0
                &&& final(self).message is Some && final(self).message->Some_0@
                    == "Name updated"@
                &&& final(self).temp_name == old(self).temp_name
                &&& final(self).temp_schedule == old(self).temp_schedule
            } else {
                *final(self) == *old(self)
            }),
            old(self).input_mode is EditingSchedule ==> (if old(self).selected_index < old(
                self,
            ).entries@.len() {
                &&& final(self).entries@.len() == old(self).entries@.len()
                &&& final(self).entries@[old(self).selected_index as int]@ == (EntryModel {
                    schedule: old(self).input_buffer@,
                    ..old(self).entries@[old(self).selected_index as int]@
                })
                &&& forall|k: int|
                    0 <= k < old(self).entries@.len() && k != old(self).selected_index
                        ==> final(self).entries@[k] == old(self).entries@[k]
                &&& final(self).dirty
                &&& final(self).input_mode is Normal
                &&& final(self).input_buffer@.len() == 0
                &&& final(self).message is Some && final(self).message->Some_0@
                    == "Schedule updated"@
                &&& final(self).temp_name == old(self).temp_name
                &&& final(self).temp_schedule == old(self).temp_schedule
            } else {
                *final(self) == *old(self)
            }),
            old(self).input_mode is EditingCommand ==> (if old(self).selected_index < old(
                self,
            ).entries@.len() {
                &&& final(self).entries@.len() == old(self).entries@.len()
                &&& final(self).entries@[old(self).selected_index as int]@ == (EntryModel {
                    command: old(self).input_buffer@,
                    ..old(self).entries@[old(self).selected_index as int]@
                })
                &&& forall|k: int|
                    0 <= k < old(self).entries@.len() && k != old(self).selected_index
                        ==> final(self).entries@[k] == old(self).entries@[k]
                &&& final(self).dirty
                &&& final(self).input_mode is Normal
                &&& final(self).input_buffer@.len() == 0
                &&& final(self).message is Some && final(self).message->Some_0@
                    == "Command updated"@
                &&& final(self).temp_name == old(self).temp_name
                &&& final(self).temp_schedule == old(self).temp_schedule
            } else {
                *final(self) == *old(self)
            }),
            old(self).input_mode is Normal ==> *final(self) == *old(self),
            final(self).selected_index == old(self).selected_index,
            final(self).should_quit == old(self).should_quit,
    {
        match self.input_mode {
            InputMode::AddingName => {
                if !self.input_buffer.as_str().is_empty() {
                    let typed = chars_of(self.input_buffer.as_str());
                    self.temp_name = string_from_chars(&typed);
                    self.input_buffer = empty_string();
                    self.input_mode = InputMode::AddingSchedule;
                    let mut m: Vec<char> = Vec::new();
                    push_str_chars(&mut m, "Name: ");
                    push_all(&mut m, &typed);
                    push_str_chars(&mut m, " | Enter schedule (cron format):");
                    self.message = Some(string_from_chars(&m));
                }
            },
            InputMode::AddingSchedule => {
                if !self.input_buffer.as_str().is_empty() {
                    let typed = chars_of(self.input_buffer.as_str());
                    self.temp_schedule = string_from_chars(&typed);
                    self.input_buffer = empty_string();
                    self.input_mode = InputMode::AddingCommand;
                    let mut m: Vec<char> = Vec::new();
                    push_str_chars(&mut m, "Name: ");
                    let nm = chars_of(self.temp_name.as_str());
                    push_all(&mut m, &nm);
                    push_str_chars(&mut m, " | Schedule: ");
                    push_all(&mut m, &typed);
                    push_str_chars(&mut m, " | Enter command:");
                    self.message = Some(string_from_chars(&m));
                }
            },
            InputMode::AddingCommand => {
                if !self.input_buffer.as_str().is_empty() {
                    self.finish_add_entry();
                }
            },
            InputMode::EditingName => {
                if self.selected_index < self.entries.len() {
                    let idx = self.selected_index;
                    let new_name = self.input_buffer.clone();
                    self.entries[idx].name = new_name;
                    self.dirty = true;
                    self.input_mode = InputMode::Normal;
                    self.input_buffer = empty_string();
                    self.message = Some(lit_string("Name updated"));
                }
            },
            InputMode::EditingSchedule => {
                if self.selected_index < self.entries.len() {
                    let idx = self.selected_index;
                    let new_schedule = self.input_buffer.clone();
                    self.entries[idx].schedule = new_schedule;
                    self.dirty = true;
                    self.input_mode = InputMode::Normal;
                    self.input_buffer = empty_string();
                    self.message = Some(lit_string("Schedule updated"));
                }
            },
            InputMode::EditingCommand => {
                if self.selected_index < self.entries.len() {
                    let idx = self.selected_index;
                    let new_command = self.input_buffer.clone();
                    self.entries[idx].command = new_command;
                    self.dirty = true;
                    self.input_mode = InputMode::Normal;
                    self.input_buffer = empty_string();
                    self.message = Some(lit_string("Command updated"));
                }
            },
            InputMode::Normal => {},
        }
    }

    /// Creates the entry from the collected name, schedule and command;
    /// the entry is added even when the schedule fails validation, with a
    /// warning instead of the success message.
    pub fn finish_add_entry(&mut self)
        requires
            old(self).input_buffer@.len() > 0,
        ensures
            models_of(final(self).entries@) == models_of(old(self).entries@).push(
                EntryModel {
                    name: old(self).temp_name@,
                    schedule: old(self).temp_schedule@,
                    command: old(self).input_buffer@,
                    enabled: true,
                },
            ),
            final(self).dirty,
            final(self).input_mode is Normal,
            final(self).input_buffer@.len() == 0,
            final(self).temp_name@.len() == 0,
            final(self).temp_schedule@.len() == 0,
            final(self).message is Some && final(self).message->Some_0@ == (if schedule_ok(
                old(self).temp_schedule@,
            ) {
                "Entry added successfully"@
            } else {
                "Warning: Invalid cron schedule format. Entry still added."@
            }),
            final(self).selected_index == old(self).selected_index,
            final(self).should_quit == old(self).should_quit,
    {
        let command = self.input_buffer.clone();
        let name = self.temp_name.clone();
        let schedule = self.temp_schedule.clone();
        let entry = CronEntry::new(name, schedule, command);
        if entry.validate_schedule() {
            self.message = Some(lit_string("Entry added successfully"));
        } else {
            self.message = Some(
                lit_string("Warning: Invalid cron schedule format. Entry still added."),
            );
        }
        let ghost before = self.entries@;
        self.entries.push(entry);
        proof {
            assert(models_of(self.entries@) =~= models_of(before).push(
                EntryModel {
                    name: old(self).temp_name@,
                    schedule: old(self).temp_schedule@,
                    command: old(self).input_buffer@,
                    enabled: true,
                },
            ));
        }
        self.dirty = true;
        self.input_mode = InputMode::Normal;
        self.input_buffer = empty_string();
        self.temp_name = empty_string();
        self.temp_schedule = empty_string();
    }

    /// Abandons the current input flow.
    pub fn cancel_input(&mut self)
        ensures
            final(self).input_mode is Normal,
            final(self).input_buffer@.len() == 0,
            final(self).temp_name@.len() == 0,
            final(self).temp_schedule@.len() == 0,
            final(self).message is Some && final(self).message->Some_0@ == "Cancelled"@,
            final(self).entries == old(self).entries,
            final(self).selected_index == old(self).selected_index,
            final(self).dirty == old(self).dirty,
            final(self).should_quit == old(self).should_quit,
    {
        self.input_mode = InputMode::Normal;
        self.input_buffer = empty_string();
        self.temp_name = empty_string();
        self.temp_schedule = empty_string();
        self.message = Some(lit_string("Cancelled"));
    }

    /// Acknowledges that the owed save has been performed.
    pub fn mark_saved(&mut self)
        ensures
            !final(self).dirty,
            final(self).entries == old(self).entries,
            final(self).input_mode == old(self).input_mode,
            final(self).selected_index == old(self).selected_index,
            final(self).should_quit == old(self).should_quit,
            final(self).input_buffer == old(self).input_buffer,
            final(self).message == old(self).message,
            final(self).temp_name == old(self).temp_name,
            final(self).temp_schedule == old(self).temp_schedule,
    {
        self.dirty = false;
    }

    /// Asks the front-end to exit.
    pub fn quit(&mut self)
        ensures
            final(self).should_quit,
            final(self).entries == old(self).entries,
            final(self).input_mode == old(self).input_mode,
            final(self).selected_index == old(self).selected_index,
            final(self).dirty == old(self).dirty,
            final(self).input_buffer == old(self).input_buffer,
            final(self).message == old(self).message,
            final(self).temp_name == old(self).temp_name,
            final(self).temp_schedule == old(self).temp_schedule,
    {
        self.should_quit = true;
    }
}

} // verus!
