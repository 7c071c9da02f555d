//! The staged save protocol of the calendar-job backend.
//!
//! A save proceeds in phases: stage every new descriptor under a
//! `.new`-suffixed path, back up every currently registered descriptor,
//! deregister and remove the old ones, atomically rename the staged files
//! into place, register the new jobs, and finally either commit (discard
//! backups) or, when more than half of the registrations failed, roll the
//! whole directory back.  This module computes the plan — which files get
//! which content, and every path of every phase — and the commit/rollback
//! decision; the driver performing the file and `launchctl` calls simply
//! walks the plan.

use crate::cron_entry::{models_of, CronEntry, EntryModel};
use crate::scheduler::launchd::{
    command_ok, label_spec, plist_content_spec, plist_path_spec, schedule_to_trigger_spec,
    validate_command_spec, LaunchdScheduler, ValidationError,
};
use crate::strutil::push_str_chars;
use vstd::prelude::*;

verus! {

/// One descriptor to be written: the label, the live path it will occupy,
/// the `.new` staging path it is written to first, and its content.
pub struct StagedJob {
    pub label: String,
    pub live_path: String,
    pub staged_path: String,
    pub content: String,
}

/// One currently registered descriptor to preserve across the save: its
/// label, live path, and the `.backup` path it is copied to.
pub struct BackupJob {
    pub label: String,
    pub live_path: String,
    pub backup_path: String,
}

/// The complete save plan: descriptors to write (one per enabled entry,
/// in input order) and existing descriptors to back up (one per
/// registered label, in input order).
pub struct SavePlan {
    pub staged: Vec<StagedJob>,
    pub backups: Vec<BackupJob>,
}

/// Why staging an entry fails, if it does: its command, then its
/// schedule.  Disabled entries are not staged and cannot fail.
pub open spec fn stage_error(e: EntryModel) -> Option<ValidationError> {
    if !e.enabled {
        None
    } else if validate_command_spec(e.command) is Err {
        Some(validate_command_spec(e.command)->Err_0)
    } else if schedule_to_trigger_spec(e.schedule) is Err {
        Some(schedule_to_trigger_spec(e.schedule)->Err_0)
    } else {
        None
    }
}

/// The first entry (in order) whose staging fails.
pub open spec fn first_stage_error(es: Seq<EntryModel>) -> Option<ValidationError>
    decreases es.len(),
{
    if es.len() == 0 {
        None
    } else {
        match stage_error(es[0]) {
            Some(e) => Some(e),
            None => first_stage_error(es.drop_first()),
        }
    }
}

/// The enabled entries, in order.
pub open spec fn enabled_only(es: Seq<EntryModel>) -> Seq<EntryModel>
    decreases es.len(),
{
    if es.len() == 0 {
        Seq::empty()
    } else {
        (if es[0].enabled {
            seq![es[0]]
        } else {
            Seq::empty()
        }) + enabled_only(es.drop_first())
    }
}

/// LAW: staging succeeds if and only if every enabled entry has an
/// acceptable command and a schedule the calendar model can express.
pub proof fn lemma_stage_success_iff(es: Seq<EntryModel>)
    ensures
        first_stage_error(es) is None <==> forall|i: int|
            0 <= i < es.len() ==> ((#[trigger] es[i]).enabled ==> command_ok(es[i].command)
                && schedule_to_trigger_spec(es[i].schedule) is Ok),
    decreases es.len(),
{
    if es.len() > 0 {
        lemma_stage_success_iff(es.drop_first());
        if first_stage_error(es) is None {
            assert forall|i: int|
                0 <= i < es.len() implies ((#[trigger] es[i]).enabled ==> command_ok(es[i].command)
                && schedule_to_trigger_spec(es[i].schedule) is Ok) by {
                if i > 0 {
                    assert(es.drop_first()[i - 1] == es[i]);
                }
            }
        }
        if forall|i: int|
            0 <= i < es.len() ==> ((#[trigger] es[i]).enabled ==> command_ok(es[i].command)
                && schedule_to_trigger_spec(es[i].schedule) is Ok) {
            assert forall|i: int|
                0 <= i < es.drop_first().len() implies ((#[trigger] es.drop_first()[i]).enabled
                ==> command_ok(es.drop_first()[i].command) && schedule_to_trigger_spec(
                es.drop_first()[i].schedule,
            ) is Ok) by {
                assert(es.drop_first()[i] == es[i + 1]);
            }
            assert(stage_error(es[0]) is None);
        }
    }
}

proof fn lemma_enabled_only_snoc(es: Seq<EntryModel>, e: EntryModel)
    ensures
        enabled_only(es.push(e)) == enabled_only(es) + (if e.enabled {
            seq![e]
        } else {
            Seq::<EntryModel>::empty()
        }),
    decreases es.len(),
{
    let tail: Seq<EntryModel> = if e.enabled {
        seq![e]
    } else {
        Seq::empty()
    };
    if es.len() == 0 {
        assert(es.push(e)[0] == e);
        assert(es.push(e).drop_first() =~= Seq::<EntryModel>::empty());
        assert(enabled_only(Seq::<EntryModel>::empty()) == Seq::<EntryModel>::empty());
        assert(enabled_only(es.push(e)) =~= tail);
        assert(enabled_only(es) + tail =~= tail);
    } else {
        assert(es.push(e)[0] == es[0]);
        assert(es.push(e).drop_first() =~= es.drop_first().push(e));
        lemma_enabled_only_snoc(es.drop_first(), e);
        let head: Seq<EntryModel> = if es[0].enabled {
            seq![es[0]]
        } else {
            Seq::empty()
        };
        assert(enabled_only(es.push(e)) == head + (enabled_only(es.drop_first()) + tail));
        assert(head + (enabled_only(es.drop_first()) + tail) =~= (head + enabled_only(
            es.drop_first(),
        )) + tail);
    }
}

proof fn lemma_first_stage_error_skip(es: Seq<EntryModel>, i: int)
    requires
        0 <= i <= es.len(),
        forall|k: int| 0 <= k < i ==> stage_error(#[trigger] es[k]) is None,
    ensures
        first_stage_error(es) == first_stage_error(es.skip(i)),
    decreases i,
{
    if i == 0 {
        assert(es.skip(0) =~= es);
    } else {
        assert(stage_error(es[0]) is None);
        assert(es.len() > 0);
        assert forall|k: int| 0 <= k < i - 1 implies stage_error(#[trigger] es.drop_first()[k])
            is None by {
            assert(es.drop_first()[k] == es[k + 1]);
        }
        lemma_first_stage_error_skip(es.drop_first(), i - 1);
        assert(es.drop_first().skip(i - 1) =~= es.skip(i));
    }
}

/// Whether `failures` out of `attempted` registrations constitute a
/// majority failure: strictly more than half.
pub fn majority_failed(failures: usize, attempted: usize) -> (r: bool)
    ensures
        r == (failures > attempted / 2),
{
    failures > attempted / 2
}

/// The verdict on a save after its registration phase.
#[derive(Clone, Copy, Debug, PartialEq, Eq, Structural)]
pub enum SaveOutcome {
    /// The save stands; some registrations may still have failed and are
    /// reported as warnings.
    Committed { failures: usize },
    /// More than half of the registrations failed: every change is undone
    /// and the previous descriptors are restored.
    RolledBack { failures: usize },
}

/// Decides between commit and rollback: rollback exactly when strictly
/// more than half of the attempted registrations failed.
pub fn decide_outcome(failures: usize, attempted: usize) -> (r: SaveOutcome)
    ensures
        r == (if failures > attempted / 2 {
            (SaveOutcome::RolledBack { failures })
        } else {
            (SaveOutcome::Committed { failures })
        }),
{
    if majority_failed(failures, attempted) {
        SaveOutcome::RolledBack { failures }
    } else {
        SaveOutcome::Committed { failures }
    }
}

/// Tallies registration attempts during the register phase.
pub struct RegisterTally {
    pub attempted: usize,
    pub failed: usize,
}

impl RegisterTally {
    pub fn new() -> (r: Self)
        ensures
            r.attempted == 0,
            r.failed == 0,
    {
        Self { attempted: 0, failed: 0 }
    }

    /// Records one registration result.
    pub fn record(&mut self, ok: bool)
        requires
            old(self).attempted < usize::MAX,
            old(self).failed <= old(self).attempted,
        ensures
            final(self).attempted == old(self).attempted + 1,
            final(self).failed == old(self).failed + (if ok {
                0int
            } else {
                1int
            }),
    {
        self.attempted = self.attempted + 1;
        if !ok {
            self.failed = self.failed + 1;
        }
    }

    /// The verdict for this tally.
    pub fn outcome(&self) -> (r: SaveOutcome)
        ensures
            r == (if self.failed > self.attempted / 2 {
                (SaveOutcome::RolledBack { failures: self.failed })
            } else {
                (SaveOutcome::Committed { failures: self.failed })
            }),
    {
        decide_outcome(self.failed, self.attempted)
    }
}

impl LaunchdScheduler {
    /// Computes the whole save plan, validating every enabled entry
    /// before anything would touch live state.  Fails with the first
    /// entry's validation error, command before schedule; on success the
    /// plan stages one descriptor per enabled entry, in order, with its
    /// exact content and paths, and one backup per existing label.
    pub fn plan_save(&self, entries: &Vec<CronEntry>, existing_labels: &Vec<String>) -> (r: Result<
        SavePlan,
        ValidationError,
    >)
        ensures
            match r {
                Ok(plan) => {
                    let ms = models_of(entries@);
                    let en = enabled_only(ms);
                    &&& first_stage_error(ms) is None
                    &&& forall|i: int|
                        0 <= i < ms.len() ==> ((#[trigger] ms[i]).enabled ==> command_ok(
                            ms[i].command,
                        ) && schedule_to_trigger_spec(ms[i].schedule) is Ok)
                    &&& plan.staged@.len() == en.len()
                    &&& forall|i: int|
                        0 <= i < en.len() ==> {
                            let j = #[trigger] plan.staged@[i];
                            &&& j.label@ == label_spec(en[i].name)
                            &&& j.live_path@ == plist_path_spec(
                                self.launch_agents_dir@,
                                label_spec(en[i].name),
                            )
                            &&& j.staged_path@ == plist_path_spec(
                                self.launch_agents_dir@,
                                label_spec(en[i].name),
                            ) + ".new"@
                            &&& j.content@ == plist_content_spec(self.logs_dir@, en[i])
                        }
                    &&& plan.backups@.len() == existing_labels@.len()
                    &&& forall|i: int|
                        0 <= i < existing_labels@.len() ==> {
                            let b = #[trigger] plan.backups@[i];
                            &&& b.label@ == existing_labels@[i]@
                            &&& b.live_path@ == plist_path_spec(
                                self.launch_agents_dir@,
                                existing_labels@[i]@,
                            )
                            &&& b.backup_path@ == plist_path_spec(
                                self.launch_agents_dir@,
                                existing_labels@[i]@,
                            ) + ".backup"@
                        }
                },
                Err(e) => first_stage_error(models_of(entries@)) == Some(e),
            },
    {
        let ghost ms = models_of(entries@);
        let mut staged: Vec<StagedJob> = Vec::new();
        let mut i: usize = 0;
        while i < entries.len()
            invariant
                i <= entries@.len(),
                ms == models_of(entries@),
                forall|k: int| 0 <= k < i ==> stage_error(#[trigger] ms[k]) is None,
                staged@.len() == enabled_only(ms.take(i as int)).len(),
                forall|k: int|
                    0 <= k < staged@.len() ==> {
                        let en = enabled_only(ms.take(i as int));
                        let j = #[trigger] staged@[k];
                        &&& j.label@ == label_spec(en[k].name)
                        &&& j.live_path@ == plist_path_spec(
                            self.launch_agents_dir@,
                            label_spec(en[k].name),
                        )
                        &&& j.staged_path@ == plist_path_spec(
                            self.launch_agents_dir@,
                            label_spec(en[k].name),
                        ) + ".new"@
                        &&& j.content@ == plist_content_spec(self.logs_dir@, en[k])
                    },
            decreases entries@.len() - i,
        {
            proof {
                assert(ms.take(i + 1) =~= ms.take(i as int).push(ms[i as int]));
                lemma_enabled_only_snoc(ms.take(i as int), ms[i as int]);
            }
            let entry = &entries[i];
            if entry.enabled {
                let content = match self.create_plist(entry) {
                    Ok(c) => c,
                    Err(e) => {
                        proof {
                            lemma_first_stage_error_skip(ms, i as int);
                            assert(ms.skip(i as int)[0] == ms[i as int]);
                            assert(stage_error(ms[i as int]) == Some(e));
                        }
                        return Err(e);
                    },
                };
                let label = self.entry_to_label(entry);
                let live_path = self.plist_path(label.as_str());
                let mut sp: Vec<char> = Vec::new();
                push_str_chars(&mut sp, live_path.as_str());
                push_str_chars(&mut sp, ".new");
                let staged_path = crate::strutil::string_from_chars(&sp);
                let ghost before = staged@;
                staged.push(
                    StagedJob { label, live_path, staged_path, content },
                );
                proof {
                    let en2 = enabled_only(ms.take(i + 1));
                    assert(en2 =~= enabled_only(ms.take(i as int)) + seq![ms[i as int]]);
                    assert(staged@.len() == en2.len());
                }
            } else {
                proof {
                    assert(enabled_only(ms.take(i + 1)) =~= enabled_only(ms.take(i as int)));
                }
            }
            i = i + 1;
        }
        proof {
            assert(ms.take(ms.len() as int) =~= ms);
            lemma_first_stage_error_skip(ms, ms.len() as int);
            assert(ms.skip(ms.len() as int) =~= Seq::<EntryModel>::empty());
            lemma_stage_success_iff(ms);
        }
        let mut backups: Vec<BackupJob> = Vec::new();
        let mut k: usize = 0;
        while k < existing_labels.len()
            invariant
                k <= existing_labels@.len(),
                backups@.len() == k,
                forall|j: int|
                    0 <= j < k ==> {
                        let b = #[trigger] backups@[j];
                        &&& b.label@ == existing_labels@[j]@
                        &&& b.live_path@ == plist_path_spec(
                            self.launch_agents_dir@,
                            existing_labels@[j]@,
                        )
                        &&& b.backup_path@ == plist_path_spec(
                            self.launch_agents_dir@,
                            existing_labels@[j]@,
                        ) + ".backup"@
                    },
            decreases existing_labels@.len() - k,
        {
            let label_ref = &existing_labels[k];
            let live_path = self.plist_path(label_ref.as_str());
            let mut bp: Vec<char> = Vec::new();
            push_str_chars(&mut bp, live_path.as_str());
            push_str_chars(&mut bp, ".backup");
            let backup_path = crate::strutil::string_from_chars(&bp);
            let label = label_ref.clone();
            backups.push(BackupJob { label, live_path, backup_path });
            k = k + 1;
        }
        Ok(SavePlan { staged, backups })
    }
}

} // verus!
