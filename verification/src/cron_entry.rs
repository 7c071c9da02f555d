//! The `CronEntry` value type: one named, scheduled shell command with an
//! enabled flag, plus its rendering into the crontab-like text format and
//! a validator for general five-field cron expressions.

use crate::strutil::{
    chars_of, dec_val, find_char, find_first, parse_u32, parse_u32_spec, push_all,
    push_str_chars, split_char, split_char_exec, split_ws, split_ws_spec, string_from_chars,
    subvec, views_of,
};
use vstd::prelude::*;

verus! {

/// The mathematical model of an entry: its four fields as plain values.
pub struct EntryModel {
    pub name: Seq<char>,
    pub schedule: Seq<char>,
    pub command: Seq<char>,
    pub enabled: bool,
}

/// One scheduled job.
#[derive(Clone, Debug)]
pub struct CronEntry {
    pub name: String,
    /// A five-field cron expression, e.g. `0 2 * * *`.
    pub schedule: String,
    /// The shell command line to execute.
    pub command: String,
    /// Whether this entry is active.
    pub enabled: bool,
}

impl View for CronEntry {
    type V = EntryModel;

    open spec fn view(&self) -> EntryModel {
        EntryModel {
            name: self.name@,
            schedule: self.schedule@,
            command: self.command@,
            enabled: self.enabled,
        }
    }
}

/// The models of a sequence of entries.
pub open spec fn models_of(es: Seq<CronEntry>) -> Seq<EntryModel> {
    es.map_values(|e: CronEntry| e@)
}

/// The crontab-format rendering of one entry: a name comment line, then
/// the cron line, commented out when the entry is disabled.
pub open spec fn to_crontab_string_spec(e: EntryModel) -> Seq<char> {
    "# NAME: "@ + e.name + "\n"@ + (if e.enabled {
        Seq::<char>::empty()
    } else {
        "# "@
    }) + e.schedule + " "@ + e.command
}

// ---------------------------------------------------------------------------
// Schedule validation: general five-field cron syntax
// ---------------------------------------------------------------------------

/// Inclusive bounds of the field at position `i`:
/// minute, hour, day of month, month, day of week.
pub open spec fn cron_field_bounds(i: int) -> (nat, nat) {
    if i == 0 {
        (0nat, 59nat)
    } else if i == 1 {
        (0nat, 23nat)
    } else if i == 2 {
        (1nat, 31nat)
    } else if i == 3 {
        (1nat, 12nat)
    } else {
        (0nat, 7nat)
    }
}

/// A digit string whose value lies in `[lo, hi]`.
pub open spec fn num_in_range(s: Seq<char>, lo: nat, hi: nat) -> bool {
    parse_u32_spec(s) is Some && lo <= parse_u32_spec(s)->Some_0 <= hi
}

/// `*`, a value, or an ascending value range.
pub open spec fn base_ok(b: Seq<char>, lo: nat, hi: nat) -> bool {
    ||| b == seq!['*']
    ||| num_in_range(b, lo, hi)
    ||| match find_first(b, '-') {
        None => false,
        Some(k) => {
            0 <= k < b.len() && num_in_range(b.take(k), lo, hi) && num_in_range(
                b.skip(k + 1),
                lo,
                hi,
            ) && dec_val(b.take(k)) <= dec_val(b.skip(k + 1))
        },
    }
}

/// A base, optionally followed by `/step` with a positive step.
pub open spec fn item_ok(it: Seq<char>, lo: nat, hi: nat) -> bool {
    match find_first(it, '/') {
        None => base_ok(it, lo, hi),
        Some(k) => {
            0 <= k < it.len() && base_ok(it.take(k), lo, hi) && parse_u32_spec(it.skip(k + 1))
                is Some && parse_u32_spec(it.skip(k + 1))->Some_0 >= 1
        },
    }
}

/// A comma-separated list of items, none of them empty.
pub open spec fn field_ok(f: Seq<char>, lo: nat, hi: nat) -> bool {
    f.len() > 0 && {
        let items = split_char(f, ',');
        forall|i: int| 0 <= i < items.len() ==> item_ok(#[trigger] items[i], lo, hi)
    }
}

/// A well-formed five-field cron expression: five whitespace-separated
/// fields, each a list of `*`, values, ranges or stepped variants whose
/// numbers lie within that field's domain.
pub open spec fn schedule_ok(s: Seq<char>) -> bool {
    let fields = split_ws_spec(s);
    fields.len() == 5 && forall|i: int|
        0 <= i < 5 ==> field_ok(
            #[trigger] fields[i],
            cron_field_bounds(i).0,
            cron_field_bounds(i).1,
        )
}

fn num_in_range_exec(s: &Vec<char>, lo: u32, hi: u32) -> (r: bool)
    ensures
        r == num_in_range(s@, lo as nat, hi as nat),
{
    match parse_u32(s) {
        Some(v) => lo <= v && v <= hi,
        None => false,
    }
}

fn base_ok_exec(b: &Vec<char>, lo: u32, hi: u32) -> (r: bool)
    ensures
        r == base_ok(b@, lo as nat, hi as nat),
{
    if b.len() == 1 && b[0] == '*' {
        assert(b@ =~= seq!['*']);
        return true;
    }
    assert(b@ != seq!['*']) by {
        if b@ == seq!['*'] {
            assert(b@.len() == 1 && b@[0] == '*');
        }
    }
    if num_in_range_exec(b, lo, hi) {
        return true;
    }
    match find_char(b, 0, '-') {
        None => {
            proof {
                crate::strutil::lemma_find_first_none(b@, '-');
            }
            false
        },
        Some(k) => {
            proof {
                crate::strutil::lemma_find_first_exact(b@, '-', k as int);
            }
            let n = b.len();
            let head = subvec(b, 0, k);
            let tail = subvec(b, k + 1, n);
            proof {
                assert(head@ =~= b@.take(k as int));
                assert(tail@ =~= b@.skip(k as int + 1));
            }
            match (parse_u32(&head), parse_u32(&tail)) {
                (Some(a), Some(z)) => {
                    proof {
                        crate::strutil::lemma_dec_val_nonneg(head@);
                        crate::strutil::lemma_dec_val_nonneg(tail@);
                        assert(a as int == dec_val(head@));
                        assert(z as int == dec_val(tail@));
                    }
                    lo <= a && a <= hi && lo <= z && z <= hi && a <= z
                },
                _ => false,
            }
        },
    }
}

fn item_ok_exec(it: &Vec<char>, lo: u32, hi: u32) -> (r: bool)
    ensures
        r == item_ok(it@, lo as nat, hi as nat),
{
    match find_char(it, 0, '/') {
        None => {
            proof {
                crate::strutil::lemma_find_first_none(it@, '/');
            }
            base_ok_exec(it, lo, hi)
        },
        Some(k) => {
            proof {
                crate::strutil::lemma_find_first_exact(it@, '/', k as int);
            }
            let n = it.len();
            let head = subvec(it, 0, k);
            let tail = subvec(it, k + 1, n);
            proof {
                assert(head@ =~= it@.take(k as int));
                assert(tail@ =~= it@.skip(k as int + 1));
            }
            if !base_ok_exec(&head, lo, hi) {
                return false;
            }
            match parse_u32(&tail) {
                Some(v) => v >= 1,
                None => false,
            }
        },
    }
}

fn field_ok_exec(f: &Vec<char>, lo: u32, hi: u32) -> (r: bool)
    ensures
        r == field_ok(f@, lo as nat, hi as nat),
{
    if f.len() == 0 {
        return false;
    }
    let items = split_char_exec(f, ',');
    let mut i: usize = 0;
    while i < items.len()
        invariant
            i <= items@.len(),
            views_of(items@) == split_char(f@, ','),
            forall|k: int|
                0 <= k < i ==> item_ok(#[trigger] split_char(f@, ',')[k], lo as nat, hi as nat),
        decreases items@.len() - i,
    {
        if !item_ok_exec(&items[i], lo, hi) {
            assert(!item_ok(split_char(f@, ',')[i as int], lo as nat, hi as nat));
            return false;
        }
        i = i + 1;
    }
    true
}

impl CronEntry {
    /// Creates an enabled entry from its parts.
    pub fn new(name: String, schedule: String, command: String) -> (r: Self)
        ensures
            r@ == (EntryModel { name: name@, schedule: schedule@, command: command@, enabled: true }),
    {
        Self { name, schedule, command, enabled: true }
    }

    /// Whether the schedule is a well-formed five-field cron expression.
    pub fn validate_schedule(&self) -> (r: bool)
        ensures
            r == schedule_ok(self.schedule@),
    {
        let sched = chars_of(self.schedule.as_str());
        let fields = split_ws(&sched);
        if fields.len() != 5 {
            return false;
        }
        let bounds: [(u32, u32); 5] = [(0, 59), (0, 23), (1, 31), (1, 12), (0, 7)];
        let mut i: usize = 0;
        while i < 5
            invariant
                i <= 5,
                views_of(fields@) == split_ws_spec(self.schedule@),
                fields@.len() == 5,
                bounds@ == seq![(0u32, 59u32), (0u32, 23u32), (1u32, 31u32), (1u32, 12u32), (0u32, 7u32)],
                forall|k: int|
                    0 <= k < i ==> field_ok(
                        #[trigger] split_ws_spec(self.schedule@)[k],
                        cron_field_bounds(k).0,
                        cron_field_bounds(k).1,
                    ),
            decreases 5 - i,
        {
            let (lo, hi) = bounds[i];
            assert(lo as nat == cron_field_bounds(i as int).0 && hi as nat == cron_field_bounds(
                i as int,
            ).1);
            if !field_ok_exec(&fields[i], lo, hi) {
                assert(!field_ok(
                    split_ws_spec(self.schedule@)[i as int],
                    cron_field_bounds(i as int).0,
                    cron_field_bounds(i as int).1,
                ));
                return false;
            }
            i = i + 1;
        }
        true
    }

    /// Renders the entry in the crontab-like text format (without a
    /// trailing newline).
    pub fn to_crontab_string(&self) -> (r: String)
        ensures
            r@ == to_crontab_string_spec(self@),
    {
        let mut out: Vec<char> = Vec::new();
        push_str_chars(&mut out, "# NAME: ");
        let name = chars_of(self.name.as_str());
        push_all(&mut out, &name);
        push_str_chars(&mut out, "\n");
        if !self.enabled {
            push_str_chars(&mut out, "# ");
        }
        let sched = chars_of(self.schedule.as_str());
        push_all(&mut out, &sched);
        push_str_chars(&mut out, " ");
        let cmd = chars_of(self.command.as_str());
        push_all(&mut out, &cmd);
        assert(out@ =~= to_crontab_string_spec(self@));
        string_from_chars(&out)
    }
}

} // verus!
