//! The text codec: parsing and serializing lists of entries in the
//! crontab-like persisted format, with a proof that parsing undoes
//! serialization.

use crate::cron_entry::{models_of, to_crontab_string_spec, CronEntry, EntryModel};
use crate::strutil::{
    chars_of, count_char, dec_digits, find_first, is_space_char, join_space, join_space_exec,
    prefix_of, push_dec, push_str_chars, split_lines, split_lines_spec, splitn_space,
    splitn_space_exec, starts_with, string_from_chars, subvec, trim_chars, trim_spec, views_of,
};
use vstd::prelude::*;

verus! {

/// Splits a cron line into the five-field schedule and the command, when
/// the line has at least six space-separated tokens.
pub open spec fn cron_line_spec(line: Seq<char>) -> Option<(Seq<char>, Seq<char>)> {
    let parts = splitn_space(line, 6);
    if parts.len() >= 6 {
        Some((join_space(parts.take(5)), parts[5]))
    } else {
        None
    }
}

/// The synthesized name of the `n`-th entry parsed without a name line.
pub open spec fn unnamed_name(n: nat) -> Seq<char> {
    "Unnamed ("@ + dec_digits(n) + ")"@
}

/// One step of the line scanner: `count` is the number of entries already
/// produced.  A `# NAME:` line consumes the following line as the entry's
/// cron line (commented out means disabled); other comment lines and
/// blank lines are skipped; anything else is an unnamed cron line.  Lines
/// with fewer than six tokens produce no entry.
pub open spec fn parse_lines_spec(lines: Seq<Seq<char>>, count: nat) -> Seq<EntryModel>
    decreases lines.len(),
{
    if lines.len() == 0 {
        Seq::empty()
    } else {
        let line = trim_spec(lines[0]);
        if line.len() == 0 {
            parse_lines_spec(lines.drop_first(), count)
        } else if prefix_of("# NAME:"@, line) {
            let nm = trim_spec(line.skip(7));
            if lines.len() >= 2 {
                let next = trim_spec(lines[1]);
                let disabled = prefix_of("# "@, next) && !prefix_of("# NAME:"@, next);
                let cron = if disabled {
                    next.skip(2)
                } else {
                    next
                };
                match cron_line_spec(cron) {
                    Some(sc) => seq![
                        EntryModel { name: nm, schedule: sc.0, command: sc.1, enabled: !disabled },
                    ] + parse_lines_spec(lines.skip(2), count + 1),
                    None => parse_lines_spec(lines.skip(2), count),
                }
            } else {
                Seq::empty()
            }
        } else if line[0] == '#' {
            parse_lines_spec(lines.drop_first(), count)
        } else {
            match cron_line_spec(line) {
                Some(sc) => seq![
                    EntryModel {
                        name: unnamed_name(count + 1),
                        schedule: sc.0,
                        command: sc.1,
                        enabled: true,
                    },
                ] + parse_lines_spec(lines.drop_first(), count + 1),
                None => parse_lines_spec(lines.drop_first(), count),
            }
        }
    }
}

/// What parsing a whole text yields.
pub open spec fn parse_spec(text: Seq<char>) -> Seq<EntryModel> {
    parse_lines_spec(split_lines_spec(text), 0)
}

/// The serialized form of a list of entries: each entry's crontab
/// rendering followed by a newline, in order.
pub open spec fn serialize_spec(es: Seq<EntryModel>) -> Seq<char>
    decreases es.len(),
{
    if es.len() == 0 {
        Seq::empty()
    } else {
        to_crontab_string_spec(es[0]) + "\n"@ + serialize_spec(es.drop_first())
    }
}

pub struct CronParser;

fn parse_cron_line_chars(line: &Vec<char>) -> (r: Option<(String, String)>)
    ensures
        match (r, cron_line_spec(line@)) {
            (Some(p), Some(q)) => p.0@ == q.0 && p.1@ == q.1,
            (None, None) => true,
            _ => false,
        },
{
    let parts = splitn_space_exec(line, 6);
    if parts.len() >= 6 {
        let mut head: Vec<Vec<char>> = Vec::new();
        let mut j: usize = 0;
        while j < 5
            invariant
                j <= 5,
                parts@.len() >= 6,
                views_of(parts@) == splitn_space(line@, 6),
                views_of(head@) == views_of(parts@).take(5).take(j as int),
            decreases 5 - j,
        {
            let part = subvec(&parts[j], 0, parts[j].len());
            proof {
                assert(part@ =~= parts@[j as int]@);
            }
            let ghost before = head@;
            head.push(part);
            proof {
                assert(views_of(head@) =~= views_of(before).push(parts@[j as int]@));
                assert(views_of(parts@).take(5).take(j + 1) =~= views_of(parts@).take(5).take(
                    j as int,
                ).push(views_of(parts@)[j as int]));
                assert(views_of(parts@)[j as int] == parts@[j as int]@);
            }
            j = j + 1;
        }
        proof {
            assert(views_of(head@) =~= splitn_space(line@, 6).take(5));
        }
        let schedule = join_space_exec(&head);
        let command = subvec(&parts[5], 0, parts[5].len());
        proof {
            assert(command@ =~= splitn_space(line@, 6)[5]);
        }
        Some((string_from_chars(&schedule), string_from_chars(&command)))
    } else {
        None
    }
}

impl CronParser {
    /// Splits a raw cron line into `(schedule, command)` when it has at
    /// least six space-separated tokens.
    pub fn parse_cron_line(line: &str) -> (r: Option<(String, String)>)
        ensures
            match (r, cron_line_spec(line@)) {
                (Some(p), Some(q)) => p.0@ == q.0 && p.1@ == q.1,
                (None, None) => true,
                _ => false,
            },
    {
        let cs = chars_of(line);
        parse_cron_line_chars(&cs)
    }

    /// Parses the persisted text format.  Never fails: malformed lines
    /// are skipped and garbage input yields an empty list.
    pub fn parse(content: &str) -> (r: Vec<CronEntry>)
        ensures
            models_of(r@) == parse_spec(content@),
    {
        let cs = chars_of(content);
        let lines = split_lines(&cs);
        let mut entries: Vec<CronEntry> = Vec::new();
        let mut i: usize = 0;
        let nlines: usize = lines.len();
        proof {
            assert(views_of(lines@).skip(0) =~= views_of(lines@));
            assert(models_of(entries@) =~= Seq::<EntryModel>::empty());
        }
        while i < nlines
            invariant
                nlines == lines@.len(),
                i <= nlines,
                entries@.len() <= i,
                views_of(lines@) == split_lines_spec(content@),
                models_of(entries@) + parse_lines_spec(
                    views_of(lines@).skip(i as int),
                    entries@.len() as nat,
                ) == parse_spec(content@),
            decreases nlines - i,
        {
            let ghost rest = views_of(lines@).skip(i as int);
            proof {
                assert(rest[0] == lines@[i as int]@);
            }
            let line = trim_chars(&lines[i]);
            if line.len() == 0 {
                proof {
                    assert(rest.drop_first() =~= views_of(lines@).skip(i + 1));
                }
                i = i + 1;
            } else if starts_with(&line, "# NAME:") {
                proof {
                    reveal_strlit("# NAME:");
                }
                let stripped = subvec(&line, 7, line.len());
                let nm_chars = trim_chars(&stripped);
                let name = string_from_chars(&nm_chars);
                proof {
                    assert(stripped@ =~= trim_spec(rest[0]).skip(7));
                }
                i = i + 1;
                if i < nlines {
                    proof {
                        assert(rest[1] == lines@[i as int]@);
                    }
                    let next = trim_chars(&lines[i]);
                    let is_comment = starts_with(&next, "# ") && !starts_with(&next, "# NAME:");
                    let cron = if is_comment {
                        proof {
                            reveal_strlit("# ");
                        }
                        subvec(&next, 2, next.len())
                    } else {
                        next
                    };
                    let ghost prev = entries@;
                    match parse_cron_line_chars(&cron) {
                        Some(p) => {
                            let entry = CronEntry {
                                name,
                                schedule: p.0,
                                command: p.1,
                                enabled: !is_comment,
                            };
                            entries.push(entry);
                            proof {
                                assert(models_of(entries@) =~= models_of(prev) + seq![entry@]);
                            }
                        },
                        None => {},
                    }
                    proof {
                        assert(rest.skip(2) =~= views_of(lines@).skip(i + 1));
                        assert(models_of(prev) + (seq![
                            EntryModel {
                                name: trim_spec(trim_spec(rest[0]).skip(7)),
                                schedule: cron_line_spec(
                                    if (prefix_of("# "@, trim_spec(rest[1])) && !prefix_of(
                                        "# NAME:"@,
                                        trim_spec(rest[1]),
                                    )) {
                                        trim_spec(rest[1]).skip(2)
                                    } else {
                                        trim_spec(rest[1])
                                    },
                                )->Some_0.0,
                                command: cron_line_spec(
                                    if (prefix_of("# "@, trim_spec(rest[1])) && !prefix_of(
                                        "# NAME:"@,
                                        trim_spec(rest[1]),
                                    )) {
                                        trim_spec(rest[1]).skip(2)
                                    } else {
                                        trim_spec(rest[1])
                                    },
                                )->Some_0.1,
                                enabled: !(prefix_of("# "@, trim_spec(rest[1])) && !prefix_of(
                                    "# NAME:"@,
                                    trim_spec(rest[1]),
                                )),
                            },
                        ] + parse_lines_spec(rest.skip(2), prev.len() + 1)) =~= (models_of(prev)
                            + seq![
                            EntryModel {
                                name: trim_spec(trim_spec(rest[0]).skip(7)),
                                schedule: cron_line_spec(
                                    if (prefix_of("# "@, trim_spec(rest[1])) && !prefix_of(
                                        "# NAME:"@,
                                        trim_spec(rest[1]),
                                    )) {
                                        trim_spec(rest[1]).skip(2)
                                    } else {
                                        trim_spec(rest[1])
                                    },
                                )->Some_0.0,
                                command: cron_line_spec(
                                    if (prefix_of("# "@, trim_spec(rest[1])) && !prefix_of(
                                        "# NAME:"@,
                                        trim_spec(rest[1]),
                                    )) {
                                        trim_spec(rest[1]).skip(2)
                                    } else {
                                        trim_spec(rest[1])
                                    },
                                )->Some_0.1,
                                enabled: !(prefix_of("# "@, trim_spec(rest[1])) && !prefix_of(
                                    "# NAME:"@,
                                    trim_spec(rest[1]),
                                )),
                            },
                        ]) + parse_lines_spec(rest.skip(2), prev.len() + 1));
                    }
                    i = i + 1;
                } else {
                    // A trailing name line with nothing after it produces
                    // no entry.
                }
            } else if line[0] == '#' {
                proof {
                    assert(rest.drop_first() =~= views_of(lines@).skip(i + 1));
                }
                i = i + 1;
            } else {
                let ghost prev = entries@;
                match parse_cron_line_chars(&line) {
                    Some(p) => {
                        let mut nm: Vec<char> = Vec::new();
                        push_str_chars(&mut nm, "Unnamed (");
                        push_dec(&mut nm, entries.len() as u64 + 1);
                        push_str_chars(&mut nm, ")");
                        let entry = CronEntry {
                            name: string_from_chars(&nm),
                            schedule: p.0,
                            command: p.1,
                            enabled: true,
                        };
                        entries.push(entry);
                        proof {
                            assert(entry@.name =~= unnamed_name(prev.len() + 1));
                            assert(models_of(entries@) =~= models_of(prev) + seq![entry@]);
                            assert(models_of(prev) + (seq![entry@] + parse_lines_spec(
                                rest.drop_first(),
                                prev.len() + 1,
                            )) =~= (models_of(prev) + seq![entry@]) + parse_lines_spec(
                                rest.drop_first(),
                                prev.len() + 1,
                            ));
                        }
                    },
                    None => {},
                }
                proof {
                    assert(rest.drop_first() =~= views_of(lines@).skip(i + 1));
                }
                i = i + 1;
            }
        }
        proof {
            assert(views_of(lines@).skip(i as int) =~= Seq::<Seq<char>>::empty());
            assert(models_of(entries@) + parse_lines_spec(
                Seq::<Seq<char>>::empty(),
                entries@.len() as nat,
            ) =~= models_of(entries@));
        }
        entries
    }

    /// Serializes entries in input order, one crontab block per entry.
    pub fn serialize(entries: &Vec<CronEntry>) -> (r: String)
        ensures
            r@ == serialize_spec(models_of(entries@)),
    {
        let mut out: Vec<char> = Vec::new();
        let mut i: usize = 0;
        proof {
            assert(models_of(entries@).take(0) =~= Seq::<EntryModel>::empty());
        }
        while i < entries.len()
            invariant
                i <= entries@.len(),
                out@ == serialize_spec(models_of(entries@).take(i as int)),
            decreases entries@.len() - i,
        {
            proof {
                lemma_serialize_snoc(models_of(entries@).take(i as int), entries@[i as int]@);
                assert(models_of(entries@).take(i as int).push(entries@[i as int]@)
                    =~= models_of(entries@).take(i + 1));
            }
            let block = entries[i].to_crontab_string();
            push_str_chars(&mut out, block.as_str());
            push_str_chars(&mut out, "\n");
            i = i + 1;
        }
        proof {
            assert(models_of(entries@).take(entries@.len() as int) =~= models_of(entries@));
        }
        string_from_chars(&out)
    }
}

proof fn lemma_serialize_snoc(es: Seq<EntryModel>, e: EntryModel)
    ensures
        serialize_spec(es.push(e)) == serialize_spec(es) + to_crontab_string_spec(e) + "\n"@,
    decreases es.len(),
{
    if es.len() == 0 {
        assert(es.push(e)[0] == e);
        assert(es.push(e).drop_first() =~= Seq::<EntryModel>::empty());
        assert(serialize_spec(es.push(e)) == to_crontab_string_spec(e) + "\n"@ + serialize_spec(
            Seq::<EntryModel>::empty(),
        ));
        assert(to_crontab_string_spec(e) + "\n"@ + Seq::<char>::empty() =~= to_crontab_string_spec(
            e,
        ) + "\n"@);
        assert(serialize_spec(es) + to_crontab_string_spec(e) + "\n"@ =~= to_crontab_string_spec(e)
            + "\n"@);
    } else {
        assert(es.push(e)[0] == es[0]);
        assert(es.push(e).drop_first() =~= es.drop_first().push(e));
        lemma_serialize_snoc(es.drop_first(), e);
        assert(to_crontab_string_spec(es[0]) + "\n"@ + (serialize_spec(es.drop_first())
            + to_crontab_string_spec(e) + "\n"@) =~= (to_crontab_string_spec(es[0]) + "\n"@
            + serialize_spec(es.drop_first())) + to_crontab_string_spec(e) + "\n"@);
    }
}

} // verus!

verus! {

// ---------------------------------------------------------------------------
// The round-trip law: parsing undoes serialization
// ---------------------------------------------------------------------------

/// The name comment line emitted for an entry.
pub open spec fn name_line_of(e: EntryModel) -> Seq<char> {
    "# NAME: "@ + e.name
}

/// The cron line emitted for an entry (commented out when disabled).
pub open spec fn cron_line_text_of(e: EntryModel) -> Seq<char> {
    (if e.enabled {
        Seq::<char>::empty()
    } else {
        "# "@
    }) + e.schedule + " "@ + e.command
}

/// Entries whose content survives the text format: names carry no
/// newline and no surrounding whitespace; the schedule is newline-free,
/// has exactly five single-space-separated segments and does not begin
/// with whitespace (nor, when enabled, make the cron line look like a
/// comment, nor, when disabled, like a name line); the command is
/// non-empty, newline-free and does not end with whitespace.
pub open spec fn entry_serializable(e: EntryModel) -> bool {
    &&& forall|k: int| 0 <= k < e.name.len() ==> e.name[k] != '\n'
    &&& trim_spec(e.name) == e.name
    &&& e.schedule.len() > 0
    &&& !is_space_char(e.schedule[0])
    &&& forall|k: int| 0 <= k < e.schedule.len() ==> e.schedule[k] != '\n'
    &&& count_char(e.schedule, ' ') == 4
    &&& e.command.len() > 0
    &&& !is_space_char(e.command[e.command.len() - 1])
    &&& forall|k: int| 0 <= k < e.command.len() ==> e.command[k] != '\n'
    &&& (e.enabled ==> !prefix_of("# "@, e.schedule + " "@ + e.command))
    &&& (!e.enabled ==> !prefix_of("NAME:"@, e.schedule + " "@ + e.command))
}

pub open spec fn entries_serializable(es: Seq<EntryModel>) -> bool {
    forall|i: int| 0 <= i < es.len() ==> entry_serializable(#[trigger] es[i])
}

/// Splitting a schedule-plus-command line recovers both parts, provided
/// the schedule consists of exactly five single-space-separated segments.
proof fn lemma_splitn_join(s: Seq<char>, c: Seq<char>, n: nat)
    requires
        n >= 2,
        count_char(s, ' ') == n - 2,
    ensures
        splitn_space(s + seq![' '] + c, n) == crate::strutil::split_char(s, ' ') + seq![c],
        crate::strutil::split_char(s, ' ').len() == n - 1,
        join_space(crate::strutil::split_char(s, ' ')) == s,
    decreases n,
{
    let t = s + seq![' '] + c;
    assert(t[s.len() as int] == ' ');
    if n == 2 {
        crate::strutil::lemma_count_char_zero(s, ' ');
        crate::strutil::lemma_find_first_none(s, ' ');
        assert(crate::strutil::split_char(s, ' ') == seq![s]);
        assert forall|k: int| 0 <= k < s.len() implies t[k] != ' ' by {
            assert(t[k] == s[k]);
        }
        crate::strutil::lemma_find_first_exact(t, ' ', s.len() as int);
        assert(t.take(s.len() as int) =~= s);
        assert(t.skip(s.len() as int + 1) =~= c);
        assert(splitn_space(c, 1nat) == seq![c]);
        assert(splitn_space(t, n) == seq![s] + seq![c]);
        assert(seq![s] + seq![c] =~= crate::strutil::split_char(s, ' ') + seq![c]);
        assert(join_space(seq![s]) == s);
    } else {
        crate::strutil::lemma_find_first_props(s, ' ');
        if find_first(s, ' ') is None {
            crate::strutil::lemma_count_char_zero(s, ' ');
            assert(false);
        }
        let i = find_first(s, ' ')->Some_0;
        assert(0 <= i < s.len() && s[i] == ' ');
        assert forall|k: int| 0 <= k < i implies t[k] != ' ' by {
            assert(t[k] == s[k]);
        }
        assert(t[i] == s[i]);
        crate::strutil::lemma_find_first_exact(t, ' ', i);
        // The space count splits around position i.
        let pre = s.take(i);
        let tail = s.skip(i + 1);
        assert(s =~= (pre + seq![s[i]]) + tail);
        crate::strutil::lemma_count_char_add(pre + seq![s[i]], tail, ' ');
        crate::strutil::lemma_count_char_add(pre, seq![s[i]], ' ');
        crate::strutil::lemma_count_char_singleton(s[i], ' ');
        crate::strutil::lemma_count_char_zero(pre, ' ');
        assert forall|k: int| 0 <= k < pre.len() implies pre[k] != ' ' by {
            assert(pre[k] == s[k]);
        }
        assert(count_char(pre, ' ') == 0);
        assert(count_char(tail, ' ') == n - 3);
        lemma_splitn_join(tail, c, (n - 1) as nat);
        assert(t.take(i) =~= pre);
        assert(t.skip(i + 1) =~= tail + seq![' '] + c);
        assert(splitn_space(t, n) == seq![pre] + splitn_space(tail + seq![' '] + c, (n - 1) as nat));
        assert(crate::strutil::split_char(s, ' ') == seq![pre] + crate::strutil::split_char(
            tail,
            ' ',
        ));
        assert(seq![pre] + (crate::strutil::split_char(tail, ' ') + seq![c]) =~= (seq![pre]
            + crate::strutil::split_char(tail, ' ')) + seq![c]);
        // Joining back yields s.
        let parts = crate::strutil::split_char(s, ' ');
        assert(parts.len() == n - 1);
        assert(parts[0] == pre);
        assert(parts.drop_first() =~= crate::strutil::split_char(tail, ' '));
        assert(join_space(parts) == pre + seq![' '] + tail);
        assert(pre + seq![' '] + tail =~= s);
    }
}

/// A serializable schedule and command survive the cron-line split.
proof fn lemma_cron_line_round(sched: Seq<char>, cmd: Seq<char>)
    requires
        count_char(sched, ' ') == 4,
    ensures
        cron_line_spec(sched + " "@ + cmd) == Some((sched, cmd)),
{
    reveal_strlit(" ");
    assert(" "@ =~= seq![' ']);
    assert(sched + " "@ + cmd =~= sched + seq![' '] + cmd);
    lemma_splitn_join(sched, cmd, 6);
    let parts = splitn_space(sched + seq![' '] + cmd, 6);
    assert(parts.len() == 6);
    assert(parts.take(5) =~= crate::strutil::split_char(sched, ' '));
    assert(parts[5] == cmd);
}

} // verus!

verus! {

/// The serialized block of one entry contributes exactly its two lines.
proof fn lemma_entry_lines(e: EntryModel, rest: Seq<char>)
    requires
        entry_serializable(e),
    ensures
        split_lines_spec(to_crontab_string_spec(e) + "\n"@ + rest) == seq![
            name_line_of(e),
            cron_line_text_of(e),
        ] + split_lines_spec(rest),
{
    reveal_strlit("\n");
    reveal_strlit("# NAME: ");
    reveal_strlit("# ");
    reveal_strlit(" ");
    let l1 = name_line_of(e);
    let l2 = cron_line_text_of(e);
    assert forall|k: int| 0 <= k < l1.len() implies l1[k] != '\n' by {
        if k < 8 {
            assert(l1[k] == "# NAME: "@[k]);
        } else {
            assert(l1[k] == e.name[k - 8]);
        }
    }
    let pre_len: int = if e.enabled {
        0
    } else {
        2
    };
    assert forall|k: int| 0 <= k < l2.len() implies l2[k] != '\n' by {
        if k < pre_len {
            assert(l2[k] == "# "@[k]);
        } else if k < pre_len + e.schedule.len() {
            assert(l2[k] == e.schedule[k - pre_len]);
        } else if k == pre_len + e.schedule.len() {
            assert(l2[k] == ' ');
        } else {
            assert(l2[k] == e.command[k - pre_len - e.schedule.len() - 1]);
        }
    }
    assert(to_crontab_string_spec(e) + "\n"@ + rest =~= l1 + seq!['\n'] + (l2 + seq!['\n'] + rest));
    crate::strutil::lemma_split_lines_prepend(l2, rest);
    crate::strutil::lemma_split_lines_prepend(l1, l2 + seq!['\n'] + rest);
    assert(seq![l1] + (seq![l2] + split_lines_spec(rest)) =~= seq![l1, l2] + split_lines_spec(
        rest,
    ));
}

/// Scanning the two lines of a serializable entry yields exactly that
/// entry and continues with the count advanced by one.
proof fn lemma_parse_step(e: EntryModel, tail: Seq<Seq<char>>, count: nat)
    requires
        entry_serializable(e),
    ensures
        parse_lines_spec(seq![name_line_of(e), cron_line_text_of(e)] + tail, count) == seq![e]
            + parse_lines_spec(tail, count + 1),
{
    reveal_strlit("\n");
    reveal_strlit("# NAME: ");
    reveal_strlit("# NAME:");
    reveal_strlit("# ");
    reveal_strlit(" ");
    reveal_strlit("NAME:");
    let l1 = name_line_of(e);
    let l2 = cron_line_text_of(e);
    let lines = seq![l1, l2] + tail;
    assert(lines[0] == l1);
    assert(lines[1] == l2);
    assert(lines.len() >= 2);

    // The name line trims to itself, or to `# NAME:` when the name is empty.
    let line = trim_spec(lines[0]);
    if e.name.len() == 0 {
        assert(l1 =~= "# NAME: "@);
        crate::strutil::lemma_trim_start_all(l1, 0);
        assert(l1.skip(0) =~= l1);
        crate::strutil::lemma_trim_end_all(l1, 7);
        assert(line == l1.take(7));
        assert(line.len() == 7);
        assert forall|k: int| 0 <= k < 7 implies line[k] == "# NAME:"@[k] by {
            assert(line[k] == l1[k]);
        }
    } else {
        crate::strutil::lemma_trim_fixed_ends(e.name);
        assert(l1[0] == '#');
        assert(l1[l1.len() - 1] == e.name[e.name.len() - 1]);
        crate::strutil::lemma_trim_id(l1);
        assert(line == l1);
        assert forall|k: int| 0 <= k < 7 implies line[k] == "# NAME:"@[k] by {
            assert(line[k] == "# NAME: "@[k]);
        }
    }
    assert(line.len() > 0);
    assert(prefix_of("# NAME:"@, line));

    // Recovering the name.
    let nm = trim_spec(line.skip(7));
    if e.name.len() == 0 {
        assert(line.skip(7) =~= Seq::<char>::empty());
        assert(nm == e.name);
    } else {
        let s7 = line.skip(7);
        assert(s7 =~= seq![' '] + e.name);
        crate::strutil::lemma_trim_fixed_ends(e.name);
        crate::strutil::lemma_trim_start_all(s7, 1);
        assert(s7.skip(1) =~= e.name);
        crate::strutil::lemma_trim_end_all(e.name, e.name.len() as int);
        assert(e.name.take(e.name.len() as int) =~= e.name);
        assert(nm == e.name);
    }

    // The cron line trims to itself.
    let cl = e.schedule + " "@ + e.command;
    assert(" "@ =~= seq![' ']);
    assert(cl[0] == e.schedule[0]);
    assert(cl[cl.len() - 1] == e.command[e.command.len() - 1]);
    let next = trim_spec(lines[1]);
    if e.enabled {
        assert(l2 =~= cl);
        crate::strutil::lemma_trim_id(l2);
        assert(next == l2);
        assert(!prefix_of("# "@, next));
        let cron = next;
        lemma_cron_line_round(e.schedule, e.command);
        assert(cl =~= e.schedule + " "@ + e.command);
        assert(cron =~= cl);
        assert(cron_line_spec(cron) == Some((e.schedule, e.command)));
        let made = EntryModel {
            name: nm,
            schedule: e.schedule,
            command: e.command,
            enabled: true,
        };
        assert(made == e);
        assert(lines.skip(2) =~= tail);
    } else {
        assert(l2 =~= "# "@ + cl);
        assert(l2[0] == '#');
        assert(l2[l2.len() - 1] == e.command[e.command.len() - 1]);
        crate::strutil::lemma_trim_id(l2);
        assert(next == l2);
        assert(prefix_of("# "@, next)) by {
            assert(next[0] == '#' && next[1] == ' ');
        }
        assert(!prefix_of("# NAME:"@, next)) by {
            if prefix_of("# NAME:"@, next) {
                assert(next.len() >= 7);
                assert(cl.len() >= 5);
                assert forall|k: int| 0 <= k < 5 implies cl[k] == "NAME:"@[k] by {
                    assert(next[k + 2] == "# NAME:"@[k + 2]);
                    assert(next[k + 2] == cl[k]);
                }
                assert(prefix_of("NAME:"@, cl));
            }
        }
        let cron = next.skip(2);
        assert(cron =~= cl);
        lemma_cron_line_round(e.schedule, e.command);
        assert(cron_line_spec(cron) == Some((e.schedule, e.command)));
        let made = EntryModel {
            name: nm,
            schedule: e.schedule,
            command: e.command,
            enabled: false,
        };
        assert(made == e);
        assert(lines.skip(2) =~= tail);
    }
}

proof fn lemma_round_trip_aux(es: Seq<EntryModel>, count: nat)
    requires
        entries_serializable(es),
    ensures
        parse_lines_spec(split_lines_spec(serialize_spec(es)), count) == es,
    decreases es.len(),
{
    if es.len() == 0 {
        assert(serialize_spec(es) == Seq::<char>::empty());
        assert(split_lines_spec(Seq::<char>::empty()) == Seq::<Seq<char>>::empty());
        assert(parse_lines_spec(Seq::<Seq<char>>::empty(), count) =~= es);
    } else {
        let e = es[0];
        assert(entry_serializable(e));
        let rest = es.drop_first();
        assert forall|i: int| 0 <= i < rest.len() implies entry_serializable(
            #[trigger] rest[i],
        ) by {
            assert(rest[i] == es[i + 1]);
        }
        lemma_entry_lines(e, serialize_spec(rest));
        lemma_parse_step(e, split_lines_spec(serialize_spec(rest)), count);
        lemma_round_trip_aux(rest, count + 1);
        assert(seq![e] + rest =~= es);
    }
}

/// LAW: for every list of serializable entries, parsing the serialized
/// text yields exactly that list — order, fields and enabled flags are
/// all preserved.
pub proof fn lemma_parse_serialize_roundtrip(es: Seq<EntryModel>)
    requires
        entries_serializable(es),
    ensures
        parse_spec(serialize_spec(es)) == es,
{
    lemma_round_trip_aux(es, 0);
}

} // verus!
