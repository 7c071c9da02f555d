//! The launchd calendar-job backend: label derivation, XML escaping,
//! command and schedule validation, descriptor (plist) construction and
//! parsing.  The process and file-system plumbing around these functions
//! lives outside the crate; everything here is pure and verified, except
//! for one trusted wrapper around the deterministic UUID derivation.

use crate::cron_entry::CronEntry;
use crate::strutil::{
    chars_of, contains_char, dec_digits, is_digit_char, parse_u32, parse_u32_spec, prefix_of,
    push_all, push_dec, push_str_chars, split_ws, split_ws_spec, starts_with, starts_with_at,
    string_from_chars, subvec, trim_chars, trim_spec,
};
use vstd::prelude::*;

verus! {

/// The label prefix identifying descriptors managed by this tool.
pub open spec fn label_prefix_spec() -> Seq<char> {
    "com.cronmanager"@
}

/// One of the five fields of a cron expression.
#[derive(Clone, Copy, Debug, PartialEq, Eq, Structural)]
pub enum CronField {
    Minute,
    Hour,
    Day,
    Month,
    Weekday,
}

/// Why a command or schedule was rejected.  Validation happens before any
/// live scheduler state is touched.
#[derive(Clone, Copy, Debug, PartialEq, Eq, Structural)]
pub enum ValidationError {
    /// The command is empty or whitespace-only.
    EmptyCommand,
    /// The command contains a shell metacharacter that could allow
    /// command injection.
    DangerousChar(char),
    /// The schedule uses `@`-shortcut syntax.
    SpecialSyntax,
    /// The schedule does not have exactly five fields.
    WrongFieldCount,
    /// A field uses an unsupported `-` range.
    RangeSyntax(CronField),
    /// A field uses an unsupported `,` list.
    ListSyntax(CronField),
    /// A field uses an unsupported `/` step value.
    StepSyntax(CronField),
    /// A field is neither `*` nor an unsigned integer.
    InvalidValue(CronField),
    /// A field's value lies outside its domain.
    OutOfRange(CronField),
}

pub open spec fn field_name_spec(f: CronField) -> Seq<char> {
    match f {
        CronField::Minute => "minute"@,
        CronField::Hour => "hour"@,
        CronField::Day => "day"@,
        CronField::Month => "month"@,
        CronField::Weekday => "weekday"@,
    }
}

pub open spec fn message_spec(e: ValidationError) -> Seq<char> {
    match e {
        ValidationError::EmptyCommand => "Command cannot be empty"@,
        ValidationError::DangerousChar(c) => "Command contains dangerous character '"@ + seq![c]
            + "'"@,
        ValidationError::SpecialSyntax => "Cron expression contains unsupported special syntax"@,
        ValidationError::WrongFieldCount => "Invalid cron expression: expected 5 fields"@,
        ValidationError::RangeSyntax(f) => "Cron expression contains unsupported range in "@
            + field_name_spec(f) + " field"@,
        ValidationError::ListSyntax(f) => "Cron expression contains unsupported list in "@
            + field_name_spec(f) + " field"@,
        ValidationError::StepSyntax(f) => "Cron expression contains unsupported step value in "@
            + field_name_spec(f) + " field"@,
        ValidationError::InvalidValue(f) => "Invalid value in "@ + field_name_spec(f) + " field"@,
        ValidationError::OutOfRange(f) => "Value in "@ + field_name_spec(f)
            + " field is out of range"@,
    }
}

fn push_field_name(out: &mut Vec<char>, f: CronField)
    ensures
        final(out)@ == old(out)@ + field_name_spec(f),
{
    match f {
        CronField::Minute => push_str_chars(out, "minute"),
        CronField::Hour => push_str_chars(out, "hour"),
        CronField::Day => push_str_chars(out, "day"),
        CronField::Month => push_str_chars(out, "month"),
        CronField::Weekday => push_str_chars(out, "weekday"),
    }
}

impl ValidationError {
    /// A human-readable description of the failure.
    pub fn message(&self) -> (r: String)
        ensures
            r@ == message_spec(*self),
    {
        let mut out: Vec<char> = Vec::new();
        match self {
            ValidationError::EmptyCommand => {
                push_str_chars(&mut out, "Command cannot be empty");
            },
            ValidationError::DangerousChar(c) => {
                push_str_chars(&mut out, "Command contains dangerous character '");
                out.push(*c);
                push_str_chars(&mut out, "'");
                assert(out@ =~= message_spec(*self));
            },
            ValidationError::SpecialSyntax => {
                push_str_chars(&mut out, "Cron expression contains unsupported special syntax");
            },
            ValidationError::WrongFieldCount => {
                push_str_chars(&mut out, "Invalid cron expression: expected 5 fields");
            },
            ValidationError::RangeSyntax(f) => {
                push_str_chars(&mut out, "Cron expression contains unsupported range in ");
                push_field_name(&mut out, *f);
                push_str_chars(&mut out, " field");
            },
            ValidationError::ListSyntax(f) => {
                push_str_chars(&mut out, "Cron expression contains unsupported list in ");
                push_field_name(&mut out, *f);
                push_str_chars(&mut out, " field");
            },
            ValidationError::StepSyntax(f) => {
                push_str_chars(&mut out, "Cron expression contains unsupported step value in ");
                push_field_name(&mut out, *f);
                push_str_chars(&mut out, " field");
            },
            ValidationError::InvalidValue(f) => {
                push_str_chars(&mut out, "Invalid value in ");
                push_field_name(&mut out, *f);
                push_str_chars(&mut out, " field");
            },
            ValidationError::OutOfRange(f) => {
                push_str_chars(&mut out, "Value in ");
                push_field_name(&mut out, *f);
                push_str_chars(&mut out, " field is out of range");
            },
        }
        string_from_chars(&out)
    }
}

// ---------------------------------------------------------------------------
// XML entity escaping
// ---------------------------------------------------------------------------

/// The escaped form of one character.
pub open spec fn esc_char(c: char) -> Seq<char> {
    if c == '&' {
        "&amp;"@
    } else if c == '<' {
        "&lt;"@
    } else if c == '>' {
        "&gt;"@
    } else if c == '\'' {
        "&apos;"@
    } else if c == '"' {
        "&quot;"@
    } else {
        seq![c]
    }
}

/// Escapes the five XML-reserved characters.
pub open spec fn escape_spec(s: Seq<char>) -> Seq<char>
    decreases s.len(),
{
    if s.len() == 0 {
        Seq::empty()
    } else {
        esc_char(s[0]) + escape_spec(s.drop_first())
    }
}

/// A single left-to-right pass replacing the five entities; everything
/// else is copied verbatim.
pub open spec fn unescape_spec(s: Seq<char>) -> Seq<char>
    decreases s.len(),
{
    if s.len() == 0 {
        Seq::empty()
    } else if prefix_of("&amp;"@, s) && s.len() >= 5 {
        seq!['&'] + unescape_spec(s.skip(5))
    } else if prefix_of("&lt;"@, s) && s.len() >= 4 {
        seq!['<'] + unescape_spec(s.skip(4))
    } else if prefix_of("&gt;"@, s) && s.len() >= 4 {
        seq!['>'] + unescape_spec(s.skip(4))
    } else if prefix_of("&apos;"@, s) && s.len() >= 6 {
        seq!['\''] + unescape_spec(s.skip(6))
    } else if prefix_of("&quot;"@, s) && s.len() >= 6 {
        seq!['"'] + unescape_spec(s.skip(6))
    } else {
        seq![s[0]] + unescape_spec(s.drop_first())
    }
}

proof fn lemma_escape_snoc(s: Seq<char>, c: char)
    ensures
        escape_spec(s.push(c)) == escape_spec(s) + esc_char(c),
    decreases s.len(),
{
    if s.len() == 0 {
        assert(s.push(c)[0] == c);
        assert(s.push(c).drop_first() =~= Seq::<char>::empty());
        assert(escape_spec(s.push(c)) == esc_char(c) + escape_spec(Seq::<char>::empty()));
        assert(esc_char(c) + Seq::<char>::empty() =~= esc_char(c));
        assert(escape_spec(s) + esc_char(c) =~= esc_char(c));
    } else {
        assert(s.push(c)[0] == s[0]);
        assert(s.push(c).drop_first() =~= s.drop_first().push(c));
        lemma_escape_snoc(s.drop_first(), c);
        assert(esc_char(s[0]) + (escape_spec(s.drop_first()) + esc_char(c)) =~= (esc_char(s[0])
            + escape_spec(s.drop_first())) + esc_char(c));
    }
}

/// LAW: unescaping undoes escaping, for every string.
pub proof fn lemma_unescape_escape(s: Seq<char>)
    ensures
        unescape_spec(escape_spec(s)) == s,
    decreases s.len(),
{
    reveal_strlit("&amp;");
    reveal_strlit("&lt;");
    reveal_strlit("&gt;");
    reveal_strlit("&apos;");
    reveal_strlit("&quot;");
    if s.len() == 0 {
    } else {
        let c = s[0];
        let erest = escape_spec(s.drop_first());
        let t = escape_spec(s);
        assert(t == esc_char(c) + erest);
        lemma_unescape_escape(s.drop_first());
        if c == '&' {
            assert(prefix_of("&amp;"@, t));
            assert(t.skip(5) =~= erest);
            assert(seq!['&'] + s.drop_first() =~= s);
        } else if c == '<' {
            assert(!prefix_of("&amp;"@, t)) by {
                if prefix_of("&amp;"@, t) {
                    assert(t[1] == "&amp;"@[1]);
                }
            }
            assert(prefix_of("&lt;"@, t));
            assert(t.skip(4) =~= erest);
            assert(seq!['<'] + s.drop_first() =~= s);
        } else if c == '>' {
            assert(!prefix_of("&amp;"@, t)) by {
                if prefix_of("&amp;"@, t) {
                    assert(t[1] == "&amp;"@[1]);
                }
            }
            assert(!prefix_of("&lt;"@, t)) by {
                if prefix_of("&lt;"@, t) {
                    assert(t[1] == "&lt;"@[1]);
                }
            }
            assert(prefix_of("&gt;"@, t));
            assert(t.skip(4) =~= erest);
            assert(seq!['>'] + s.drop_first() =~= s);
        } else if c == '\'' {
            assert(!prefix_of("&amp;"@, t)) by {
                if prefix_of("&amp;"@, t) {
                    assert(t[2] == "&amp;"@[2]);
                }
            }
            assert(!prefix_of("&lt;"@, t)) by {
                if prefix_of("&lt;"@, t) {
                    assert(t[1] == "&lt;"@[1]);
                }
            }
            assert(!prefix_of("&gt;"@, t)) by {
                if prefix_of("&gt;"@, t) {
                    assert(t[1] == "&gt;"@[1]);
                }
            }
            assert(prefix_of("&apos;"@, t));
            assert(t.skip(6) =~= erest);
            assert(seq!['\''] + s.drop_first() =~= s);
        } else if c == '"' {
            assert(!prefix_of("&amp;"@, t)) by {
                if prefix_of("&amp;"@, t) {
                    assert(t[1] == "&amp;"@[1]);
                }
            }
            assert(!prefix_of("&lt;"@, t)) by {
                if prefix_of("&lt;"@, t) {
                    assert(t[1] == "&lt;"@[1]);
                }
            }
            assert(!prefix_of("&gt;"@, t)) by {
                if prefix_of("&gt;"@, t) {
                    assert(t[1] == "&gt;"@[1]);
                }
            }
            assert(!prefix_of("&apos;"@, t)) by {
                if prefix_of("&apos;"@, t) {
                    assert(t[2] == "&apos;"@[2]);
                }
            }
            assert(prefix_of("&quot;"@, t));
            assert(t.skip(6) =~= erest);
            assert(seq!['"'] + s.drop_first() =~= s);
        } else {
            assert(t[0] == c);
            assert(!prefix_of("&amp;"@, t)) by {
                if prefix_of("&amp;"@, t) {
                    assert(t[0] == "&amp;"@[0]);
                }
            }
            assert(!prefix_of("&lt;"@, t)) by {
                if prefix_of("&lt;"@, t) {
                    assert(t[0] == "&lt;"@[0]);
                }
            }
            assert(!prefix_of("&gt;"@, t)) by {
                if prefix_of("&gt;"@, t) {
                    assert(t[0] == "&gt;"@[0]);
                }
            }
            assert(!prefix_of("&apos;"@, t)) by {
                if prefix_of("&apos;"@, t) {
                    assert(t[0] == "&apos;"@[0]);
                }
            }
            assert(!prefix_of("&quot;"@, t)) by {
                if prefix_of("&quot;"@, t) {
                    assert(t[0] == "&quot;"@[0]);
                }
            }
            assert(t.drop_first() =~= erest);
            assert(seq![c] + s.drop_first() =~= s);
        }
    }
}

/// LAW: on strings in the image of `escape_spec`, escaping also undoes
/// unescaping.  (On arbitrary strings it cannot: a bare `&` unescapes to
/// itself but escapes to `&amp;`.)
pub proof fn lemma_escape_unescape_on_escaped(x: Seq<char>, y: Seq<char>)
    requires
        y == escape_spec(x),
    ensures
        escape_spec(unescape_spec(y)) == y,
{
    lemma_unescape_escape(x);
}

} // verus!

verus! {

/// The launchd backend: directories are fixed at construction time.
pub struct LaunchdScheduler {
    /// Directory holding the live descriptor files.
    pub launch_agents_dir: String,
    /// Directory receiving each job's captured stdout and stderr.
    pub logs_dir: String,
}

// ---------------------------------------------------------------------------
// Command validation
// ---------------------------------------------------------------------------

/// Shell metacharacters that would be passed unescaped into `/bin/sh -c`.
pub open spec fn is_dangerous_char(c: char) -> bool {
    c == '|' || c == '&' || c == ';' || c == '\n' || c == '\r' || c == '`' || c == '$'
}

/// A command is acceptable when it has visible content and none of the
/// dangerous metacharacters.
pub open spec fn command_ok(c: Seq<char>) -> bool {
    trim_spec(c).len() > 0 && forall|k: int| 0 <= k < c.len() ==> !is_dangerous_char(c[k])
}

/// The exact outcome of command validation, including which character is
/// reported: emptiness first, then the metacharacters in a fixed order.
pub open spec fn validate_command_spec(c: Seq<char>) -> Result<(), ValidationError> {
    if trim_spec(c).len() == 0 {
        Err(ValidationError::EmptyCommand)
    } else if c.contains('|') {
        Err(ValidationError::DangerousChar('|'))
    } else if c.contains('&') {
        Err(ValidationError::DangerousChar('&'))
    } else if c.contains(';') {
        Err(ValidationError::DangerousChar(';'))
    } else if c.contains('\n') {
        Err(ValidationError::DangerousChar('\n'))
    } else if c.contains('\r') {
        Err(ValidationError::DangerousChar('\r'))
    } else if c.contains('`') {
        Err(ValidationError::DangerousChar('`'))
    } else if c.contains('$') {
        Err(ValidationError::DangerousChar('$'))
    } else {
        Ok(())
    }
}

// ---------------------------------------------------------------------------
// Cron schedule -> calendar trigger
// ---------------------------------------------------------------------------

/// The calendar trigger: one optional value per cron field; a field is
/// present exactly when the cron field is not `*`.  An all-`*` schedule
/// yields an empty trigger, which launchd runs every minute — a known,
/// accepted divergence from crontab's semantics.
#[derive(Clone, Copy, Debug, PartialEq, Eq)]
pub struct CalendarTrigger {
    pub minute: Option<u8>,
    pub hour: Option<u8>,
    pub day: Option<u8>,
    pub month: Option<u8>,
    /// Days of the week 0 through 6; a cron `7` is normalized to `0`.
    pub weekday: Option<u8>,
}

pub open spec fn field_kind(i: int) -> CronField {
    if i == 0 {
        CronField::Minute
    } else if i == 1 {
        CronField::Hour
    } else if i == 2 {
        CronField::Day
    } else if i == 3 {
        CronField::Month
    } else {
        CronField::Weekday
    }
}

/// Inclusive domain of field `i`.
pub open spec fn field_domain(i: int) -> (nat, nat) {
    crate::cron_entry::cron_field_bounds(i)
}

/// Validation of one field: ranges, lists and steps are unsupported by
/// the target model; otherwise the field must be `*` or an in-domain
/// unsigned integer.
pub open spec fn field_error_spec(f: Seq<char>, i: int) -> Option<ValidationError> {
    if f.contains('-') {
        Some(ValidationError::RangeSyntax(field_kind(i)))
    } else if f.contains(',') {
        Some(ValidationError::ListSyntax(field_kind(i)))
    } else if f.contains('/') {
        Some(ValidationError::StepSyntax(field_kind(i)))
    } else if f == seq!['*'] {
        None
    } else if parse_u32_spec(f) is None {
        Some(ValidationError::InvalidValue(field_kind(i)))
    } else if !(field_domain(i).0 <= parse_u32_spec(f)->Some_0 <= field_domain(i).1) {
        Some(ValidationError::OutOfRange(field_kind(i)))
    } else {
        None
    }
}

/// The first failing field, scanning minute through weekday.
pub open spec fn first_field_error(fields: Seq<Seq<char>>, i: int) -> Option<ValidationError>
    decreases 5 - i,
{
    if i < 0 || i >= 5 || i >= fields.len() {
        None
    } else {
        match field_error_spec(fields[i], i) {
            Some(e) => Some(e),
            None => first_field_error(fields, i + 1),
        }
    }
}

pub open spec fn trigger_field(f: Seq<char>) -> Option<u8> {
    if f == seq!['*'] {
        None
    } else {
        Some(parse_u32_spec(f)->Some_0 as u8)
    }
}

/// The trigger built from five validated fields.
pub open spec fn trigger_of(fields: Seq<Seq<char>>) -> CalendarTrigger {
    CalendarTrigger {
        minute: trigger_field(fields[0]),
        hour: trigger_field(fields[1]),
        day: trigger_field(fields[2]),
        month: trigger_field(fields[3]),
        weekday: match trigger_field(fields[4]) {
            Some(v) => if v == 7 {
                Some(0u8)
            } else {
                Some(v)
            },
            None => None,
        },
    }
}

/// The exact outcome of converting a cron schedule: `@`-shortcuts are
/// rejected first, then the field count, then each field in order.
pub open spec fn schedule_to_trigger_spec(s: Seq<char>) -> Result<CalendarTrigger, ValidationError> {
    if s.len() > 0 && s[0] == '@' {
        Err(ValidationError::SpecialSyntax)
    } else {
        let fields = split_ws_spec(s);
        if fields.len() != 5 {
            Err(ValidationError::WrongFieldCount)
        } else {
            match first_field_error(fields, 0) {
                Some(e) => Err(e),
                None => Ok(trigger_of(fields)),
            }
        }
    }
}

/// A schedule the calendar model can express: five fields, each `*` or an
/// in-domain integer.
pub open spec fn trigger_schedule_ok(s: Seq<char>) -> bool {
    schedule_to_trigger_spec(s) is Ok
}

fn field_error_exec(f: &Vec<char>, i: usize, lo: u32, hi: u32, kind: CronField) -> (r: Option<
    ValidationError,
>)
    requires
        i < 5,
        kind == field_kind(i as int),
        lo as nat == field_domain(i as int).0,
        hi as nat == field_domain(i as int).1,
    ensures
        r == field_error_spec(f@, i as int),
{
    if contains_char(f, '-') {
        return Some(ValidationError::RangeSyntax(kind));
    }
    if contains_char(f, ',') {
        return Some(ValidationError::ListSyntax(kind));
    }
    if contains_char(f, '/') {
        return Some(ValidationError::StepSyntax(kind));
    }
    if f.len() == 1 && f[0] == '*' {
        assert(f@ =~= seq!['*']);
        return None;
    }
    assert(f@ != seq!['*']) by {
        if f@ == seq!['*'] {
            assert(f@.len() == 1 && f@[0] == '*');
        }
    }
    match parse_u32(f) {
        None => Some(ValidationError::InvalidValue(kind)),
        Some(v) => {
            if v < lo || v > hi {
                Some(ValidationError::OutOfRange(kind))
            } else {
                None
            }
        },
    }
}

impl LaunchdScheduler {
    /// Creates the backend over the given descriptor and log directories.
    pub fn new(launch_agents_dir: String, logs_dir: String) -> (r: Self)
        ensures
            r.launch_agents_dir@ == launch_agents_dir@,
            r.logs_dir@ == logs_dir@,
    {
        Self { launch_agents_dir, logs_dir }
    }

    /// The display name of this backend.
    pub fn backend_name(&self) -> (r: &'static str)
        ensures
            r@ == "Launchd"@,
    {
        "Launchd"
    }

    /// Escapes the five XML-reserved characters of `text`.
    pub fn escape_xml(&self, text: &str) -> (r: String)
        ensures
            r@ == escape_spec(text@),
    {
        let cs = chars_of(text);
        let mut out: Vec<char> = Vec::new();
        let mut i: usize = 0;
        proof {
            assert(cs@.take(0) =~= Seq::<char>::empty());
        }
        while i < cs.len()
            invariant
                i <= cs@.len(),
                cs@ == text@,
                out@ == escape_spec(cs@.take(i as int)),
            decreases cs@.len() - i,
        {
            proof {
                lemma_escape_snoc(cs@.take(i as int), cs@[i as int]);
                assert(cs@.take(i as int).push(cs@[i as int]) =~= cs@.take(i + 1));
            }
            let c = cs[i];
            if c == '&' {
                push_str_chars(&mut out, "&amp;");
            } else if c == '<' {
                push_str_chars(&mut out, "&lt;");
            } else if c == '>' {
                push_str_chars(&mut out, "&gt;");
            } else if c == '\'' {
                push_str_chars(&mut out, "&apos;");
            } else if c == '"' {
                push_str_chars(&mut out, "&quot;");
            } else {
                out.push(c);
                assert(out@ =~= escape_spec(cs@.take(i as int)) + seq![c]);
            }
            i = i + 1;
        }
        proof {
            assert(cs@.take(cs@.len() as int) =~= cs@);
        }
        string_from_chars(&out)
    }

    /// Replaces the five XML entities in a single left-to-right pass.
    pub fn unescape_xml(&self, text: &str) -> (r: String)
        ensures
            r@ == unescape_spec(text@),
    {
        let cs = chars_of(text);
        let mut out: Vec<char> = Vec::new();
        let mut i: usize = 0;
        let n: usize = cs.len();
        proof {
            assert(cs@.skip(0) =~= cs@);
        }
        while i < n
            invariant
                i <= n,
                n == cs@.len(),
                cs@ == text@,
                out@ + unescape_spec(cs@.skip(i as int)) == unescape_spec(cs@),
            decreases n - i,
        {
            let ghost t = cs@.skip(i as int);
            proof {
                reveal_strlit("&amp;");
                reveal_strlit("&lt;");
                reveal_strlit("&gt;");
                reveal_strlit("&apos;");
                reveal_strlit("&quot;");
                assert(t.len() == n - i);
            }
            if starts_with_at(&cs, i, "&amp;") {
                out.push('&');
                proof {
                    assert(t.skip(5) =~= cs@.skip(i + 5));
                    let before = out@.drop_last();
                    assert(before + seq!['&'] =~= out@);
                    assert(before + (seq!['&'] + unescape_spec(cs@.skip(i + 5))) =~= out@
                        + unescape_spec(cs@.skip(i + 5)));
                }
                i = i + 5;
            } else if starts_with_at(&cs, i, "&lt;") {
                out.push('<');
                proof {
                    assert(t.skip(4) =~= cs@.skip(i + 4));
                    let before = out@.drop_last();
                    assert(before + seq!['<'] =~= out@);
                    assert(before + (seq!['<'] + unescape_spec(cs@.skip(i + 4))) =~= out@
                        + unescape_spec(cs@.skip(i + 4)));
                }
                i = i + 4;
            } else if starts_with_at(&cs, i, "&gt;") {
                out.push('>');
                proof {
                    assert(t.skip(4) =~= cs@.skip(i + 4));
                    let before = out@.drop_last();
                    assert(before + seq!['>'] =~= out@);
                    assert(before + (seq!['>'] + unescape_spec(cs@.skip(i + 4))) =~= out@
                        + unescape_spec(cs@.skip(i + 4)));
                }
                i = i + 4;
            } else if starts_with_at(&cs, i, "&apos;") {
                out.push('\'');
                proof {
                    assert(t.skip(6) =~= cs@.skip(i + 6));
                    let before = out@.drop_last();
                    assert(before + seq!['\''] =~= out@);
                    assert(before + (seq!['\''] + unescape_spec(cs@.skip(i + 6))) =~= out@
                        + unescape_spec(cs@.skip(i + 6)));
                }
                i = i + 6;
            } else if starts_with_at(&cs, i, "&quot;") {
                out.push('"');
                proof {
                    assert(t.skip(6) =~= cs@.skip(i + 6));
                    let before = out@.drop_last();
                    assert(before + seq!['"'] =~= out@);
                    assert(before + (seq!['"'] + unescape_spec(cs@.skip(i + 6))) =~= out@
                        + unescape_spec(cs@.skip(i + 6)));
                }
                i = i + 6;
            } else {
                let c = cs[i];
                out.push(c);
                proof {
                    assert(t[0] == c);
                    assert(t.drop_first() =~= cs@.skip(i + 1));
                    let before = out@.drop_last();
                    assert(before + seq![c] =~= out@);
                    assert(before + (seq![c] + unescape_spec(cs@.skip(i + 1))) =~= out@
                        + unescape_spec(cs@.skip(i + 1)));
                }
                i = i + 1;
            }
        }
        proof {
            assert(cs@.skip(n as int) =~= Seq::<char>::empty());
            assert(out@ + unescape_spec(Seq::<char>::empty()) =~= out@);
        }
        string_from_chars(&out)
    }

    /// Rejects empty or whitespace-only commands and commands containing
    /// shell metacharacters; accepts exactly the others.
    pub fn validate_command(&self, command: &str) -> (r: Result<(), ValidationError>)
        ensures
            r == validate_command_spec(command@),
            r is Ok <==> command_ok(command@),
    {
        let cs = chars_of(command);
        let trimmed = trim_chars(&cs);
        if trimmed.len() == 0 {
            return Err(ValidationError::EmptyCommand);
        }
        if contains_char(&cs, '|') {
            return Err(ValidationError::DangerousChar('|'));
        }
        if contains_char(&cs, '&') {
            return Err(ValidationError::DangerousChar('&'));
        }
        if contains_char(&cs, ';') {
            return Err(ValidationError::DangerousChar(';'));
        }
        if contains_char(&cs, '\n') {
            return Err(ValidationError::DangerousChar('\n'));
        }
        if contains_char(&cs, '\r') {
            return Err(ValidationError::DangerousChar('\r'));
        }
        if contains_char(&cs, '`') {
            return Err(ValidationError::DangerousChar('`'));
        }
        if contains_char(&cs, '$') {
            return Err(ValidationError::DangerousChar('$'));
        }
        proof {
            assert forall|k: int| 0 <= k < command@.len() implies !is_dangerous_char(
                command@[k],
            ) by {
                if is_dangerous_char(command@[k]) {
                    assert(command@.contains(command@[k]));
                }
            }
        }
        Ok(())
    }

    /// Converts a five-field cron schedule into a calendar trigger,
    /// rejecting everything the calendar model cannot express.
    pub fn schedule_to_trigger(&self, schedule: &str) -> (r: Result<
        CalendarTrigger,
        ValidationError,
    >)
        ensures
            r == schedule_to_trigger_spec(schedule@),
    {
        let cs = chars_of(schedule);
        if cs.len() > 0 && cs[0] == '@' {
            return Err(ValidationError::SpecialSyntax);
        }
        let fields = split_ws(&cs);
        if fields.len() != 5 {
            return Err(ValidationError::WrongFieldCount);
        }
        let ghost fs = split_ws_spec(schedule@);
        proof {
            assert(fields@[0]@ == fs[0]);
            assert(fields@[1]@ == fs[1]);
            assert(fields@[2]@ == fs[2]);
            assert(fields@[3]@ == fs[3]);
            assert(fields@[4]@ == fs[4]);
        }
        let e0 = field_error_exec(&fields[0], 0, 0, 59, CronField::Minute);
        if let Some(e) = e0 {
            assert(first_field_error(fs, 0) == Some(e));
            return Err(e);
        }
        assert(first_field_error(fs, 0) == first_field_error(fs, 1));
        let e1 = field_error_exec(&fields[1], 1, 0, 23, CronField::Hour);
        if let Some(e) = e1 {
            assert(first_field_error(fs, 1) == Some(e));
            return Err(e);
        }
        assert(first_field_error(fs, 1) == first_field_error(fs, 2));
        let e2 = field_error_exec(&fields[2], 2, 1, 31, CronField::Day);
        if let Some(e) = e2 {
            assert(first_field_error(fs, 2) == Some(e));
            return Err(e);
        }
        assert(first_field_error(fs, 2) == first_field_error(fs, 3));
        let e3 = field_error_exec(&fields[3], 3, 1, 12, CronField::Month);
        if let Some(e) = e3 {
            assert(first_field_error(fs, 3) == Some(e));
            return Err(e);
        }
        assert(first_field_error(fs, 3) == first_field_error(fs, 4));
        let e4 = field_error_exec(&fields[4], 4, 0, 7, CronField::Weekday);
        if let Some(e) = e4 {
            assert(first_field_error(fs, 4) == Some(e));
            return Err(e);
        }
        assert(first_field_error(fs, 4) == first_field_error(fs, 5));
        assert(first_field_error(fs, 0) == None::<ValidationError>);
        let minute = trigger_field_exec(&fields[0], 0);
        let hour = trigger_field_exec(&fields[1], 1);
        let day = trigger_field_exec(&fields[2], 2);
        let month = trigger_field_exec(&fields[3], 3);
        let wd_raw = trigger_field_exec(&fields[4], 4);
        let weekday = match wd_raw {
            Some(v) => if v == 7 {
                Some(0u8)
            } else {
                Some(v)
            },
            None => None,
        };
        let t = CalendarTrigger { minute, hour, day, month, weekday };
        assert(t == trigger_of(fs));
        Ok(t)
    }
}

/// The value of one validated field, `None` for `*`.
fn trigger_field_exec(f: &Vec<char>, i: usize) -> (r: Option<u8>)
    requires
        i < 5,
        field_error_spec(f@, i as int) is None,
    ensures
        r == trigger_field(f@),
{
    if f.len() == 1 && f[0] == '*' {
        assert(f@ =~= seq!['*']);
        None
    } else {
        assert(f@ != seq!['*']) by {
            if f@ == seq!['*'] {
                assert(f@.len() == 1 && f@[0] == '*');
            }
        }
        match parse_u32(f) {
            Some(v) => {
                assert(parse_u32_spec(f@) is Some);
                assert(v as nat <= field_domain(i as int).1);
                Some(v as u8)
            },
            None => {
                assert(false);
                None
            },
        }
    }
}

} // verus!

verus! {

// ---------------------------------------------------------------------------
// Label derivation
// ---------------------------------------------------------------------------

/// The hyphenated rendering of the version-5 UUID derived from a name in
/// the DNS namespace: a pure function of the name.
pub uninterp spec fn uuid_v5_dns(name: Seq<char>) -> Seq<char>;

/// Relies on `uuid::Uuid::new_v5` — a name-based UUID, deterministic in
/// the namespace and name bytes — with the DNS namespace, rendered by
/// `Display` as 36 hyphenated lowercase hex characters.
#[verifier::external_body]
fn name_uuid(name: &str) -> (r: String)
    ensures
        r@ == uuid_v5_dns(name@),
        r@.len() == 36,
{
    uuid::Uuid::new_v5(&uuid::Uuid::NAMESPACE_DNS, name.as_bytes()).to_string()
}

/// Characters kept in the readable fragment of a label.
pub open spec fn keep_char(c: char) -> bool {
    is_digit_char(c) || ('a' <= c && c <= 'z') || ('A' <= c && c <= 'Z') || c == '_'
}

/// The kept characters of `s`, in order.
pub open spec fn kept_chars(s: Seq<char>) -> Seq<char>
    decreases s.len(),
{
    if s.len() == 0 {
        Seq::empty()
    } else {
        kept_chars(s.drop_last()) + (if keep_char(s.last()) {
            seq![s.last()]
        } else {
            Seq::empty()
        })
    }
}

/// The readable fragment: kept characters, truncated to 32.
pub open spec fn sanitize_spec(s: Seq<char>) -> Seq<char> {
    let k = kept_chars(s);
    if k.len() <= 32 {
        k
    } else {
        k.take(32)
    }
}

/// The label of an entry name: the fixed prefix, the readable fragment,
/// and the name's deterministic UUID, dot-separated.  The UUID part makes
/// labels of distinct names distinct even when their fragments collide.
pub open spec fn label_spec(name: Seq<char>) -> Seq<char> {
    label_prefix_spec() + "."@ + sanitize_spec(name) + "."@ + uuid_v5_dns(name)
}

/// LAW: label derivation is a pure function of the entry name — equal
/// names yield equal labels, on every call and in every process.
pub proof fn lemma_label_deterministic(a: Seq<char>, b: Seq<char>)
    requires
        a == b,
    ensures
        label_spec(a) == label_spec(b),
{
}

fn sanitize_exec(s: &Vec<char>) -> (r: Vec<char>)
    ensures
        r@ == sanitize_spec(s@),
{
    let mut out: Vec<char> = Vec::new();
    let mut i: usize = 0;
    proof {
        assert(s@.take(0) =~= Seq::<char>::empty());
    }
    while i < s.len()
        invariant
            i <= s@.len(),
            out@ == sanitize_spec(s@.take(i as int)),
            out@.len() <= 32,
        decreases s@.len() - i,
    {
        proof {
            assert(s@.take(i + 1).drop_last() =~= s@.take(i as int));
            assert(s@.take(i + 1).last() == s@[i as int]);
        }
        let ghost k = kept_chars(s@.take(i as int));
        let ghost k2 = kept_chars(s@.take(i + 1));
        let c = s[i];
        let keep = crate::strutil::is_digit(c) || ('a' <= c && c <= 'z') || ('A' <= c && c <= 'Z')
            || c == '_';
        if keep && out.len() < 32 {
            out.push(c);
            proof {
                assert(k2 =~= k + seq![c]);
                if k.len() <= 32 {
                    assert(out@ =~= k2);
                    if k2.len() > 32 {
                        assert(out@ =~= k2.take(32));
                    }
                } else {
                    assert(false);
                }
            }
        } else if keep {
            proof {
                assert(k2 =~= k + seq![c]);
                assert(out@.len() == 32);
                assert(k.len() >= 32);
                assert(k2.len() > 32);
                assert(k2.take(32) =~= (if k.len() <= 32 {
                    k
                } else {
                    k.take(32)
                }));
            }
        } else {
            proof {
                assert(k2 =~= k);
            }
        }
        i = i + 1;
    }
    proof {
        assert(s@.take(s@.len() as int) =~= s@);
    }
    out
}

// ---------------------------------------------------------------------------
// Descriptor paths and content
// ---------------------------------------------------------------------------

/// The live descriptor path of a label.
pub open spec fn plist_path_spec(dir: Seq<char>, label: Seq<char>) -> Seq<char> {
    dir + "/"@ + label + ".plist"@
}

pub open spec fn stdout_path_spec(logs_dir: Seq<char>, label: Seq<char>) -> Seq<char> {
    logs_dir + "/"@ + label + ".stdout"@
}

pub open spec fn stderr_path_spec(logs_dir: Seq<char>, label: Seq<char>) -> Seq<char> {
    logs_dir + "/"@ + label + ".stderr"@
}

/// One calendar dictionary line pair.
pub open spec fn dict_entry_spec(key: Seq<char>, v: nat) -> Seq<char> {
    "        <key>"@ + key + "</key>\n        <integer>"@ + dec_digits(v) + "</integer>\n"@
}

/// The calendar dictionary body: only the present fields, in the fixed
/// order month, day, weekday, hour, minute.
pub open spec fn render_calendar_dict_spec(t: CalendarTrigger) -> Seq<char> {
    (match t.month {
        Some(v) => dict_entry_spec("Month"@, v as nat),
        None => Seq::<char>::empty(),
    }) + (match t.day {
        Some(v) => dict_entry_spec("Day"@, v as nat),
        None => Seq::<char>::empty(),
    }) + (match t.weekday {
        Some(v) => dict_entry_spec("Weekday"@, v as nat),
        None => Seq::<char>::empty(),
    }) + (match t.hour {
        Some(v) => dict_entry_spec("Hour"@, v as nat),
        None => Seq::<char>::empty(),
    }) + (match t.minute {
        Some(v) => dict_entry_spec("Minute"@, v as nat),
        None => Seq::<char>::empty(),
    })
}

fn push_dict_entry(out: &mut Vec<char>, key: &str, v: u8)
    ensures
        final(out)@ == old(out)@ + dict_entry_spec(key@, v as nat),
{
    push_str_chars(out, "        <key>");
    push_str_chars(out, key);
    push_str_chars(out, "</key>\n        <integer>");
    push_dec(out, v as u64);
    push_str_chars(out, "</integer>\n");
    assert(out@ =~= old(out)@ + dict_entry_spec(key@, v as nat));
}

fn render_calendar_dict(t: &CalendarTrigger) -> (r: Vec<char>)
    ensures
        r@ == render_calendar_dict_spec(*t),
{
    let mut out: Vec<char> = Vec::new();
    if let Some(v) = t.month {
        push_dict_entry(&mut out, "Month", v);
    }
    if let Some(v) = t.day {
        push_dict_entry(&mut out, "Day", v);
    }
    if let Some(v) = t.weekday {
        push_dict_entry(&mut out, "Weekday", v);
    }
    if let Some(v) = t.hour {
        push_dict_entry(&mut out, "Hour", v);
    }
    if let Some(v) = t.minute {
        push_dict_entry(&mut out, "Minute", v);
    }
    assert(out@ =~= render_calendar_dict_spec(*t));
    out
}

/// The full descriptor document for an entry whose command and schedule
/// passed validation.
pub open spec fn plist_content_spec(logs_dir: Seq<char>, e: crate::cron_entry::EntryModel) -> Seq<
    char,
> {
    let label = label_spec(e.name);
    "<?xml version=\"1.0\" encoding=\"UTF-8\"?>\n<!DOCTYPE plist PUBLIC \"-//Apple//DTD PLIST 1.0//EN\" \"http://www.apple.com/DTDs/PropertyList-1.0.dtd\">\n<plist version=\"1.0\">\n<dict>\n    <key>Label</key>\n    <string>"@
        + label
        + "</string>\n    <key>CronManagerTaskName</key>\n    <string>"@
        + escape_spec(e.name)
        + "</string>\n    <key>ProgramArguments</key>\n    <array>\n        <string>/bin/sh</string>\n        <string>-c</string>\n        <string>"@
        + escape_spec(e.command)
        + "</string>\n    </array>\n    <key>StartCalendarInterval</key>\n    <dict>\n"@
        + render_calendar_dict_spec(schedule_to_trigger_spec(e.schedule)->Ok_0)
        + "    </dict>\n    <key>StandardOutPath</key>\n    <string>"@
        + stdout_path_spec(logs_dir, label)
        + "</string>\n    <key>StandardErrorPath</key>\n    <string>"@
        + stderr_path_spec(logs_dir, label)
        + "</string>\n</dict>\n</plist>\n"@
}

impl LaunchdScheduler {
    /// The label under which an entry is registered: deterministic in the
    /// entry name, so re-saving the same entries never orphans old jobs.
    pub fn entry_to_label(&self, entry: &CronEntry) -> (r: String)
        ensures
            r@ == label_spec(entry.name@),
    {
        let uuid = name_uuid(entry.name.as_str());
        let name = chars_of(entry.name.as_str());
        let frag = sanitize_exec(&name);
        let mut out: Vec<char> = Vec::new();
        push_str_chars(&mut out, "com.cronmanager");
        push_str_chars(&mut out, ".");
        push_all(&mut out, &frag);
        push_str_chars(&mut out, ".");
        push_str_chars(&mut out, uuid.as_str());
        assert(out@ =~= label_spec(entry.name@));
        string_from_chars(&out)
    }

    /// The live descriptor path of a label inside the agents directory.
    pub fn plist_path(&self, label: &str) -> (r: String)
        ensures
            r@ == plist_path_spec(self.launch_agents_dir@, label@),
    {
        let mut out: Vec<char> = Vec::new();
        push_str_chars(&mut out, self.launch_agents_dir.as_str());
        push_str_chars(&mut out, "/");
        push_str_chars(&mut out, label);
        push_str_chars(&mut out, ".plist");
        assert(out@ =~= plist_path_spec(self.launch_agents_dir@, label@));
        string_from_chars(&out)
    }

    /// Converts a schedule to the rendered calendar dictionary body,
    /// failing exactly when the conversion fails.
    pub fn cron_to_calendar_interval(&self, schedule: &str) -> (r: Result<String, ValidationError>)
        ensures
            r is Ok <==> schedule_to_trigger_spec(schedule@) is Ok,
            r is Err ==> r->Err_0 == schedule_to_trigger_spec(schedule@)->Err_0,
            r is Ok ==> r->Ok_0@ == render_calendar_dict_spec(
                schedule_to_trigger_spec(schedule@)->Ok_0,
            ),
    {
        match self.schedule_to_trigger(schedule) {
            Ok(t) => {
                let dict = render_calendar_dict(&t);
                Ok(string_from_chars(&dict))
            },
            Err(e) => Err(e),
        }
    }

    /// Builds the descriptor document for an entry: the command is
    /// validated first, then the schedule; nothing is built on failure.
    pub fn create_plist(&self, entry: &CronEntry) -> (r: Result<String, ValidationError>)
        ensures
            r is Ok <==> command_ok(entry.command@) && schedule_to_trigger_spec(entry.schedule@)
                is Ok,
            r is Err ==> r->Err_0 == (if validate_command_spec(entry.command@) is Err {
                validate_command_spec(entry.command@)->Err_0
            } else {
                schedule_to_trigger_spec(entry.schedule@)->Err_0
            }),
            r is Ok ==> r->Ok_0@ == plist_content_spec(self.logs_dir@, entry@),
    {
        if let Err(e) = self.validate_command(entry.command.as_str()) {
            return Err(e);
        }
        let label = self.entry_to_label(entry);
        let trigger = match self.schedule_to_trigger(entry.schedule.as_str()) {
            Ok(t) => t,
            Err(e) => {
                return Err(e);
            },
        };
        let calendar = render_calendar_dict(&trigger);
        let escaped_name = self.escape_xml(entry.name.as_str());
        let escaped_command = self.escape_xml(entry.command.as_str());
        let mut out: Vec<char> = Vec::new();
        push_str_chars(
            &mut out,
            "<?xml version=\"1.0\" encoding=\"UTF-8\"?>\n<!DOCTYPE plist PUBLIC \"-//Apple//DTD PLIST 1.0//EN\" \"http://www.apple.com/DTDs/PropertyList-1.0.dtd\">\n<plist version=\"1.0\">\n<dict>\n    <key>Label</key>\n    <string>",
        );
        push_str_chars(&mut out, label.as_str());
        push_str_chars(&mut out, "</string>\n    <key>CronManagerTaskName</key>\n    <string>");
        push_str_chars(&mut out, escaped_name.as_str());
        push_str_chars(
            &mut out,
            "</string>\n    <key>ProgramArguments</key>\n    <array>\n        <string>/bin/sh</string>\n        <string>-c</string>\n        <string>",
        );
        push_str_chars(&mut out, escaped_command.as_str());
        push_str_chars(
            &mut out,
            "</string>\n    </array>\n    <key>StartCalendarInterval</key>\n    <dict>\n",
        );
        push_all(&mut out, &calendar);
        push_str_chars(&mut out, "    </dict>\n    <key>StandardOutPath</key>\n    <string>");
        push_str_chars(&mut out, self.logs_dir.as_str());
        push_str_chars(&mut out, "/");
        push_str_chars(&mut out, label.as_str());
        push_str_chars(&mut out, ".stdout");
        push_str_chars(&mut out, "</string>\n    <key>StandardErrorPath</key>\n    <string>");
        push_str_chars(&mut out, self.logs_dir.as_str());
        push_str_chars(&mut out, "/");
        push_str_chars(&mut out, label.as_str());
        push_str_chars(&mut out, ".stderr");
        push_str_chars(&mut out, "</string>\n</dict>\n</plist>\n");
        assert(out@ =~= plist_content_spec(self.logs_dir@, entry@));
        Ok(string_from_chars(&out))
    }
}

} // verus!

verus! {

// ---------------------------------------------------------------------------
// The conversion law: exactly the non-`*` fields, in domain
// ---------------------------------------------------------------------------

/// A field the calendar model accepts: `*`, or a digit string whose value
/// lies in the field's domain.
pub open spec fn field_acceptable(f: Seq<char>, i: int) -> bool {
    ||| f == seq!['*']
    ||| (f.len() > 0 && crate::strutil::all_digits(f) && field_domain(i).0 <= crate::strutil::dec_val(
        f,
    ) <= field_domain(i).1)
}

proof fn lemma_field_error_none(f: Seq<char>, i: int)
    requires
        0 <= i < 5,
    ensures
        field_error_spec(f, i) is None <==> field_acceptable(f, i),
{
    if field_error_spec(f, i) is None {
        if f != seq!['*'] {
            assert(parse_u32_spec(f) is Some);
            crate::strutil::lemma_dec_val_nonneg(f);
            assert(field_acceptable(f, i));
        }
    }
    if field_acceptable(f, i) {
        if f == seq!['*'] {
            assert(!f.contains('-')) by {
                if f.contains('-') {
                    let k = choose|k: int| 0 <= k < f.len() && f[k] == '-';
                    assert(f[k] == '*');
                }
            }
            assert(!f.contains(',')) by {
                if f.contains(',') {
                    let k = choose|k: int| 0 <= k < f.len() && f[k] == ',';
                    assert(f[k] == '*');
                }
            }
            assert(!f.contains('/')) by {
                if f.contains('/') {
                    let k = choose|k: int| 0 <= k < f.len() && f[k] == '/';
                    assert(f[k] == '*');
                }
            }
        } else {
            assert(f.len() > 0 && crate::strutil::all_digits(f));
            assert(!f.contains('-')) by {
                if f.contains('-') {
                    let k = choose|k: int| 0 <= k < f.len() && f[k] == '-';
                    assert(is_digit_char(f[k]));
                }
            }
            assert(!f.contains(',')) by {
                if f.contains(',') {
                    let k = choose|k: int| 0 <= k < f.len() && f[k] == ',';
                    assert(is_digit_char(f[k]));
                }
            }
            assert(!f.contains('/')) by {
                if f.contains('/') {
                    let k = choose|k: int| 0 <= k < f.len() && f[k] == '/';
                    assert(is_digit_char(f[k]));
                }
            }
            crate::strutil::lemma_dec_val_nonneg(f);
            assert(field_domain(i).1 <= 59);
            assert(parse_u32_spec(f) is Some);
        }
    }
}

/// LAW: the conversion succeeds exactly for schedules of five fields,
/// each `*` or an in-domain digit string (and no `@` shortcut); the
/// trigger then holds exactly the non-`*` fields, with their parsed
/// values, the weekday normalized so that 7 becomes 0.  Any field with
/// range, list or step syntax, a non-numeric value, or an out-of-domain
/// value makes it fail.
pub proof fn lemma_trigger_exactly_non_star(s: Seq<char>)
    ensures
        schedule_to_trigger_spec(s) is Ok <==> {
            &&& !(s.len() > 0 && s[0] == '@')
            &&& split_ws_spec(s).len() == 5
            &&& forall|i: int| 0 <= i < 5 ==> field_acceptable(#[trigger] split_ws_spec(s)[i], i)
        },
        schedule_to_trigger_spec(s) is Ok ==> {
            let fields = split_ws_spec(s);
            let t = schedule_to_trigger_spec(s)->Ok_0;
            &&& (t.minute is Some <==> fields[0] != seq!['*'])
            &&& (t.hour is Some <==> fields[1] != seq!['*'])
            &&& (t.day is Some <==> fields[2] != seq!['*'])
            &&& (t.month is Some <==> fields[3] != seq!['*'])
            &&& (t.weekday is Some <==> fields[4] != seq!['*'])
            &&& (fields[0] != seq!['*'] ==> t.minute->Some_0 as int == crate::strutil::dec_val(
                fields[0],
            ))
            &&& (fields[1] != seq!['*'] ==> t.hour->Some_0 as int == crate::strutil::dec_val(
                fields[1],
            ))
            &&& (fields[2] != seq!['*'] ==> t.day->Some_0 as int == crate::strutil::dec_val(
                fields[2],
            ))
            &&& (fields[3] != seq!['*'] ==> t.month->Some_0 as int == crate::strutil::dec_val(
                fields[3],
            ))
            &&& (fields[4] != seq!['*'] ==> t.weekday->Some_0 as int == (
            if crate::strutil::dec_val(fields[4]) == 7 {
                0int
            } else {
                crate::strutil::dec_val(fields[4])
            }))
        },
{
    let fields = split_ws_spec(s);
    if !(s.len() > 0 && s[0] == '@') && fields.len() == 5 {
        lemma_field_error_none(fields[0], 0);
        lemma_field_error_none(fields[1], 1);
        lemma_field_error_none(fields[2], 2);
        lemma_field_error_none(fields[3], 3);
        lemma_field_error_none(fields[4], 4);
        assert(first_field_error(fields, 5) == None::<ValidationError>);
        if forall|i: int| 0 <= i < 5 ==> field_acceptable(#[trigger] fields[i], i) {
            assert(field_error_spec(fields[0], 0) is None);
            assert(field_error_spec(fields[1], 1) is None);
            assert(field_error_spec(fields[2], 2) is None);
            assert(field_error_spec(fields[3], 3) is None);
            assert(field_error_spec(fields[4], 4) is None);
            assert(first_field_error(fields, 0) == None::<ValidationError>);
        }
        if first_field_error(fields, 0) is None {
            assert(field_error_spec(fields[0], 0) is None);
            assert(first_field_error(fields, 1) is None);
            assert(field_error_spec(fields[1], 1) is None);
            assert(first_field_error(fields, 2) is None);
            assert(field_error_spec(fields[2], 2) is None);
            assert(first_field_error(fields, 3) is None);
            assert(field_error_spec(fields[3], 3) is None);
            assert(first_field_error(fields, 4) is None);
            assert(field_error_spec(fields[4], 4) is None);
        }
        if schedule_to_trigger_spec(s) is Ok {
            if fields[0] != seq!['*'] {
                crate::strutil::lemma_dec_val_nonneg(fields[0]);
            }
            if fields[1] != seq!['*'] {
                crate::strutil::lemma_dec_val_nonneg(fields[1]);
            }
            if fields[2] != seq!['*'] {
                crate::strutil::lemma_dec_val_nonneg(fields[2]);
            }
            if fields[3] != seq!['*'] {
                crate::strutil::lemma_dec_val_nonneg(fields[3]);
            }
            if fields[4] != seq!['*'] {
                crate::strutil::lemma_dec_val_nonneg(fields[4]);
            }
        }
    }
}

} // verus!

verus! {

// ---------------------------------------------------------------------------
// Reading descriptors back
// ---------------------------------------------------------------------------

pub open spec fn key_pattern(key: Seq<char>) -> Seq<char> {
    "<key>"@ + key + "</key>"@
}

/// The text between `open` and `close` after the first occurrence of
/// `kp`, scanning left to right.
pub open spec fn extract_tagged_spec(
    content: Seq<char>,
    kp: Seq<char>,
    open: Seq<char>,
    close: Seq<char>,
) -> Option<Seq<char>> {
    match crate::strutil::find_sub_first(content, kp) {
        None => None,
        Some(p) => {
            let after = content.skip(p + kp.len());
            match crate::strutil::find_sub_first(after, open) {
                None => None,
                Some(q) => {
                    let after2 = after.skip(q + open.len());
                    match crate::strutil::find_sub_first(after2, close) {
                        None => None,
                        Some(r) => Some(after2.take(r)),
                    }
                },
            }
        },
    }
}

/// The first `<string>` value following `<key>key</key>`.
pub open spec fn extract_xml_value_spec(content: Seq<char>, key: Seq<char>) -> Option<Seq<char>> {
    extract_tagged_spec(content, key_pattern(key), "<string>"@, "</string>"@)
}

/// The first `<integer>` value following `<key>key</key>`.
pub open spec fn extract_calendar_value_spec(content: Seq<char>, key: Seq<char>) -> Option<
    Seq<char>,
> {
    extract_tagged_spec(content, key_pattern(key), "<integer>"@, "</integer>"@)
}

fn extract_tagged(cs: &Vec<char>, kp: &Vec<char>, open: &str, close: &str) -> (r: Option<
    Vec<char>,
>)
    ensures
        match (r, extract_tagged_spec(cs@, kp@, open@, close@)) {
            (Some(v), Some(w)) => v@ == w,
            (None, None) => true,
            _ => false,
        },
{
    let slen: usize = cs.len();
    proof {
        assert(cs@.skip(0) =~= cs@);
        assert(cs@.len() == slen);
    }
    let p = match find_sub_like(cs, 0, kp) {
        Some(p) => p,
        None => {
            return None;
        },
    };
    let base: usize = p + kp.len();
    let ghost after = cs@.skip(base as int);
    let openv = chars_of(open);
    let q = match find_sub_like(cs, base, &openv) {
        Some(q) => q,
        None => {
            return None;
        },
    };
    let base2: usize = q + openv.len();
    let ghost after2 = cs@.skip(base2 as int);
    proof {
        assert(after.skip((q - base) + openv@.len() as int) =~= cs@.skip(base2 as int));
    }
    let closev = chars_of(close);
    let e = match find_sub_like(cs, base2, &closev) {
        Some(e) => e,
        None => {
            return None;
        },
    };
    let v = subvec(cs, base2, e);
    proof {
        assert(v@ =~= after2.take(e - base2));
    }
    Some(v)
}

/// `find_sub` plus the determination of the relative first occurrence.
fn find_sub_like(cs: &Vec<char>, from: usize, pat: &Vec<char>) -> (r: Option<usize>)
    requires
        from <= cs@.len(),
    ensures
        match r {
            Some(i) => from <= i && i + pat@.len() <= cs@.len() && crate::strutil::find_sub_first(
                cs@.skip(from as int),
                pat@,
            ) == Some(i - from),
            None => crate::strutil::find_sub_first(cs@.skip(from as int), pat@) == None::<int>,
        },
{
    match crate::strutil::find_sub(cs, from, pat) {
        Some(i) => {
            proof {
                crate::strutil::lemma_find_sub_suffix_some(cs@, pat@, from as int, i as int);
            }
            Some(i)
        },
        None => {
            proof {
                crate::strutil::lemma_find_sub_suffix_none(cs@, pat@, from as int);
            }
            None
        },
    }
}

/// The shell command of a descriptor: the third `<string>` element after
/// the `ProgramArguments` key (following `/bin/sh` and `-c`), decoded.
pub open spec fn extract_command_spec(content: Seq<char>) -> Option<Seq<char>> {
    match crate::strutil::find_sub_first(content, "<key>ProgramArguments</key>"@) {
        None => None,
        Some(p) => {
            let a0 = content.skip(p);
            match crate::strutil::find_sub_first(a0, "<string>"@) {
                None => None,
                Some(q1) => {
                    let a1 = a0.skip(q1 + 8);
                    match crate::strutil::find_sub_first(a1, "<string>"@) {
                        None => None,
                        Some(q2) => {
                            let a2 = a1.skip(q2 + 8);
                            match crate::strutil::find_sub_first(a2, "<string>"@) {
                                None => None,
                                Some(q3) => {
                                    let a3 = a2.skip(q3 + 8);
                                    match crate::strutil::find_sub_first(a3, "</string>"@) {
                                        None => None,
                                        Some(e) => Some(unescape_spec(a3.take(e))),
                                    }
                                },
                            }
                        },
                    }
                },
            }
        },
    }
}

/// The five-field cron string recovered from a descriptor's calendar
/// dictionary: absent fields come back as `*`, the weekday as stored.
pub open spec fn calendar_field_or_star(content: Seq<char>, key: Seq<char>) -> Seq<char> {
    match extract_calendar_value_spec(content, key) {
        Some(v) => v,
        None => "*"@,
    }
}

pub open spec fn extract_calendar_to_cron_spec(content: Seq<char>) -> Seq<char> {
    calendar_field_or_star(content, "Minute"@) + " "@ + calendar_field_or_star(content, "Hour"@)
        + " "@ + calendar_field_or_star(content, "Day"@) + " "@ + calendar_field_or_star(
        content,
        "Month"@,
    ) + " "@ + calendar_field_or_star(content, "Weekday"@)
}

/// The display name recovered from a legacy descriptor without an
/// embedded name: the label's readable fragment, underscores as spaces.
pub open spec fn fallback_name_spec(content: Seq<char>) -> Seq<char> {
    let label = match extract_xml_value_spec(content, "Label"@) {
        Some(l) => l,
        None => "Unknown"@,
    };
    let stripped = if prefix_of("com.cronmanager."@, label) {
        label.skip(16)
    } else {
        label
    };
    let first = match crate::strutil::find_first(stripped, '.') {
        None => stripped,
        Some(i) => {
            if 0 <= i <= stripped.len() {
                stripped.take(i)
            } else {
                stripped
            }
        },
    };
    first.map_values(|c: char| if c == '_' {
        ' '
    } else {
        c
    })
}

/// The entry described by a descriptor document.
pub open spec fn parse_plist_spec(content: Seq<char>) -> crate::cron_entry::EntryModel {
    crate::cron_entry::EntryModel {
        name: match extract_xml_value_spec(content, "CronManagerTaskName"@) {
            Some(t) => unescape_spec(t),
            None => fallback_name_spec(content),
        },
        schedule: extract_calendar_to_cron_spec(content),
        command: match extract_command_spec(content) {
            Some(c) => c,
            None => Seq::empty(),
        },
        enabled: true,
    }
}

impl LaunchdScheduler {
    /// The first `<string>` value following `<key>key</key>`, if any.
    pub fn extract_xml_value(&self, content: &str, key: &str) -> (r: Option<String>)
        ensures
            match (r, extract_xml_value_spec(content@, key@)) {
                (Some(v), Some(w)) => v@ == w,
                (None, None) => true,
                _ => false,
            },
    {
        let cs = chars_of(content);
        let mut kp: Vec<char> = Vec::new();
        push_str_chars(&mut kp, "<key>");
        push_str_chars(&mut kp, key);
        push_str_chars(&mut kp, "</key>");
        assert(kp@ =~= key_pattern(key@));
        match extract_tagged(&cs, &kp, "<string>", "</string>") {
            Some(v) => Some(string_from_chars(&v)),
            None => None,
        }
    }

    /// The first `<integer>` value following `<key>key</key>`, if any.
    pub fn extract_calendar_value(&self, content: &str, key: &str) -> (r: Option<String>)
        ensures
            match (r, extract_calendar_value_spec(content@, key@)) {
                (Some(v), Some(w)) => v@ == w,
                (None, None) => true,
                _ => false,
            },
    {
        let cs = chars_of(content);
        let mut kp: Vec<char> = Vec::new();
        push_str_chars(&mut kp, "<key>");
        push_str_chars(&mut kp, key);
        push_str_chars(&mut kp, "</key>");
        assert(kp@ =~= key_pattern(key@));
        match extract_tagged(&cs, &kp, "<integer>", "</integer>") {
            Some(v) => Some(string_from_chars(&v)),
            None => None,
        }
    }

    /// The decoded shell command inside the program-argument list, if the
    /// descriptor has one.
    pub fn extract_command(&self, content: &str) -> (r: Option<String>)
        ensures
            match (r, extract_command_spec(content@)) {
                (Some(v), Some(w)) => v@ == w,
                (None, None) => true,
                _ => false,
            },
    {
        let cs = chars_of(content);
        let slen: usize = cs.len();
        proof {
            assert(cs@.len() == slen);
        }
        let pa = chars_of("<key>ProgramArguments</key>");
        let p = match find_sub_like(&cs, 0, &pa) {
            Some(p) => {
                proof {
                    assert(cs@.skip(0) =~= cs@);
                }
                p
            },
            None => {
                proof {
                    assert(cs@.skip(0) =~= cs@);
                }
                return None;
            },
        };
        let sv = chars_of("<string>");
        proof {
            reveal_strlit("<string>");
        }
        let ghost a0 = cs@.skip(p as int);
        let q1 = match find_sub_like(&cs, p, &sv) {
            Some(q) => q,
            None => {
                return None;
            },
        };
        let b1: usize = q1 + sv.len();
        let ghost a1 = cs@.skip(b1 as int);
        proof {
            assert(a0.skip((q1 - p) + 8) =~= cs@.skip(b1 as int));
        }
        let q2 = match find_sub_like(&cs, b1, &sv) {
            Some(q) => q,
            None => {
                return None;
            },
        };
        let b2: usize = q2 + sv.len();
        let ghost a2 = cs@.skip(b2 as int);
        proof {
            assert(a1.skip((q2 - b1) + 8) =~= cs@.skip(b2 as int));
        }
        let q3 = match find_sub_like(&cs, b2, &sv) {
            Some(q) => q,
            None => {
                return None;
            },
        };
        let b3: usize = q3 + sv.len();
        let ghost a3 = cs@.skip(b3 as int);
        proof {
            assert(a2.skip((q3 - b2) + 8) =~= cs@.skip(b3 as int));
        }
        let ev = chars_of("</string>");
        let e = match find_sub_like(&cs, b3, &ev) {
            Some(e) => e,
            None => {
                return None;
            },
        };
        let raw = subvec(&cs, b3, e);
        proof {
            assert(raw@ =~= a3.take(e - b3));
        }
        let raw_str = string_from_chars(&raw);
        Some(self.unescape_xml(raw_str.as_str()))
    }

    /// The five-field cron string stored in a descriptor's calendar
    /// dictionary; absent fields become `*`.
    pub fn extract_calendar_to_cron(&self, content: &str) -> (r: Option<String>)
        ensures
            r is Some,
            r->Some_0@ == extract_calendar_to_cron_spec(content@),
    {
        let minute = self.calendar_field_or_star_exec(content, "Minute");
        let hour = self.calendar_field_or_star_exec(content, "Hour");
        let day = self.calendar_field_or_star_exec(content, "Day");
        let month = self.calendar_field_or_star_exec(content, "Month");
        let weekday = self.calendar_field_or_star_exec(content, "Weekday");
        let mut out: Vec<char> = Vec::new();
        push_str_chars(&mut out, minute.as_str());
        push_str_chars(&mut out, " ");
        push_str_chars(&mut out, hour.as_str());
        push_str_chars(&mut out, " ");
        push_str_chars(&mut out, day.as_str());
        push_str_chars(&mut out, " ");
        push_str_chars(&mut out, month.as_str());
        push_str_chars(&mut out, " ");
        push_str_chars(&mut out, weekday.as_str());
        assert(out@ =~= extract_calendar_to_cron_spec(content@));
        Some(string_from_chars(&out))
    }

    fn calendar_field_or_star_exec(&self, content: &str, key: &str) -> (r: String)
        ensures
            r@ == calendar_field_or_star(content@, key@),
    {
        match self.extract_calendar_value(content, key) {
            Some(v) => v,
            None => {
                let mut s: Vec<char> = Vec::new();
                push_str_chars(&mut s, "*");
                string_from_chars(&s)
            },
        }
    }

    /// Rebuilds the entry described by a descriptor document.  Read
    /// entries are always enabled: disabled entries have no descriptor.
    pub fn parse_plist_text(&self, content: &str) -> (r: CronEntry)
        ensures
            r@ == parse_plist_spec(content@),
    {
        let name = match self.extract_xml_value(content, "CronManagerTaskName") {
            Some(t) => self.unescape_xml(t.as_str()),
            None => self.fallback_name(content),
        };
        let command = match self.extract_command(content) {
            Some(c) => c,
            None => {
                let empty: Vec<char> = Vec::new();
                string_from_chars(&empty)
            },
        };
        let schedule = match self.extract_calendar_to_cron(content) {
            Some(s) => s,
            None => {
                let empty: Vec<char> = Vec::new();
                string_from_chars(&empty)
            },
        };
        CronEntry { name, schedule, command, enabled: true }
    }

    fn fallback_name(&self, content: &str) -> (r: String)
        ensures
            r@ == fallback_name_spec(content@),
    {
        let label = match self.extract_xml_value(content, "Label") {
            Some(l) => l,
            None => {
                let mut s: Vec<char> = Vec::new();
                push_str_chars(&mut s, "Unknown");
                string_from_chars(&s)
            },
        };
        let lv = chars_of(label.as_str());
        let stripped = if starts_with_at(&lv, 0, "com.cronmanager.") {
            proof {
                reveal_strlit("com.cronmanager.");
                assert(lv@.skip(0) =~= lv@);
            }
            let sub = subvec(&lv, 16, lv.len());
            sub
        } else {
            proof {
                assert(lv@.skip(0) =~= lv@);
            }
            subvec(&lv, 0, lv.len())
        };
        proof {
            assert(lv@.subrange(0, lv@.len() as int) =~= lv@);
        }
        let first = match crate::strutil::find_char(&stripped, 0, '.') {
            None => {
                proof {
                    crate::strutil::lemma_find_first_none(stripped@, '.');
                }
                subvec(&stripped, 0, stripped.len())
            },
            Some(i) => {
                proof {
                    crate::strutil::lemma_find_first_exact(stripped@, '.', i as int);
                }
                subvec(&stripped, 0, i)
            },
        };
        proof {
            assert(stripped@.subrange(0, stripped@.len() as int) =~= stripped@);
        }
        let mut out: Vec<char> = Vec::new();
        let mut i: usize = 0;
        while i < first.len()
            invariant
                i <= first@.len(),
                out@ == first@.subrange(0, i as int).map_values(
                    |c: char|
                        if c == '_' {
                            ' '
                        } else {
                            c
                        },
                ),
            decreases first@.len() - i,
        {
            let c = first[i];
            if c == '_' {
                out.push(' ');
            } else {
                out.push(c);
            }
            proof {
                assert(out@ =~= first@.subrange(0, i + 1).map_values(
                    |c: char|
                        if c == '_' {
                            ' '
                        } else {
                            c
                        },
                ));
            }
            i = i + 1;
        }
        proof {
            assert(first@.subrange(0, first@.len() as int) =~= first@);
        }
        string_from_chars(&out)
    }

    /// The label of a descriptor file managed by this tool, judged from
    /// its file name: the stem of a `.plist` file whose stem starts with
    /// the label prefix.
    pub fn agent_label_of_file_name(&self, file_name: &str) -> (r: Option<String>)
        ensures
            match (r, agent_stem_spec(file_name@)) {
                (Some(v), Some(w)) => v@ == w,
                (None, None) => true,
                _ => false,
            },
    {
        let cs = chars_of(file_name);
        let n = cs.len();
        if n < 7 {
            return None;
        }
        if !starts_with_at(&cs, n - 6, ".plist") {
            proof {
                assert(cs@.skip(n - 6).len() == 6);
                if cs@.skip(n - 6) == ".plist"@ {
                    assert(prefix_of(".plist"@, cs@.skip(n - 6)));
                }
            }
            return None;
        }
        proof {
            reveal_strlit(".plist");
            assert(cs@.skip(n - 6) =~= ".plist"@);
        }
        let stem = subvec(&cs, 0, n - 6);
        if starts_with(&stem, "com.cronmanager") {
            Some(string_from_chars(&stem))
        } else {
            None
        }
    }

    /// Whether a `launchctl bootstrap` invocation counts as success: a
    /// zero exit status, or diagnostics saying the job is already loaded.
    pub fn bootstrap_outcome_ok(&self, status_success: bool, stderr_text: &str) -> (r: bool)
        ensures
            r == bootstrap_ok_spec(status_success, stderr_text@),
    {
        if status_success {
            return true;
        }
        let cs = chars_of(stderr_text);
        let p1 = chars_of("Already loaded");
        proof {
            assert(cs@.skip(0) =~= cs@);
        }
        if find_sub_like(&cs, 0, &p1).is_some() {
            return true;
        }
        let p2 = chars_of("service already loaded");
        if find_sub_like(&cs, 0, &p2).is_some() {
            return true;
        }
        false
    }
}

/// The stem of a managed descriptor file name, if it is one.
pub open spec fn agent_stem_spec(file_name: Seq<char>) -> Option<Seq<char>> {
    if file_name.len() >= 7 && file_name.skip(file_name.len() - 6) == ".plist"@ && prefix_of(
        label_prefix_spec(),
        file_name.take(file_name.len() - 6),
    ) {
        Some(file_name.take(file_name.len() - 6))
    } else {
        None
    }
}

/// A bootstrap invocation that succeeded, or failed only because the job
/// was already loaded.
pub open spec fn bootstrap_ok_spec(status_success: bool, stderr_text: Seq<char>) -> bool {
    ||| status_success
    ||| crate::strutil::find_sub_first(stderr_text, "Already loaded"@) is Some
    ||| crate::strutil::find_sub_first(stderr_text, "service already loaded"@) is Some
}

} // verus!

verus! {

/// LAW: a descriptor file written for a managed label is recognized by
/// the directory listing under exactly that label, so a save is visible
/// to the next load.
pub proof fn lemma_agent_file_name_roundtrip(label: Seq<char>)
    requires
        prefix_of(label_prefix_spec(), label),
    ensures
        agent_stem_spec(label + ".plist"@) == Some(label),
{
    reveal_strlit(".plist");
    reveal_strlit("com.cronmanager");
    let name = label + ".plist"@;
    assert(name.skip(name.len() - 6) =~= ".plist"@);
    assert(name.take(name.len() - 6) =~= label);
}

} // verus!
