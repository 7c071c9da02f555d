//! Character-level helpers shared by the text codec and the descriptor
//! codec: whitespace handling, searching, splitting, joining and decimal
//! conversion, all specified over `Seq<char>`.

use vstd::prelude::*;

verus! {

// ---------------------------------------------------------------------------
// Character classes
// ---------------------------------------------------------------------------

/// The ASCII whitespace characters recognised when trimming and splitting.
pub open spec fn is_space_char(c: char) -> bool {
    c == ' ' || c == '\t' || c == '\n' || c == '\r' || c == '\u{b}' || c == '\u{c}'
}

pub fn is_space(c: char) -> (r: bool)
    ensures
        r == is_space_char(c),
{
    c == ' ' || c == '\t' || c == '\n' || c == '\r' || c == '\u{b}' || c == '\u{c}'
}

pub open spec fn is_digit_char(c: char) -> bool {
    '0' <= c && c <= '9'
}

pub fn is_digit(c: char) -> (r: bool)
    ensures
        r == is_digit_char(c),
{
    '0' <= c && c <= '9'
}

// ---------------------------------------------------------------------------
// Conversions between strings and character vectors
// ---------------------------------------------------------------------------

/// Collects the characters of a string slice into a vector.
pub fn chars_of(s: &str) -> (r: Vec<char>)
    ensures
        r@ == s@,
{
    let n = s.unicode_len();
    let mut v: Vec<char> = Vec::new();
    let mut i: usize = 0;
    while i < n
        invariant
            n == s@.len(),
            i <= n,
            v@ == s@.subrange(0, i as int),
        decreases n - i,
    {
        v.push(s.get_char(i));
        i = i + 1;
        assert(v@ =~= s@.subrange(0, i as int));
    }
    assert(s@.subrange(0, n as int) =~= s@);
    v
}

/// Relies on std's `String: FromIterator<char>`: collecting characters
/// yields the string made of exactly those characters, in order.
#[verifier::external_body]
pub fn string_from_chars(v: &Vec<char>) -> (r: String)
    ensures
        r@ == v@,
{
    v.iter().collect()
}

/// Copies the characters of `s` in the index range `[from, to)`.
pub fn subvec(s: &Vec<char>, from: usize, to: usize) -> (r: Vec<char>)
    requires
        from <= to <= s@.len(),
    ensures
        r@ == s@.subrange(from as int, to as int),
{
    let mut v: Vec<char> = Vec::new();
    let mut i: usize = from;
    while i < to
        invariant
            from <= i <= to <= s@.len(),
            v@ == s@.subrange(from as int, i as int),
        decreases to - i,
    {
        v.push(s[i]);
        i = i + 1;
        assert(v@ =~= s@.subrange(from as int, i as int));
    }
    v
}

/// Appends all characters of `t` to `out`.
pub fn push_all(out: &mut Vec<char>, t: &Vec<char>)
    ensures
        final(out)@ == old(out)@ + t@,
{
    let mut i: usize = 0;
    while i < t.len()
        invariant
            i <= t@.len(),
            out@ == old(out)@ + t@.subrange(0, i as int),
        decreases t@.len() - i,
    {
        out.push(t[i]);
        i = i + 1;
        assert(out@ =~= old(out)@ + t@.subrange(0, i as int));
    }
    assert(old(out)@ + t@.subrange(0, t@.len() as int) =~= old(out)@ + t@);
}

/// Appends the characters of a string slice to `out`.
pub fn push_str_chars(out: &mut Vec<char>, t: &str)
    ensures
        final(out)@ == old(out)@ + t@,
{
    let n = t.unicode_len();
    let mut i: usize = 0;
    while i < n
        invariant
            n == t@.len(),
            i <= n,
            out@ == old(out)@ + t@.subrange(0, i as int),
        decreases n - i,
    {
        out.push(t.get_char(i));
        i = i + 1;
        assert(out@ =~= old(out)@ + t@.subrange(0, i as int));
    }
    assert(old(out)@ + t@.subrange(0, n as int) =~= old(out)@ + t@);
}

// ---------------------------------------------------------------------------
// Prefix tests
// ---------------------------------------------------------------------------

/// `p` occurs at the front of `s`.
pub open spec fn prefix_of(p: Seq<char>, s: Seq<char>) -> bool {
    p.len() <= s.len() && forall|i: int| 0 <= i < p.len() ==> s[i] == p[i]
}

/// Tests whether the characters of the string slice `p` are a prefix of
/// `s` starting at index `from`.
pub fn starts_with_at(s: &Vec<char>, from: usize, p: &str) -> (r: bool)
    requires
        from <= s@.len(),
    ensures
        r == prefix_of(p@, s@.skip(from as int)),
{
    let n = p.unicode_len();
    let slen = s.len();
    if slen - from < n {
        return false;
    }
    let mut i: usize = 0;
    while i < n
        invariant
            n == p@.len(),
            slen == s@.len(),
            from + n <= slen,
            i <= n,
            forall|k: int| 0 <= k < i ==> s@[from + k] == p@[k],
        decreases n - i,
    {
        if s[from + i] != p.get_char(i) {
            assert(s@.skip(from as int)[i as int] != p@[i as int]);
            return false;
        }
        i = i + 1;
    }
    assert forall|k: int| 0 <= k < p@.len() implies s@.skip(from as int)[k] == p@[k] by {
        assert(s@[from + k] == p@[k]);
    }
    true
}

pub fn starts_with(s: &Vec<char>, p: &str) -> (r: bool)
    ensures
        r == prefix_of(p@, s@),
{
    let r = starts_with_at(s, 0, p);
    assert(s@.skip(0) =~= s@);
    r
}

// ---------------------------------------------------------------------------
// Searching for a single character
// ---------------------------------------------------------------------------

/// Index of the first occurrence of `c` in `s`, if any.
pub open spec fn find_first(s: Seq<char>, c: char) -> Option<int>
    decreases s.len(),
{
    if s.len() == 0 {
        None
    } else if s[0] == c {
        Some(0int)
    } else {
        match find_first(s.drop_first(), c) {
            None => None,
            Some(i) => Some(i + 1),
        }
    }
}

pub proof fn lemma_find_first_props(s: Seq<char>, c: char)
    ensures
        match find_first(s, c) {
            Some(i) => 0 <= i < s.len() && s[i] == c && forall|k: int| 0 <= k < i ==> s[k] != c,
            None => forall|k: int| 0 <= k < s.len() ==> s[k] != c,
        },
    decreases s.len(),
{
    if s.len() == 0 {
    } else if s[0] == c {
    } else {
        lemma_find_first_props(s.drop_first(), c);
        match find_first(s.drop_first(), c) {
            None => {
                assert forall|k: int| 0 <= k < s.len() implies s[k] != c by {
                    if k > 0 {
                        assert(s.drop_first()[k - 1] == s[k]);
                    }
                }
            },
            Some(i) => {
                assert(s.drop_first()[i] == s[i + 1]);
                assert forall|k: int| 0 <= k < i + 1 implies s[k] != c by {
                    if k > 0 {
                        assert(s.drop_first()[k - 1] == s[k]);
                    }
                }
            },
        }
    }
}

/// The first occurrence is determined by exhibiting it.
pub proof fn lemma_find_first_exact(s: Seq<char>, c: char, i: int)
    requires
        0 <= i < s.len(),
        s[i] == c,
        forall|k: int| 0 <= k < i ==> s[k] != c,
    ensures
        find_first(s, c) == Some(i),
    decreases i,
{
    if i == 0 {
    } else {
        assert(s[0] != c);
        assert(s.drop_first()[i - 1] == s[i]);
        assert forall|k: int| 0 <= k < i - 1 implies s.drop_first()[k] != c by {
            assert(s.drop_first()[k] == s[k + 1]);
        }
        lemma_find_first_exact(s.drop_first(), c, i - 1);
    }
}

pub proof fn lemma_find_first_none(s: Seq<char>, c: char)
    requires
        forall|k: int| 0 <= k < s.len() ==> s[k] != c,
    ensures
        find_first(s, c) == None::<int>,
{
    lemma_find_first_props(s, c);
    if find_first(s, c) is Some {
        let i = find_first(s, c)->Some_0;
        assert(s[i] == c);
        assert(false);
    }
}

/// Finds the first index `>= from` at which `c` occurs in `s`.
pub fn find_char(s: &Vec<char>, from: usize, c: char) -> (r: Option<usize>)
    requires
        from <= s@.len(),
    ensures
        match r {
            Some(i) => from <= i < s@.len() && s@[i as int] == c && forall|k: int|
                from <= k < i ==> s@[k] != c,
            None => forall|k: int| from <= k < s@.len() ==> s@[k] != c,
        },
{
    let mut i: usize = from;
    while i < s.len()
        invariant
            from <= i <= s@.len(),
            forall|k: int| from <= k < i ==> s@[k] != c,
        decreases s@.len() - i,
    {
        if s[i] == c {
            return Some(i);
        }
        i = i + 1;
    }
    None
}

/// Whether `c` occurs in `s` at all.
pub fn contains_char(s: &Vec<char>, c: char) -> (r: bool)
    ensures
        r == s@.contains(c),
{
    match find_char(s, 0, c) {
        Some(i) => {
            assert(s@[i as int] == c);
            true
        },
        None => {
            proof {
                if s@.contains(c) {
                    let i = choose|i: int| 0 <= i < s@.len() && s@[i] == c;
                    assert(s@[i] != c);
                }
            }
            false
        },
    }
}

// ---------------------------------------------------------------------------
// Counting occurrences
// ---------------------------------------------------------------------------

pub open spec fn count_char(s: Seq<char>, c: char) -> nat
    decreases s.len(),
{
    if s.len() == 0 {
        0
    } else {
        (if s[0] == c {
            1nat
        } else {
            0nat
        }) + count_char(s.drop_first(), c)
    }
}

pub proof fn lemma_count_char_add(a: Seq<char>, b: Seq<char>, c: char)
    ensures
        count_char(a + b, c) == count_char(a, c) + count_char(b, c),
    decreases a.len(),
{
    if a.len() == 0 {
        assert(a + b =~= b);
    } else {
        assert((a + b).drop_first() =~= a.drop_first() + b);
        lemma_count_char_add(a.drop_first(), b, c);
    }
}

pub proof fn lemma_count_char_singleton(x: char, c: char)
    ensures
        count_char(seq![x], c) == (if x == c {
            1nat
        } else {
            0nat
        }),
{
    let b = seq![x];
    assert(b.drop_first() =~= Seq::<char>::empty());
    assert(count_char(b.drop_first(), c) == 0);
}

pub proof fn lemma_count_char_zero(s: Seq<char>, c: char)
    ensures
        (count_char(s, c) == 0) <==> (forall|k: int| 0 <= k < s.len() ==> s[k] != c),
    decreases s.len(),
{
    if s.len() == 0 {
    } else {
        lemma_count_char_zero(s.drop_first(), c);
        if s[0] != c && count_char(s.drop_first(), c) == 0 {
            assert forall|k: int| 0 <= k < s.len() implies s[k] != c by {
                if k > 0 {
                    assert(s.drop_first()[k - 1] == s[k]);
                }
            }
        }
        if forall|k: int| 0 <= k < s.len() ==> s[k] != c {
            assert forall|k: int| 0 <= k < s.drop_first().len() implies s.drop_first()[k] != c by {
                assert(s.drop_first()[k] == s[k + 1]);
            }
        }
    }
}

} // verus!

verus! {

// ---------------------------------------------------------------------------
// Trimming
// ---------------------------------------------------------------------------

pub open spec fn trim_start_spec(s: Seq<char>) -> Seq<char>
    decreases s.len(),
{
    if s.len() == 0 {
        s
    } else if is_space_char(s[0]) {
        trim_start_spec(s.drop_first())
    } else {
        s
    }
}

pub open spec fn trim_end_spec(s: Seq<char>) -> Seq<char>
    decreases s.len(),
{
    if s.len() == 0 {
        s
    } else if is_space_char(s[s.len() - 1]) {
        trim_end_spec(s.drop_last())
    } else {
        s
    }
}

/// The string with leading and trailing whitespace removed.
pub open spec fn trim_spec(s: Seq<char>) -> Seq<char> {
    trim_end_spec(trim_start_spec(s))
}

pub proof fn lemma_trim_start_all(s: Seq<char>, i: int)
    requires
        0 <= i <= s.len(),
        forall|k: int| 0 <= k < i ==> is_space_char(s[k]),
        i == s.len() || !is_space_char(s[i]),
    ensures
        trim_start_spec(s) == s.skip(i),
    decreases i,
{
    if i == 0 {
        assert(s.skip(0) =~= s);
    } else {
        assert(is_space_char(s[0]));
        let t = s.drop_first();
        assert forall|k: int| 0 <= k < i - 1 implies is_space_char(t[k]) by {
            assert(t[k] == s[k + 1]);
        }
        if i - 1 < t.len() {
            assert(t[i - 1] == s[i]);
        }
        lemma_trim_start_all(t, i - 1);
        assert(t.skip(i - 1) =~= s.skip(i));
    }
}

pub proof fn lemma_trim_end_all(s: Seq<char>, j: int)
    requires
        0 <= j <= s.len(),
        forall|k: int| j <= k < s.len() ==> is_space_char(s[k]),
        j == 0 || !is_space_char(s[j - 1]),
    ensures
        trim_end_spec(s) == s.take(j),
    decreases s.len(),
{
    if j == s.len() {
        if s.len() == 0 {
            assert(s.take(0) =~= s);
        } else {
            assert(!is_space_char(s[s.len() - 1]));
            assert(s.take(j) =~= s);
        }
    } else {
        assert(is_space_char(s[s.len() - 1]));
        let t = s.drop_last();
        assert forall|k: int| j <= k < t.len() implies is_space_char(t[k]) by {
            assert(t[k] == s[k]);
        }
        if j > 0 {
            assert(t[j - 1] == s[j - 1]);
        }
        lemma_trim_end_all(t, j);
        assert(t.take(j) =~= s.take(j));
    }
}

/// A string whose ends are not whitespace is its own trim.
pub proof fn lemma_trim_id(s: Seq<char>)
    requires
        s.len() == 0 || (!is_space_char(s[0]) && !is_space_char(s[s.len() - 1])),
    ensures
        trim_spec(s) == s,
{
    lemma_trim_start_all(s, 0);
    assert(s.skip(0) =~= s);
    lemma_trim_end_all(s, s.len() as int);
    assert(s.take(s.len() as int) =~= s);
}

/// Removes leading and trailing whitespace.
pub fn trim_chars(s: &Vec<char>) -> (r: Vec<char>)
    ensures
        r@ == trim_spec(s@),
{
    let mut i: usize = 0;
    while i < s.len() && is_space(s[i])
        invariant
            i <= s@.len(),
            forall|k: int| 0 <= k < i ==> is_space_char(s@[k]),
        decreases s@.len() - i,
    {
        i = i + 1;
    }
    proof {
        lemma_trim_start_all(s@, i as int);
    }
    let ghost t = s@.skip(i as int);
    let mut j: usize = s.len();
    while j > i && is_space(s[j - 1])
        invariant
            i <= j <= s@.len(),
            forall|k: int| j <= k < s@.len() ==> is_space_char(s@[k]),
        decreases j,
    {
        j = j - 1;
    }
    proof {
        assert forall|k: int| j - i <= k < t.len() implies is_space_char(t[k]) by {
            assert(t[k] == s@[i + k]);
        }
        if j > i {
            assert(t[j - i - 1] == s@[j - 1]);
        }
        lemma_trim_end_all(t, j - i);
        assert(t.take(j - i) =~= s@.subrange(i as int, j as int));
    }
    subvec(s, i, j)
}

// ---------------------------------------------------------------------------
// Splitting into lines
// ---------------------------------------------------------------------------

/// The views of a vector of character vectors.
pub open spec fn views_of(vs: Seq<Vec<char>>) -> Seq<Seq<char>> {
    vs.map_values(|v: Vec<char>| v@)
}

/// Splits on `'\n'`; a trailing newline does not produce a final empty
/// line, matching how the persisted text format is read back.
pub open spec fn split_lines_spec(s: Seq<char>) -> Seq<Seq<char>>
    decreases s.len(),
{
    if s.len() == 0 {
        Seq::empty()
    } else {
        match find_first(s, '\n') {
            None => seq![s],
            Some(i) => {
                if 0 <= i < s.len() {
                    seq![s.take(i)] + split_lines_spec(s.skip(i + 1))
                } else {
                    seq![s]
                }
            },
        }
    }
}

/// Prepending one newline-free line and a newline prepends one line.
pub proof fn lemma_split_lines_prepend(x: Seq<char>, r: Seq<char>)
    requires
        forall|k: int| 0 <= k < x.len() ==> x[k] != '\n',
    ensures
        split_lines_spec(x + seq!['\n'] + r) == seq![x] + split_lines_spec(r),
{
    let s = x + seq!['\n'] + r;
    assert(s[x.len() as int] == '\n');
    assert forall|k: int| 0 <= k < x.len() implies s[k] != '\n' by {
        assert(s[k] == x[k]);
    }
    lemma_find_first_exact(s, '\n', x.len() as int);
    assert(s.take(x.len() as int) =~= x);
    assert(s.skip(x.len() as int + 1) =~= r);
}

pub fn split_lines(s: &Vec<char>) -> (r: Vec<Vec<char>>)
    ensures
        views_of(r@) == split_lines_spec(s@),
{
    let mut out: Vec<Vec<char>> = Vec::new();
    let mut pos: usize = 0;
    assert(s@.skip(0) =~= s@);
    while pos < s.len()
        invariant
            pos <= s@.len(),
            views_of(out@) + split_lines_spec(s@.skip(pos as int)) == split_lines_spec(s@),
        decreases s@.len() - pos,
    {
        let ghost t = s@.skip(pos as int);
        match find_char(s, pos, '\n') {
            Some(i) => {
                proof {
                    assert(t[i - pos] == s@[i as int]);
                    assert forall|k: int| 0 <= k < i - pos implies t[k] != '\n' by {
                        assert(t[k] == s@[pos + k]);
                    }
                    lemma_find_first_exact(t, '\n', i - pos);
                    assert(t.take(i - pos) =~= s@.subrange(pos as int, i as int));
                    assert(t.skip(i - pos + 1) =~= s@.skip(i + 1));
                }
                let line = subvec(s, pos, i);
                proof {
                    assert(views_of(out@.push(line)) =~= views_of(out@) + seq![line@]);
                    assert(views_of(out@) + (seq![line@] + split_lines_spec(s@.skip(i + 1)))
                        =~= (views_of(out@) + seq![line@]) + split_lines_spec(s@.skip(i + 1)));
                }
                out.push(line);
                pos = i + 1;
            },
            None => {
                proof {
                    assert forall|k: int| 0 <= k < t.len() implies t[k] != '\n' by {
                        assert(t[k] == s@[pos + k]);
                    }
                    lemma_find_first_none(t, '\n');
                    assert(t =~= s@.subrange(pos as int, s@.len() as int));
                }
                let line = subvec(s, pos, s.len());
                proof {
                    assert(views_of(out@.push(line)) =~= views_of(out@) + seq![line@]);
                    assert(views_of(out@) + seq![line@] =~= views_of(out@) + seq![t]);
                }
                out.push(line);
                pos = s.len();
                assert(s@.skip(pos as int) =~= Seq::<char>::empty());
                assert(views_of(out@) + split_lines_spec(s@.skip(pos as int)) =~= views_of(out@));
            },
        }
    }
    assert(s@.skip(pos as int) =~= Seq::<char>::empty());
    assert(views_of(out@) + split_lines_spec(s@.skip(pos as int)) =~= views_of(out@));
    out
}

} // verus!

verus! {

// ---------------------------------------------------------------------------
// Splitting on single spaces, with a limit
// ---------------------------------------------------------------------------

/// Splits on the first `n - 1` occurrences of `' '`; the last part keeps
/// the remainder verbatim.
pub open spec fn splitn_space(s: Seq<char>, n: nat) -> Seq<Seq<char>>
    decreases n,
{
    if n <= 1 {
        seq![s]
    } else {
        match find_first(s, ' ') {
            None => seq![s],
            Some(i) => {
                if 0 <= i < s.len() {
                    seq![s.take(i)] + splitn_space(s.skip(i + 1), (n - 1) as nat)
                } else {
                    seq![s]
                }
            },
        }
    }
}

pub fn splitn_space_exec(s: &Vec<char>, n: usize) -> (r: Vec<Vec<char>>)
    requires
        n >= 1,
    ensures
        views_of(r@) == splitn_space(s@, n as nat),
{
    let mut out: Vec<Vec<char>> = Vec::new();
    let mut pos: usize = 0;
    let mut rem: usize = n;
    let slen: usize = s.len();
    assert(s@.skip(0) =~= s@);
    while rem > 1
        invariant
            1 <= rem <= n,
            slen == s@.len(),
            pos <= s@.len(),
            views_of(out@) + splitn_space(s@.skip(pos as int), rem as nat) == splitn_space(
                s@,
                n as nat,
            ),
        decreases rem,
    {
        let ghost t = s@.skip(pos as int);
        match find_char(s, pos, ' ') {
            Some(i) => {
                proof {
                    assert(t[i - pos] == s@[i as int]);
                    assert forall|k: int| 0 <= k < i - pos implies t[k] != ' ' by {
                        assert(t[k] == s@[pos + k]);
                    }
                    lemma_find_first_exact(t, ' ', i - pos);
                    assert(t.take(i - pos) =~= s@.subrange(pos as int, i as int));
                    assert(t.skip(i - pos + 1) =~= s@.skip(i + 1));
                }
                let part = subvec(s, pos, i);
                proof {
                    assert(views_of(out@.push(part)) =~= views_of(out@) + seq![part@]);
                    assert(views_of(out@) + (seq![part@] + splitn_space(
                        s@.skip(i + 1),
                        (rem - 1) as nat,
                    )) =~= (views_of(out@) + seq![part@]) + splitn_space(
                        s@.skip(i + 1),
                        (rem - 1) as nat,
                    ));
                }
                out.push(part);
                pos = i + 1;
                rem = rem - 1;
            },
            None => {
                proof {
                    assert forall|k: int| 0 <= k < t.len() implies t[k] != ' ' by {
                        assert(t[k] == s@[pos + k]);
                    }
                    lemma_find_first_none(t, ' ');
                    assert(t =~= s@.subrange(pos as int, s@.len() as int));
                }
                let part = subvec(s, pos, s.len());
                proof {
                    assert(views_of(out@.push(part)) =~= views_of(out@) + seq![part@]);
                    assert(views_of(out@) + seq![part@] =~= views_of(out@) + seq![t]);
                }
                out.push(part);
                return out;
            },
        }
    }
    let ghost t = s@.skip(pos as int);
    let part = subvec(s, pos, s.len());
    proof {
        assert(t =~= s@.subrange(pos as int, s@.len() as int));
        assert(views_of(out@.push(part)) =~= views_of(out@) + seq![part@]);
        assert(views_of(out@) + seq![part@] =~= views_of(out@) + seq![t]);
    }
    out.push(part);
    out
}

// ---------------------------------------------------------------------------
// Splitting on whitespace runs
// ---------------------------------------------------------------------------

/// Index of the first whitespace character, if any.
pub open spec fn find_first_space(s: Seq<char>) -> Option<int>
    decreases s.len(),
{
    if s.len() == 0 {
        None
    } else if is_space_char(s[0]) {
        Some(0int)
    } else {
        match find_first_space(s.drop_first()) {
            None => None,
            Some(i) => Some(i + 1),
        }
    }
}

pub proof fn lemma_find_first_space_exact(s: Seq<char>, i: int)
    requires
        0 <= i < s.len(),
        is_space_char(s[i]),
        forall|k: int| 0 <= k < i ==> !is_space_char(s[k]),
    ensures
        find_first_space(s) == Some(i),
    decreases i,
{
    if i == 0 {
    } else {
        assert(!is_space_char(s[0]));
        assert(s.drop_first()[i - 1] == s[i]);
        assert forall|k: int| 0 <= k < i - 1 implies !is_space_char(s.drop_first()[k]) by {
            assert(s.drop_first()[k] == s[k + 1]);
        }
        lemma_find_first_space_exact(s.drop_first(), i - 1);
    }
}

pub proof fn lemma_find_first_space_none(s: Seq<char>)
    requires
        forall|k: int| 0 <= k < s.len() ==> !is_space_char(s[k]),
    ensures
        find_first_space(s) == None::<int>,
    decreases s.len(),
{
    if s.len() > 0 {
        assert forall|k: int| 0 <= k < s.drop_first().len() implies !is_space_char(
            s.drop_first()[k],
        ) by {
            assert(s.drop_first()[k] == s[k + 1]);
        }
        lemma_find_first_space_none(s.drop_first());
    }
}

/// Splits at every whitespace character, keeping empty segments.
pub open spec fn split_any_space(s: Seq<char>) -> Seq<Seq<char>>
    decreases s.len(),
{
    match find_first_space(s) {
        None => seq![s],
        Some(i) => {
            if 0 <= i < s.len() {
                seq![s.take(i)] + split_any_space(s.skip(i + 1))
            } else {
                seq![s]
            }
        },
    }
}

/// Drops the empty segments.
pub open spec fn nonempty_only(vs: Seq<Seq<char>>) -> Seq<Seq<char>>
    decreases vs.len(),
{
    if vs.len() == 0 {
        Seq::empty()
    } else {
        (if vs[0].len() > 0 {
            seq![vs[0]]
        } else {
            Seq::empty()
        }) + nonempty_only(vs.drop_first())
    }
}

pub proof fn lemma_nonempty_only_snoc(vs: Seq<Seq<char>>, x: Seq<char>)
    ensures
        nonempty_only(vs.push(x)) == nonempty_only(vs) + (if x.len() > 0 {
            seq![x]
        } else {
            Seq::<Seq<char>>::empty()
        }),
    decreases vs.len(),
{
    let tail: Seq<Seq<char>> = if x.len() > 0 {
        seq![x]
    } else {
        Seq::empty()
    };
    if vs.len() == 0 {
        assert(vs.push(x)[0] == x);
        assert(vs.push(x).drop_first() =~= Seq::<Seq<char>>::empty());
        assert(nonempty_only(Seq::<Seq<char>>::empty()) == Seq::<Seq<char>>::empty());
        assert(nonempty_only(vs.push(x)) =~= tail);
        assert(nonempty_only(vs) + tail =~= tail);
    } else {
        assert(vs.push(x)[0] == vs[0]);
        assert(vs.push(x).drop_first() =~= vs.drop_first().push(x));
        lemma_nonempty_only_snoc(vs.drop_first(), x);
        let head: Seq<Seq<char>> = if vs[0].len() > 0 {
            seq![vs[0]]
        } else {
            Seq::empty()
        };
        assert(nonempty_only(vs.push(x)) == head + (nonempty_only(vs.drop_first()) + tail));
        assert(head + (nonempty_only(vs.drop_first()) + tail) =~= (head + nonempty_only(
            vs.drop_first(),
        )) + tail);
    }
}

/// The fields of `s`: maximal runs of non-whitespace characters.
pub open spec fn split_ws_spec(s: Seq<char>) -> Seq<Seq<char>> {
    nonempty_only(split_any_space(s))
}

/// Splits `s` into its whitespace-separated fields.
pub fn split_ws(s: &Vec<char>) -> (r: Vec<Vec<char>>)
    ensures
        views_of(r@) == split_ws_spec(s@),
{
    // First split at every whitespace character, then drop empty segments.
    let mut seg: Vec<Vec<char>> = Vec::new();
    let mut pos: usize = 0;
    let slen: usize = s.len();
    assert(s@.skip(0) =~= s@);
    loop
        invariant_except_break
            views_of(seg@) + split_any_space(s@.skip(pos as int)) == split_any_space(s@),
        invariant
            slen == s@.len(),
            pos <= s@.len(),
        ensures
            views_of(seg@) == split_any_space(s@),
        decreases s@.len() - pos,
    {
        let ghost t = s@.skip(pos as int);
        let mut i: usize = pos;
        let mut found: bool = false;
        while i < s.len() && !found
            invariant
                pos <= i <= s@.len(),
                found ==> i < s@.len() && is_space_char(s@[i as int]),
                forall|k: int| pos <= k < i ==> !is_space_char(s@[k]),
            decreases s@.len() - i + (if found {
                0int
            } else {
                1int
            }),
        {
            if is_space(s[i]) {
                found = true;
            } else {
                i = i + 1;
            }
        }
        if found {
            proof {
                assert(t[i - pos] == s@[i as int]);
                assert forall|k: int| 0 <= k < i - pos implies !is_space_char(t[k]) by {
                    assert(t[k] == s@[pos + k]);
                }
                lemma_find_first_space_exact(t, i - pos);
                assert(t.take(i - pos) =~= s@.subrange(pos as int, i as int));
                assert(t.skip(i - pos + 1) =~= s@.skip(i + 1));
            }
            let part = subvec(s, pos, i);
            proof {
                assert(views_of(seg@.push(part)) =~= views_of(seg@) + seq![part@]);
                assert(views_of(seg@) + (seq![part@] + split_any_space(s@.skip(i + 1))) =~= (
                views_of(seg@) + seq![part@]) + split_any_space(s@.skip(i + 1)));
            }
            seg.push(part);
            pos = i + 1;
        } else {
            proof {
                assert forall|k: int| 0 <= k < t.len() implies !is_space_char(t[k]) by {
                    assert(t[k] == s@[pos + k]);
                }
                lemma_find_first_space_none(t);
                assert(t =~= s@.subrange(pos as int, s@.len() as int));
            }
            let part = subvec(s, pos, s.len());
            proof {
                assert(views_of(seg@.push(part)) =~= views_of(seg@) + seq![part@]);
                assert(views_of(seg@) + seq![part@] =~= views_of(seg@) + seq![t]);
            }
            seg.push(part);
            break;
        }
    }
    // Filter.
    let mut out: Vec<Vec<char>> = Vec::new();
    let mut j: usize = 0;
    while j < seg.len()
        invariant
            j <= seg@.len(),
            views_of(seg@) == split_any_space(s@),
            views_of(out@) == nonempty_only(views_of(seg@).subrange(0, j as int)),
        decreases seg@.len() - j,
    {
        proof {
            let pre = views_of(seg@).subrange(0, j as int);
            assert(views_of(seg@).subrange(0, j + 1) =~= pre.push(seg@[j as int]@));
            lemma_nonempty_only_snoc(pre, seg@[j as int]@);
        }
        let ghost before = out@;
        if seg[j].len() > 0 {
            let part = subvec(&seg[j], 0, seg[j].len());
            proof {
                assert(part@ =~= seg@[j as int]@);
            }
            out.push(part);
            proof {
                assert(views_of(out@) =~= views_of(before) + seq![seg@[j as int]@]);
            }
        } else {
            proof {
                assert(seg@[j as int]@.len() == 0);
                assert(views_of(out@) =~= views_of(before) + Seq::<Seq<char>>::empty());
            }
        }
        j = j + 1;
    }
    proof {
        assert(views_of(seg@).subrange(0, seg@.len() as int) =~= views_of(seg@));
    }
    out
}

// ---------------------------------------------------------------------------
// Joining with single spaces
// ---------------------------------------------------------------------------

pub open spec fn join_space(parts: Seq<Seq<char>>) -> Seq<char>
    decreases parts.len(),
{
    if parts.len() == 0 {
        Seq::empty()
    } else if parts.len() == 1 {
        parts[0]
    } else {
        parts[0] + seq![' '] + join_space(parts.drop_first())
    }
}

pub proof fn lemma_join_space_snoc(parts: Seq<Seq<char>>, x: Seq<char>)
    ensures
        join_space(parts.push(x)) == if parts.len() == 0 {
            x
        } else {
            join_space(parts) + seq![' '] + x
        },
    decreases parts.len(),
{
    if parts.len() == 0 {
        assert(parts.push(x)[0] == x);
    } else {
        assert(parts.push(x)[0] == parts[0]);
        assert(parts.push(x).drop_first() =~= parts.drop_first().push(x));
        lemma_join_space_snoc(parts.drop_first(), x);
        if parts.len() == 1 {
            assert(parts.drop_first().len() == 0);
            assert(join_space(parts.push(x)) == parts[0] + seq![' '] + x);
            assert(join_space(parts) == parts[0]);
        } else {
            assert(join_space(parts.push(x)) == parts[0] + seq![' '] + (join_space(
                parts.drop_first(),
            ) + seq![' '] + x));
            assert(parts[0] + seq![' '] + (join_space(parts.drop_first()) + seq![' '] + x) =~= (
            parts[0] + seq![' '] + join_space(parts.drop_first())) + seq![' '] + x);
        }
    }
}

/// Joins parts with single spaces.
pub fn join_space_exec(parts: &Vec<Vec<char>>) -> (r: Vec<char>)
    ensures
        r@ == join_space(views_of(parts@)),
{
    let mut out: Vec<char> = Vec::new();
    let mut i: usize = 0;
    while i < parts.len()
        invariant
            i <= parts@.len(),
            out@ == join_space(views_of(parts@).subrange(0, i as int)),
        decreases parts@.len() - i,
    {
        proof {
            let pre = views_of(parts@).subrange(0, i as int);
            assert(views_of(parts@).subrange(0, i + 1) =~= pre.push(parts@[i as int]@));
            lemma_join_space_snoc(pre, parts@[i as int]@);
        }
        let ghost before = out@;
        if i > 0 {
            out.push(' ');
            proof {
                assert(out@ =~= before + seq![' ']);
            }
        }
        let ghost mid = out@;
        push_all(&mut out, &parts[i]);
        proof {
            if i > 0 {
                assert(out@ =~= join_space(views_of(parts@).subrange(0, i as int)) + seq![' ']
                    + parts@[i as int]@);
            }
        }
        i = i + 1;
    }
    proof {
        assert(views_of(parts@).subrange(0, parts@.len() as int) =~= views_of(parts@));
    }
    out
}

// ---------------------------------------------------------------------------
// Decimal numbers
// ---------------------------------------------------------------------------

pub open spec fn digit_char(d: nat) -> char {
    ((48 + (d % 10)) as u8) as char
}

/// The decimal digits of `n`, most significant first.
pub open spec fn dec_digits(n: nat) -> Seq<char>
    decreases n,
{
    if n < 10 {
        seq![digit_char(n)]
    } else {
        dec_digits(n / 10) + seq![digit_char(n % 10)]
    }
}

/// Appends the decimal rendering of `n`.
pub fn push_dec(out: &mut Vec<char>, n: u64)
    ensures
        final(out)@ == old(out)@ + dec_digits(n as nat),
    decreases n,
{
    if n < 10 {
        out.push((48 + n as u8) as char);
        assert(out@ =~= old(out)@ + dec_digits(n as nat));
    } else {
        push_dec(out, n / 10);
        out.push((48 + (n % 10) as u8) as char);
        assert(out@ =~= old(out)@ + (dec_digits((n / 10) as nat) + seq![
            digit_char((n % 10) as nat),
        ]));
    }
}

/// The numeric value of a digit string (most significant first).
pub open spec fn dec_val(s: Seq<char>) -> int
    decreases s.len(),
{
    if s.len() == 0 {
        0
    } else {
        dec_val(s.drop_last()) * 10 + (s.last() as int - 48)
    }
}

pub open spec fn all_digits(s: Seq<char>) -> bool {
    forall|i: int| 0 <= i < s.len() ==> is_digit_char(s[i])
}

pub proof fn lemma_dec_val_nonneg(s: Seq<char>)
    requires
        all_digits(s),
    ensures
        dec_val(s) >= 0,
    decreases s.len(),
{
    if s.len() > 0 {
        assert forall|i: int| 0 <= i < s.drop_last().len() implies is_digit_char(
            s.drop_last()[i],
        ) by {
            assert(s.drop_last()[i] == s[i]);
        }
        lemma_dec_val_nonneg(s.drop_last());
        assert(is_digit_char(s.last()));
        assert(s.last() as int >= 48);
    }
}

/// With digits appended, the value never shrinks.
pub proof fn lemma_dec_val_extend(s: Seq<char>, i: int)
    requires
        0 <= i <= s.len(),
        all_digits(s),
    ensures
        dec_val(s) >= dec_val(s.take(i)),
    decreases s.len() - i,
{
    if i < s.len() {
        lemma_dec_val_extend(s, i + 1);
        let t = s.take(i + 1);
        assert forall|k: int| 0 <= k < t.len() implies is_digit_char(t[k]) by {
            assert(t[k] == s[k]);
        }
        assert(t.drop_last() =~= s.take(i));
        assert(t.last() == s[i]);
        assert forall|k: int| 0 <= k < s.take(i).len() implies is_digit_char(s.take(i)[k]) by {
            assert(s.take(i)[k] == s[k]);
        }
        lemma_dec_val_nonneg(s.take(i));
        assert(dec_val(t) == dec_val(s.take(i)) * 10 + (s[i] as int - 48));
        assert(s[i] as int >= 48);
        assert(dec_val(s.take(i)) * 10 >= dec_val(s.take(i)));
    } else {
        assert(s.take(i) =~= s);
    }
}

/// Parses a non-empty all-digit string as a `u32`.
pub open spec fn parse_u32_spec(s: Seq<char>) -> Option<u32> {
    if s.len() > 0 && all_digits(s) && dec_val(s) <= u32::MAX {
        Some(dec_val(s) as u32)
    } else {
        None
    }
}

pub fn parse_u32(s: &Vec<char>) -> (r: Option<u32>)
    ensures
        r == parse_u32_spec(s@),
{
    if s.len() == 0 {
        return None;
    }
    let mut acc: u64 = 0;
    let mut i: usize = 0;
    while i < s.len()
        invariant
            i <= s@.len(),
            s@.len() > 0,
            forall|k: int| 0 <= k < i ==> is_digit_char(s@[k]),
            acc == dec_val(s@.subrange(0, i as int)),
            acc <= u32::MAX,
        decreases s@.len() - i,
    {
        let c = s[i];
        if !is_digit(c) {
            assert(!is_digit_char(s@[i as int]));
            return None;
        }
        let d: u64 = (c as u32 - 48) as u64;
        proof {
            let t = s@.subrange(0, i + 1);
            assert(t.drop_last() =~= s@.subrange(0, i as int));
            assert(t.last() == s@[i as int]);
        }
        acc = acc * 10 + d;
        i = i + 1;
        if acc > u32::MAX as u64 {
            proof {
                if all_digits(s@) && dec_val(s@) <= u32::MAX {
                    lemma_dec_val_extend(s@, i as int);
                    assert(dec_val(s@.take(i as int)) > u32::MAX);
                    assert(false);
                }
            }
            return None;
        }
    }
    assert(s@.subrange(0, s@.len() as int) =~= s@);
    Some(acc as u32)
}

} // verus!

verus! {

// ---------------------------------------------------------------------------
// Splitting on every occurrence of one character
// ---------------------------------------------------------------------------

/// Splits at every occurrence of `c`, keeping empty segments.
pub open spec fn split_char(s: Seq<char>, c: char) -> Seq<Seq<char>>
    decreases s.len(),
{
    match find_first(s, c) {
        None => seq![s],
        Some(i) => {
            if 0 <= i < s.len() {
                seq![s.take(i)] + split_char(s.skip(i + 1), c)
            } else {
                seq![s]
            }
        },
    }
}

pub fn split_char_exec(s: &Vec<char>, c: char) -> (r: Vec<Vec<char>>)
    ensures
        views_of(r@) == split_char(s@, c),
{
    let mut out: Vec<Vec<char>> = Vec::new();
    let mut pos: usize = 0;
    let slen: usize = s.len();
    assert(s@.skip(0) =~= s@);
    loop
        invariant_except_break
            views_of(out@) + split_char(s@.skip(pos as int), c) == split_char(s@, c),
        invariant
            slen == s@.len(),
            pos <= s@.len(),
        ensures
            views_of(out@) == split_char(s@, c),
        decreases s@.len() - pos,
    {
        let ghost t = s@.skip(pos as int);
        match find_char(s, pos, c) {
            Some(i) => {
                proof {
                    assert(t[i - pos] == s@[i as int]);
                    assert forall|k: int| 0 <= k < i - pos implies t[k] != c by {
                        assert(t[k] == s@[pos + k]);
                    }
                    lemma_find_first_exact(t, c, i - pos);
                    assert(t.take(i - pos) =~= s@.subrange(pos as int, i as int));
                    assert(t.skip(i - pos + 1) =~= s@.skip(i + 1));
                }
                let part = subvec(s, pos, i);
                proof {
                    assert(views_of(out@.push(part)) =~= views_of(out@) + seq![part@]);
                    assert(views_of(out@) + (seq![part@] + split_char(s@.skip(i + 1), c)) =~= (
                    views_of(out@) + seq![part@]) + split_char(s@.skip(i + 1), c));
                }
                out.push(part);
                pos = i + 1;
            },
            None => {
                proof {
                    assert forall|k: int| 0 <= k < t.len() implies t[k] != c by {
                        assert(t[k] == s@[pos + k]);
                    }
                    lemma_find_first_none(t, c);
                    assert(t =~= s@.subrange(pos as int, s@.len() as int));
                }
                let part = subvec(s, pos, s.len());
                proof {
                    assert(views_of(out@.push(part)) =~= views_of(out@) + seq![part@]);
                    assert(views_of(out@) + seq![part@] =~= views_of(out@) + seq![t]);
                }
                out.push(part);
                break;
            },
        }
    }
    out
}

} // verus!

verus! {

pub proof fn lemma_trim_start_len(s: Seq<char>)
    ensures
        trim_start_spec(s).len() <= s.len(),
    decreases s.len(),
{
    if s.len() > 0 && is_space_char(s[0]) {
        lemma_trim_start_len(s.drop_first());
    }
}

pub proof fn lemma_trim_end_len(s: Seq<char>)
    ensures
        trim_end_spec(s).len() <= s.len(),
    decreases s.len(),
{
    if s.len() > 0 && is_space_char(s[s.len() - 1]) {
        lemma_trim_end_len(s.drop_last());
    }
}

/// A non-empty string equal to its own trim has non-whitespace ends.
pub proof fn lemma_trim_fixed_ends(s: Seq<char>)
    requires
        trim_spec(s) == s,
        s.len() > 0,
    ensures
        !is_space_char(s[0]),
        !is_space_char(s[s.len() - 1]),
{
    if is_space_char(s[0]) {
        lemma_trim_start_len(s.drop_first());
        lemma_trim_end_len(trim_start_spec(s.drop_first()));
        assert(trim_spec(s).len() <= s.len() - 1);
    }
    assert(trim_start_spec(s) == s);
    if is_space_char(s[s.len() - 1]) {
        lemma_trim_end_len(s.drop_last());
        assert(trim_end_spec(s).len() <= s.len() - 1);
    }
}

} // verus!

verus! {

// ---------------------------------------------------------------------------
// Substring search
// ---------------------------------------------------------------------------

/// `pat` occurs in `s` at position `i`.
pub open spec fn match_at(s: Seq<char>, pat: Seq<char>, i: int) -> bool {
    0 <= i && i + pat.len() <= s.len() && forall|k: int| 0 <= k < pat.len() ==> s[i + k] == pat[k]
}

/// Position of the first occurrence of `pat` in `s`, if any.
pub open spec fn find_sub_first(s: Seq<char>, pat: Seq<char>) -> Option<int>
    decreases s.len(),
{
    if pat.len() > s.len() {
        None
    } else if match_at(s, pat, 0) {
        Some(0int)
    } else if s.len() == 0 {
        None
    } else {
        match find_sub_first(s.drop_first(), pat) {
            None => None,
            Some(i) => Some(i + 1),
        }
    }
}

pub proof fn lemma_match_at_shift(s: Seq<char>, pat: Seq<char>, i: int)
    requires
        i >= 1,
        s.len() >= 1,
    ensures
        match_at(s, pat, i) <==> match_at(s.drop_first(), pat, i - 1),
{
    if match_at(s, pat, i) {
        assert forall|k: int| 0 <= k < pat.len() implies s.drop_first()[i - 1 + k] == pat[k] by {
            assert(s.drop_first()[i - 1 + k] == s[i + k]);
        }
    }
    if match_at(s.drop_first(), pat, i - 1) {
        assert forall|k: int| 0 <= k < pat.len() implies s[i + k] == pat[k] by {
            assert(s.drop_first()[i - 1 + k] == s[i + k]);
        }
    }
}

/// Matching in a suffix is matching at the shifted position.
pub proof fn lemma_match_at_skip(s: Seq<char>, pat: Seq<char>, d: int, i: int)
    requires
        0 <= d <= s.len(),
        0 <= i,
    ensures
        match_at(s.skip(d), pat, i) <==> match_at(s, pat, d + i),
{
    if match_at(s.skip(d), pat, i) {
        assert forall|k: int| 0 <= k < pat.len() implies s[d + i + k] == pat[k] by {
            assert(s.skip(d)[i + k] == s[d + i + k]);
        }
    }
    if match_at(s, pat, d + i) {
        assert forall|k: int| 0 <= k < pat.len() implies s.skip(d)[i + k] == pat[k] by {
            assert(s.skip(d)[i + k] == s[d + i + k]);
        }
    }
}

pub proof fn lemma_find_sub_exact(s: Seq<char>, pat: Seq<char>, i: int)
    requires
        match_at(s, pat, i),
        forall|k: int| 0 <= k < i ==> !match_at(s, pat, k),
    ensures
        find_sub_first(s, pat) == Some(i),
    decreases i,
{
    if i == 0 {
    } else {
        assert(!match_at(s, pat, 0));
        assert(s.len() >= 1);
        lemma_match_at_shift(s, pat, i);
        assert forall|k: int| 0 <= k < i - 1 implies !match_at(s.drop_first(), pat, k) by {
            lemma_match_at_shift(s, pat, k + 1);
            assert(!match_at(s, pat, k + 1));
        }
        lemma_find_sub_exact(s.drop_first(), pat, i - 1);
    }
}

pub proof fn lemma_find_sub_none(s: Seq<char>, pat: Seq<char>)
    requires
        forall|k: int| 0 <= k ==> !match_at(s, pat, k),
    ensures
        find_sub_first(s, pat) == None::<int>,
    decreases s.len(),
{
    assert(!match_at(s, pat, 0));
    if pat.len() <= s.len() && s.len() > 0 {
        assert forall|k: int| 0 <= k implies !match_at(s.drop_first(), pat, k) by {
            lemma_match_at_shift(s, pat, k + 1);
            assert(!match_at(s, pat, k + 1));
        }
        lemma_find_sub_none(s.drop_first(), pat);
    }
}

/// Tests whether the characters of `p` occur in `s` at index `from`.
pub fn matches_at(s: &Vec<char>, from: usize, p: &Vec<char>) -> (r: bool)
    requires
        from <= s@.len(),
    ensures
        r == match_at(s@, p@, from as int),
{
    let n = p.len();
    let slen = s.len();
    if slen - from < n {
        return false;
    }
    let mut i: usize = 0;
    while i < n
        invariant
            n == p@.len(),
            slen == s@.len(),
            from + n <= slen,
            i <= n,
            forall|k: int| 0 <= k < i ==> s@[from + k] == p@[k],
        decreases n - i,
    {
        if s[from + i] != p[i] {
            return false;
        }
        i = i + 1;
    }
    true
}

/// Finds the first occurrence of `pat` at or after `from`.
pub fn find_sub(s: &Vec<char>, from: usize, pat: &Vec<char>) -> (r: Option<usize>)
    requires
        from <= s@.len(),
    ensures
        match r {
            Some(i) => from <= i && match_at(s@, pat@, i as int) && forall|k: int|
                from <= k < i ==> !match_at(s@, pat@, k),
            None => forall|k: int| from <= k ==> !match_at(s@, pat@, k),
        },
{
    let slen = s.len();
    let n = pat.len();
    if n > slen {
        return None;
    }
    let mut i: usize = from;
    while i <= slen - n
        invariant
            from <= i,
            slen == s@.len(),
            n == pat@.len(),
            n <= slen,
            i <= slen + 1,
            forall|k: int| from <= k < i ==> !match_at(s@, pat@, k),
        decreases slen - i,
    {
        if matches_at(s, i, pat) {
            return Some(i);
        }
        i = i + 1;
    }
    assert forall|k: int| from <= k implies !match_at(s@, pat@, k) by {
        if match_at(s@, pat@, k) {
            assert(k + n <= slen);
            assert(k < i);
        }
    }
    None
}

/// The suffix-relative first occurrence, from an absolute search.
pub proof fn lemma_find_sub_suffix_some(s: Seq<char>, pat: Seq<char>, from: int, i: int)
    requires
        0 <= from <= s.len(),
        from <= i,
        match_at(s, pat, i),
        forall|k: int| from <= k < i ==> !match_at(s, pat, k),
    ensures
        find_sub_first(s.skip(from), pat) == Some(i - from),
{
    lemma_match_at_skip(s, pat, from, i - from);
    assert forall|k: int| 0 <= k < i - from implies !match_at(s.skip(from), pat, k) by {
        lemma_match_at_skip(s, pat, from, k);
        assert(!match_at(s, pat, from + k));
    }
    lemma_find_sub_exact(s.skip(from), pat, i - from);
}

pub proof fn lemma_find_sub_suffix_none(s: Seq<char>, pat: Seq<char>, from: int)
    requires
        0 <= from <= s.len(),
        forall|k: int| from <= k ==> !match_at(s, pat, k),
    ensures
        find_sub_first(s.skip(from), pat) == None::<int>,
{
    assert forall|k: int| 0 <= k implies !match_at(s.skip(from), pat, k) by {
        lemma_match_at_skip(s, pat, from, k);
        assert(!match_at(s, pat, from + k));
    }
    lemma_find_sub_none(s.skip(from), pat);
}

} // verus!
