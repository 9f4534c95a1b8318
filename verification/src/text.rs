//! Character-sequence search and rewriting, the vocabulary in which every
//! XML repair rule of this crate is stated.
//!
//! Contracts speak of `Seq<char>`; the executable functions work on
//! `Vec<char>` so that indexing is constant time.

use vstd::prelude::*;
use vstd::std_specs::iter::IteratorSpec;
use vstd::string::*;

verus! {

/// `pat` occurs in `s` starting at index `i`.
pub open spec fn matches_at(s: Seq<char>, pat: Seq<char>, i: int) -> bool {
    0 <= i && i + pat.len() <= s.len() && s.subrange(i, i + pat.len()) == pat
}

/// Index of the leftmost occurrence of `pat` in `s` that starts at or after `from`.
pub open spec fn find_from(s: Seq<char>, pat: Seq<char>, from: int) -> Option<int>
    decreases s.len() + 1 - from,
{
    if from < 0 || from + pat.len() > s.len() {
        None
    } else if matches_at(s, pat, from) {
        Some(from)
    } else {
        find_from(s, pat, from + 1)
    }
}

/// Index of the leftmost occurrence of `pat` in `s`.
pub open spec fn find(s: Seq<char>, pat: Seq<char>) -> Option<int> {
    find_from(s, pat, 0)
}

/// `pat` occurs somewhere in `s`.
pub open spec fn contains(s: Seq<char>, pat: Seq<char>) -> bool {
    find(s, pat) is Some
}

/// Index of the rightmost occurrence of `pat` in `s` that starts at or before `from`.
pub open spec fn rfind_from(s: Seq<char>, pat: Seq<char>, from: int) -> Option<int>
    decreases from + 1,
{
    if from < 0 {
        None
    } else if matches_at(s, pat, from) {
        Some(from)
    } else {
        rfind_from(s, pat, from - 1)
    }
}

/// Index of the rightmost occurrence of `pat` in `s`.
pub open spec fn rfind(s: Seq<char>, pat: Seq<char>) -> Option<int> {
    rfind_from(s, pat, s.len() - pat.len())
}

/// `s` begins with `pat`.
pub open spec fn starts_with(s: Seq<char>, pat: Seq<char>) -> bool {
    matches_at(s, pat, 0)
}

/// `s` with every occurrence of `pat` replaced by `rep`, scanning left to
/// right and resuming after each replaced occurrence. An empty `pat` occurs
/// before every character and at the end.
pub open spec fn replace_all(s: Seq<char>, pat: Seq<char>, rep: Seq<char>) -> Seq<char>
    decreases s.len(),
{
    if pat.len() == 0 {
        if s.len() == 0 {
            rep
        } else {
            rep + s.take(1) + replace_all(s.skip(1), pat, rep)
        }
    } else {
        match find(s, pat) {
            None => s,
            Some(i) => {
                proof {
                    lemma_find_from(s, pat, 0);
                }
                s.take(i) + rep + replace_all(s.skip(i + pat.len()), pat, rep)
            },
        }
    }
}

/// `replace_all` for each pair of `table` in turn.
pub open spec fn substituted(s: Seq<char>, table: Seq<(Seq<char>, Seq<char>)>) -> Seq<char>
    decreases table.len(),
{
    if table.len() == 0 {
        s
    } else {
        replace_all(substituted(s, table.drop_last()), table.last().0, table.last().1)
    }
}

/// Where the text between the first `open` and the next `close` behind
/// it lies: its first index and the index behind its last.
pub open spec fn between(s: Seq<char>, open: Seq<char>, close: Seq<char>) -> Option<(int, int)> {
    match find(s, open) {
        Some(start) => match find_from(s, close, start + open.len()) {
            Some(end) => Some((start + open.len(), end)),
            None => None,
        },
        None => None,
    }
}

/// `between` for the first pair of `tags[k..]` that marks a text.
pub open spec fn between_any(s: Seq<char>, tags: Seq<(Seq<char>, Seq<char>)>, k: int) -> Option<
    (int, int),
>
    decreases tags.len() - k,
{
    if k < 0 || k >= tags.len() {
        None
    } else {
        match between(s, tags[k].0, tags[k].1) {
            Some(range) => Some(range),
            None => between_any(s, tags, k + 1),
        }
    }
}

/// `s` with `ins` inserted before index `at`.
pub open spec fn insert_at(s: Seq<char>, at: int, ins: Seq<char>) -> Seq<char> {
    s.take(at) + ins + s.skip(at)
}

/// The characters that `char::is_whitespace` accepts: the code points with
/// the Unicode `White_Space` property.
pub open spec fn is_white_space(c: char) -> bool {
    let n = c as u32;
    (0x09 <= n <= 0x0D) || n == 0x20 || n == 0x85 || n == 0xA0 || n == 0x1680 || (0x2000 <= n
        <= 0x200A) || n == 0x2028 || n == 0x2029 || n == 0x202F || n == 0x205F || n == 0x3000
}

/// `s` without its leading white space.
pub open spec fn trim_start(s: Seq<char>) -> Seq<char>
    decreases s.len(),
{
    if s.len() > 0 && is_white_space(s[0]) {
        trim_start(s.skip(1))
    } else {
        s
    }
}

/// `s` without its trailing white space.
pub open spec fn trim_end(s: Seq<char>) -> Seq<char>
    decreases s.len(),
{
    if s.len() > 0 && is_white_space(s.last()) {
        trim_end(s.drop_last())
    } else {
        s
    }
}

/// `s` without leading and trailing white space.
pub open spec fn trim(s: Seq<char>) -> Seq<char> {
    trim_end(trim_start(s))
}

/// `c` is one of the ten ASCII digits.
pub open spec fn is_digit(c: char) -> bool {
    '0' <= c <= '9'
}

/// The number that a run of ASCII digits writes in base ten; `None` where
/// a character is no digit. The empty run writes zero.
pub open spec fn digits_value(s: Seq<char>) -> Option<int>
    decreases s.len(),
{
    if s.len() == 0 {
        Some(0)
    } else {
        match digits_value(s.drop_last()) {
            Some(v) => if is_digit(s.last()) {
                Some(v * 10 + (s.last() as int - '0' as int))
            } else {
                None
            },
            None => None,
        }
    }
}

/// The integer that `s` writes: an optional sign and at least one digit.
pub open spec fn parse_int(s: Seq<char>) -> Option<int> {
    if s.len() == 0 {
        None
    } else if s[0] == '-' {
        match digits_value(s.skip(1)) {
            Some(v) => if s.len() > 1 {
                Some(-v)
            } else {
                None
            },
            None => None,
        }
    } else if s[0] == '+' {
        if s.len() > 1 {
            digits_value(s.skip(1))
        } else {
            None
        }
    } else {
        digits_value(s)
    }
}

/// The integer that `s` writes, where it lies between `min` and `max`.
pub open spec fn parse_between(s: Seq<char>, min: int, max: int) -> Option<int> {
    match parse_int(s) {
        Some(v) => if min <= v <= max {
            Some(v)
        } else {
            None
        },
        None => None,
    }
}

/// The texts of a list of strings.
pub open spec fn texts(strings: Seq<String>) -> Seq<Seq<char>> {
    Seq::new(strings.len(), |i: int| strings[i]@)
}

/// The texts of a list of pairs of strings.
pub open spec fn pair_views(pairs: Seq<(String, String)>) -> Seq<(Seq<char>, Seq<char>)> {
    Seq::new(pairs.len(), |i: int| (pairs[i].0@, pairs[i].1@))
}

/// What `find_from` returns is the least match at or after `from`.
pub proof fn lemma_find_from(s: Seq<char>, pat: Seq<char>, from: int)
    requires
        0 <= from,
    ensures
        match find_from(s, pat, from) {
            Some(i) => from <= i && matches_at(s, pat, i) && forall|j: int|
                from <= j < i ==> !matches_at(s, pat, j),
            None => forall|j: int| from <= j ==> !matches_at(s, pat, j),
        },
    decreases s.len() + 1 - from,
{
    if from + pat.len() > s.len() {
    } else if matches_at(s, pat, from) {
    } else {
        lemma_find_from(s, pat, from + 1);
    }
}

/// An occurrence at or after `from` makes `find_from` succeed, at or before it.
pub proof fn lemma_find_from_some(s: Seq<char>, pat: Seq<char>, from: int, at: int)
    requires
        0 <= from <= at,
        matches_at(s, pat, at),
    ensures
        find_from(s, pat, from) is Some,
        find_from(s, pat, from)->0 <= at,
{
    lemma_find_from(s, pat, from);
}

/// Searching `s` from `from` is searching the suffix of `s` that starts at `from`.
pub proof fn lemma_find_skip(s: Seq<char>, pat: Seq<char>, from: int)
    requires
        0 <= from <= s.len(),
    ensures
        match find_from(s, pat, from) {
            Some(i) => find(s.skip(from), pat) == Some(i - from),
            None => find(s.skip(from), pat) is None,
        },
{
    let t = s.skip(from);
    lemma_find_from(s, pat, from);
    lemma_find_from(t, pat, 0);
    assert forall|j: int| 0 <= j implies (matches_at(t, pat, j) <==> matches_at(s, pat, j + from)) by {
        if j + pat.len() <= t.len() {
            assert(t.subrange(j, j + pat.len()) =~= s.subrange(j + from, j + from + pat.len()));
        }
    }
    match find_from(s, pat, from) {
        Some(i) => {
            assert(matches_at(t, pat, i - from));
            match find(t, pat) {
                Some(k) => {
                    assert(matches_at(s, pat, k + from));
                    if k < i - from {
                        assert(!matches_at(s, pat, k + from));
                    }
                    if k > i - from {
                        assert(!matches_at(t, pat, i - from));
                    }
                },
                None => {
                    assert(!matches_at(t, pat, i - from));
                },
            }
        },
        None => {
            match find(t, pat) {
                Some(k) => {
                    assert(matches_at(s, pat, k + from));
                    assert(!matches_at(s, pat, k + from));
                },
                None => {},
            }
        },
    }
}

/// The leftmost match is where a match has no match before it.
pub proof fn lemma_find_from_is(s: Seq<char>, pat: Seq<char>, from: int, at: int)
    requires
        0 <= from <= at,
        matches_at(s, pat, at),
        forall|j: int| from <= j < at ==> !matches_at(s, pat, j),
    ensures
        find_from(s, pat, from) == Some(at),
{
    lemma_find_from(s, pat, from);
}

/// An insertion where the character at the insertion point does not occur
/// in `pat` keeps an occurrence of `pat`.
pub proof fn lemma_insert_keeps(s: Seq<char>, at: int, ins: Seq<char>, pat: Seq<char>)
    requires
        0 <= at < s.len(),
        contains(s, pat),
        !pat.contains(s[at]),
    ensures
        contains(insert_at(s, at, ins), pat),
{
    let t = insert_at(s, at, ins);
    lemma_find_from(s, pat, 0);
    let i = find(s, pat)->0;
    if i + pat.len() <= at {
        assert(t.subrange(i, i + pat.len()) == s.subrange(i, i + pat.len()));
        lemma_find_from_some(t, pat, 0, i);
    } else if i >= at {
        let k = i + ins.len();
        assert(t.subrange(k, k + pat.len()) == s.subrange(i, i + pat.len()));
        lemma_find_from_some(t, pat, 0, k);
    } else {
        assert(s.subrange(i, i + pat.len())[at - i] == s[at]);
        assert(pat[at - i] == s[at]);
    }
}

/// An insertion makes no occurrence of `pat` where the inserted text lacks
/// the first character of `pat` and begins with a character that `pat`
/// has nowhere after its first.
pub proof fn lemma_insert_adds_none(s: Seq<char>, at: int, ins: Seq<char>, pat: Seq<char>)
    requires
        0 <= at <= s.len(),
        !contains(s, pat),
        pat.len() > 0,
        ins.len() > 0,
        !ins.contains(pat[0]),
        forall|k: int| 1 <= k < pat.len() ==> pat[k] != ins[0],
    ensures
        !contains(insert_at(s, at, ins), pat),
{
    let t = insert_at(s, at, ins);
    lemma_find_from(s, pat, 0);
    lemma_find_from(t, pat, 0);
    if contains(t, pat) {
        let j = find(t, pat)->0;
        let sub = t.subrange(j, j + pat.len());
        if j + pat.len() <= at {
            assert(sub == s.subrange(j, j + pat.len()));
            assert(matches_at(s, pat, j));
        } else if j >= at + ins.len() {
            let k = j - ins.len();
            assert(sub == s.subrange(k, k + pat.len()));
            assert(matches_at(s, pat, k));
        } else if j >= at {
            assert(sub[0] == ins[j - at]);
            assert(ins.contains(pat[0]));
        } else {
            assert(sub[at - j] == ins[0]);
        }
    }
}

/// A text that holds `outer` holds what `outer` holds.
pub proof fn lemma_contains_within(s: Seq<char>, outer: Seq<char>, inner: Seq<char>, at: int)
    requires
        contains(s, outer),
        matches_at(outer, inner, at),
    ensures
        contains(s, inner),
{
    lemma_find_from(s, outer, 0);
    let i = find(s, outer)->0;
    assert(s.subrange(i, i + outer.len()).subrange(at, at + inner.len()) == s.subrange(
        i + at,
        i + at + inner.len(),
    ));
    lemma_find_from_some(s, inner, 0, i + at);
}

/// Replacing a pattern that does not occur changes nothing.
pub proof fn lemma_replace_absent(s: Seq<char>, pat: Seq<char>, rep: Seq<char>)
    requires
        !contains(s, pat),
    ensures
        replace_all(s, pat, rep) == s,
{
    if pat.len() == 0 {
        assert(s.subrange(0, 0) == pat);
        lemma_find_from_some(s, pat, 0, 0);
    }
}

/// Replacing a pattern that occurs puts the replacement into the text.
pub proof fn lemma_replace_puts(s: Seq<char>, pat: Seq<char>, rep: Seq<char>)
    requires
        contains(s, pat),
        pat.len() > 0,
    ensures
        contains(replace_all(s, pat, rep), rep),
{
    lemma_find_from(s, pat, 0);
    let i = find(s, pat)->0;
    let out = replace_all(s, pat, rep);
    assert(out.subrange(i, i + rep.len()) == rep);
    lemma_find_from_some(out, rep, 0, i);
}

/// Replacing a pattern keeps an occurrence of a text that is longer than
/// the pattern and holds neither the first nor the last character of it:
/// no occurrence of the pattern can touch such a text.
pub proof fn lemma_replace_keeps(s: Seq<char>, pat: Seq<char>, rep: Seq<char>, kept: Seq<char>)
    requires
        contains(s, kept),
        pat.len() > 0,
        kept.len() > pat.len(),
        !kept.contains(pat[0]),
        !kept.contains(pat.last()),
    ensures
        contains(replace_all(s, pat, rep), kept),
    decreases s.len(),
{
    lemma_find_from(s, pat, 0);
    lemma_find_from(s, kept, 0);
    let j = find(s, kept)->0;
    match find(s, pat) {
        None => {},
        Some(i) => {
            let rest = s.skip(i + pat.len());
            let out = replace_all(s, pat, rep);
            let here = s.subrange(j, j + kept.len());
            let there = s.subrange(i, i + pat.len());
            if j + kept.len() <= i {
                assert(out.subrange(j, j + kept.len()) == here);
                lemma_find_from_some(out, kept, 0, j);
            } else if j >= i + pat.len() {
                let m = j - i - pat.len();
                assert(rest.subrange(m, m + kept.len()) == here);
                lemma_find_from_some(rest, kept, 0, m);
                lemma_replace_keeps(rest, pat, rep, kept);
                let tail = replace_all(rest, pat, rep);
                lemma_find_from(tail, kept, 0);
                let n = find(tail, kept)->0;
                let at = i + rep.len() + n;
                assert(out.subrange(at, at + kept.len()) == tail.subrange(n, n + kept.len()));
                lemma_find_from_some(out, kept, 0, at);
            } else if i >= j {
                assert(here[i - j] == there[0]);
                assert(kept.contains(pat[0]));
            } else {
                let last = i + pat.len() - 1;
                assert(last < j + kept.len());
                assert(here[last - j] == there[pat.len() - 1]);
                assert(kept.contains(pat.last()));
            }
        },
    }
}

/// No occurrence of `pat` in `s` touches the `len` characters of `s` that
/// begin at `at`.
pub open spec fn untouched(s: Seq<char>, pat: Seq<char>, at: int, len: int) -> bool {
    forall|i: int| #[trigger] matches_at(s, pat, i) ==> i + pat.len() <= at || i >= at + len
}

/// A text that no occurrence of the pattern touches stays where
/// it is: what stands before it and behind it is replaced by itself.
pub proof fn lemma_replace_around(
    a: Seq<char>,
    mid: Seq<char>,
    b: Seq<char>,
    pat: Seq<char>,
    rep: Seq<char>,
)
    requires
        pat.len() > 0,
        untouched(a + mid + b, pat, a.len() as int, mid.len() as int),
    ensures
        replace_all(a + mid + b, pat, rep) == replace_all(a, pat, rep) + mid + replace_all(
            b,
            pat,
            rep,
        ),
    decreases a.len(),
{
    let s = a + mid + b;
    let n = pat.len() as int;
    let off = (a.len() + mid.len()) as int;
    lemma_find_from(s, pat, 0);
    lemma_find_from(a, pat, 0);
    lemma_find_from(b, pat, 0);
    assert forall|i: int| matches_at(s, pat, i) && i + n <= a.len() implies matches_at(
        a,
        pat,
        i,
    ) by {
        assert(s.subrange(i, i + n) == a.subrange(i, i + n));
    }
    assert forall|i: int| matches_at(s, pat, i) && i >= off implies matches_at(b, pat, i - off) by {
        assert(s.subrange(i, i + n) == b.subrange(i - off, i - off + n));
    }
    match find(a, pat) {
        Some(i) => {
            assert(s.subrange(i, i + n) == a.subrange(i, i + n));
            assert forall|j: int| 0 <= j < i implies !matches_at(s, pat, j) by {
                if matches_at(s, pat, j) {
                    assert(matches_at(a, pat, j));
                }
            }
            lemma_find_from_is(s, pat, 0, i);
            let rest = a.skip(i + n);
            assert(s.skip(i + n) == rest + mid + b);
            assert(untouched(rest + mid + b, pat, rest.len() as int, mid.len() as int)) by {
                assert forall|j: int| #[trigger]
                    matches_at(rest + mid + b, pat, j) implies j + n <= rest.len() || j
                    >= rest.len() + mid.len() by {
                    assert((rest + mid + b).subrange(j, j + n) == s.subrange(
                        j + i + n,
                        j + i + n + n,
                    ));
                    assert(matches_at(s, pat, j + i + n));
                }
            }
            lemma_replace_around(rest, mid, b, pat, rep);
            assert(s.take(i) == a.take(i));
            assert(a.take(i) + rep + (replace_all(rest, pat, rep) + mid + replace_all(b, pat, rep))
                == a.take(i) + rep + replace_all(rest, pat, rep) + mid + replace_all(b, pat, rep));
        },
        None => {
            match find(b, pat) {
                Some(i) => {
                    assert(s.subrange(off + i, off + i + n) == b.subrange(i, i + n));
                    assert forall|j: int| 0 <= j < off + i implies !matches_at(s, pat, j) by {
                        if matches_at(s, pat, j) {
                            if j + n <= a.len() {
                                assert(matches_at(a, pat, j));
                            } else {
                                assert(matches_at(b, pat, j - off));
                            }
                        }
                    }
                    lemma_find_from_is(s, pat, 0, off + i);
                    assert(s.skip(off + i + n) == b.skip(i + n));
                    assert(s.take(off + i) == a + mid + b.take(i));
                    assert(a + mid + b.take(i) + rep + replace_all(b.skip(i + n), pat, rep) == a
                        + mid + (b.take(i) + rep + replace_all(b.skip(i + n), pat, rep)));
                },
                None => {
                    if find(s, pat) is Some {
                        let j = find(s, pat)->0;
                        if j + n <= a.len() {
                            assert(matches_at(a, pat, j));
                        } else {
                            assert(matches_at(b, pat, j - off));
                        }
                    }
                },
            }
        },
    }
}

/// An occurrence of the pattern that no earlier occurrence reaches into is
/// replaced where it stands: what stands before it and behind it is
/// replaced by itself.
pub proof fn lemma_replace_hits(a: Seq<char>, b: Seq<char>, pat: Seq<char>, rep: Seq<char>)
    requires
        pat.len() > 0,
        forall|i: int|
            0 <= i < a.len() && #[trigger] matches_at(a + pat + b, pat, i) ==> i + pat.len()
                <= a.len(),
    ensures
        replace_all(a + pat + b, pat, rep) == replace_all(a, pat, rep) + rep + replace_all(
            b,
            pat,
            rep,
        ),
    decreases a.len(),
{
    let s = a + pat + b;
    let n = pat.len() as int;
    lemma_find_from(s, pat, 0);
    lemma_find_from(a, pat, 0);
    assert forall|i: int| matches_at(s, pat, i) && i + n <= a.len() implies matches_at(
        a,
        pat,
        i,
    ) by {
        assert(s.subrange(i, i + n) == a.subrange(i, i + n));
    }
    match find(a, pat) {
        Some(i) => {
            assert(s.subrange(i, i + n) == a.subrange(i, i + n));
            assert forall|j: int| 0 <= j < i implies !matches_at(s, pat, j) by {
                if matches_at(s, pat, j) {
                    assert(matches_at(a, pat, j));
                }
            }
            lemma_find_from_is(s, pat, 0, i);
            let rest = a.skip(i + n);
            assert(s.skip(i + n) == rest + pat + b);
            assert forall|j: int|
                0 <= j < rest.len() && #[trigger] matches_at(rest + pat + b, pat, j) implies j + n
                <= rest.len() by {
                assert((rest + pat + b).subrange(j, j + n) == s.subrange(j + i + n, j + i + n + n));
                assert(matches_at(s, pat, j + i + n));
            }
            lemma_replace_hits(rest, b, pat, rep);
            assert(s.take(i) == a.take(i));
            assert(a.take(i) + rep + (replace_all(rest, pat, rep) + rep + replace_all(b, pat, rep))
                == a.take(i) + rep + replace_all(rest, pat, rep) + rep + replace_all(b, pat, rep));
        },
        None => {
            let at = a.len() as int;
            assert(s.subrange(at, at + n) == pat);
            assert forall|j: int| 0 <= j < at implies !matches_at(s, pat, j) by {
                if matches_at(s, pat, j) {
                    assert(matches_at(a, pat, j));
                }
            }
            lemma_find_from_is(s, pat, 0, at);
            assert(s.take(at) == a);
            assert(s.skip(at + n) == b);
        },
    }
}

/// Trimming removes characters and adds none.
pub proof fn lemma_trim_start_len(s: Seq<char>)
    ensures
        trim_start(s).len() <= s.len(),
    decreases s.len(),
{
    if s.len() > 0 && is_white_space(s[0]) {
        lemma_trim_start_len(s.skip(1));
    }
}

/// What `rfind_from` returns is the greatest match at or before `from`.
pub proof fn lemma_rfind_from(s: Seq<char>, pat: Seq<char>, from: int)
    ensures
        match rfind_from(s, pat, from) {
            Some(i) => 0 <= i <= from && matches_at(s, pat, i) && forall|j: int|
                i < j <= from ==> !matches_at(s, pat, j),
            None => forall|j: int| j <= from ==> !matches_at(s, pat, j),
        },
    decreases from + 1,
{
    if from < 0 {
    } else if matches_at(s, pat, from) {
    } else {
        lemma_rfind_from(s, pat, from - 1);
    }
}

/// Appends one character to a `String`.
///
/// Trusted: `String::push`, which the standard library documents as
/// appending the given character to the end of the string.
#[verifier::external_body]
fn push_char(s: &mut String, c: char)
    ensures
        final(s)@ == old(s)@.push(c),
{
    s.push(c);
}

/// The characters of a string slice, in order.
pub fn to_chars(s: &str) -> (v: Vec<char>)
    ensures
        v@ == s@,
{
    let mut v: Vec<char> = Vec::new();
    let mut it = s.chars();
    loop
        invariant
            it.obeys_prophetic_iter_laws(),
            v@ + it.remaining() == s@,
        decreases s@.len() - v@.len(),
    {
        match it.next() {
            Some(c) => {
                v.push(c);
            },
            None => {
                return v;
            },
        }
    }
}

/// The string made of the given characters.
pub fn from_chars(v: &Vec<char>) -> (s: String)
    ensures
        s@ == v@,
{
    let mut s = String::new();
    let mut i: usize = 0;
    while i < v.len()
        invariant
            i <= v.len(),
            s@ == v@.take(i as int),
        decreases v.len() - i,
    {
        push_char(&mut s, v[i]);
        i += 1;
        assert(v@.take(i as int) == v@.take(i - 1).push(v@[i - 1]));
    }
    assert(v@.take(v.len() as int) == v@);
    s
}

/// Appends all of `src` to `dst`.
pub fn push_all(dst: &mut Vec<char>, src: &Vec<char>)
    ensures
        final(dst)@ == old(dst)@ + src@,
{
    let mut i: usize = 0;
    while i < src.len()
        invariant
            i <= src.len(),
            dst@ == old(dst)@ + src@.take(i as int),
        decreases src.len() - i,
    {
        dst.push(src[i]);
        i += 1;
    }
    assert(src@.take(src.len() as int) == src@);
}

/// Appends `src[from..to]` to `dst`.
pub fn push_range(dst: &mut Vec<char>, src: &Vec<char>, from: usize, to: usize)
    requires
        from <= to <= src.len(),
    ensures
        final(dst)@ == old(dst)@ + src@.subrange(from as int, to as int),
{
    let mut i: usize = from;
    while i < to
        invariant
            from <= i <= to <= src.len(),
            dst@ == old(dst)@ + src@.subrange(from as int, i as int),
        decreases to - i,
    {
        dst.push(src[i]);
        i += 1;
    }
}

/// Appends the characters of `s` to `dst`.
pub fn push_str(dst: &mut Vec<char>, s: &str)
    ensures
        final(dst)@ == old(dst)@ + s@,
{
    let chars = to_chars(s);
    push_all(dst, &chars);
}

/// Whether two character vectors hold the same text.
pub fn same_chars(a: &Vec<char>, b: &Vec<char>) -> (r: bool)
    ensures
        r == (a@ == b@),
{
    if a.len() != b.len() {
        return false;
    }
    let mut i: usize = 0;
    while i < a.len()
        invariant
            i <= a.len(),
            a.len() == b.len(),
            forall|k: int| 0 <= k < i ==> a@[k] == b@[k],
        decreases a.len() - i,
    {
        if a[i] != b[i] {
            return false;
        }
        i += 1;
    }
    assert(a@ =~= b@);
    true
}

/// Whether two string slices hold the same text.
pub fn same_text(a: &str, b: &str) -> (r: bool)
    ensures
        r == (a@ == b@),
{
    let x = to_chars(a);
    let y = to_chars(b);
    same_chars(&x, &y)
}

/// Whether `pat` occurs in `s` at index `i`.
pub fn matches_here(s: &Vec<char>, pat: &Vec<char>, i: usize) -> (b: bool)
    ensures
        b == matches_at(s@, pat@, i as int),
{
    if pat.len() > s.len() || i > s.len() - pat.len() {
        return false;
    }
    let mut j: usize = 0;
    while j < pat.len()
        invariant
            j <= pat.len(),
            i + pat.len() <= s.len(),
            forall|k: int| 0 <= k < j ==> s@[i + k] == pat@[k],
        decreases pat.len() - j,
    {
        if s[i + j] != pat[j] {
            assert(s@.subrange(i as int, i + pat.len())[j as int] == s@[i + j]);
            return false;
        }
        j += 1;
    }
    assert(s@.subrange(i as int, i + pat.len()) =~= pat@);
    true
}

/// Leftmost occurrence of `pat` in `s` at or after `from`.
pub fn find_in(s: &Vec<char>, pat: &Vec<char>, from: usize) -> (r: Option<usize>)
    ensures
        r matches Some(i) ==> find_from(s@, pat@, from as int) == Some(i as int) && from <= i && i
            + pat@.len() <= s@.len(),
        r is None ==> find_from(s@, pat@, from as int) is None,
{
    proof {
        lemma_find_from(s@, pat@, from as int);
    }
    if pat.len() > s.len() {
        return None;
    }
    let last = s.len() - pat.len();
    let mut i: usize = from;
    while i <= last
        invariant
            from <= i,
            last == s.len() - pat.len(),
            find_from(s@, pat@, from as int) == find_from(s@, pat@, i as int),
        decreases last + 1 - i,
    {
        if matches_here(s, pat, i) {
            return Some(i);
        }
        if i == last {
            assert(find_from(s@, pat@, i + 1) is None);
            return None;
        }
        i += 1;
    }
    None
}

/// Rightmost occurrence of `pat` in `s`.
pub fn rfind_in(s: &Vec<char>, pat: &Vec<char>) -> (r: Option<usize>)
    ensures
        r matches Some(i) ==> rfind(s@, pat@) == Some(i as int) && i + pat@.len() <= s@.len(),
        r is None ==> rfind(s@, pat@) is None,
{
    proof {
        lemma_rfind_from(s@, pat@, s@.len() - pat@.len());
    }
    if pat.len() > s.len() {
        assert(rfind_from(s@, pat@, s@.len() - pat@.len()) is None);
        return None;
    }
    let mut i: usize = s.len() - pat.len();
    loop
        invariant
            i + pat.len() <= s.len(),
            rfind(s@, pat@) == rfind_from(s@, pat@, i as int),
        decreases i,
    {
        if matches_here(s, pat, i) {
            return Some(i);
        }
        if i == 0 {
            assert(rfind_from(s@, pat@, -1) is None);
            return None;
        }
        i -= 1;
    }
}

/// Whether `pat` occurs in `s`.
pub fn includes(s: &Vec<char>, pat: &Vec<char>) -> (r: bool)
    ensures
        r == contains(s@, pat@),
{
    find_in(s, pat, 0).is_some()
}

/// Whether the text `pat` occurs in `s`.
pub fn includes_str(s: &Vec<char>, pat: &str) -> (r: bool)
    ensures
        r == contains(s@, pat@),
{
    let p = to_chars(pat);
    includes(s, &p)
}

/// Whether `s` begins with `pat`.
pub fn begins_with(s: &Vec<char>, pat: &Vec<char>) -> (r: bool)
    ensures
        r == starts_with(s@, pat@),
{
    matches_here(s, pat, 0)
}

/// `s` with every occurrence of `pat` replaced by `rep`.
pub fn replace(s: &Vec<char>, pat: &Vec<char>, rep: &Vec<char>) -> (r: Vec<char>)
    ensures
        r@ == replace_all(s@, pat@, rep@),
{
    let mut out: Vec<char> = Vec::new();
    let mut pos: usize = 0;
    assert(s@.skip(0) == s@);
    assert(out@ + s@ == s@);
    if pat.len() == 0 {
        while pos < s.len()
            invariant
                pos <= s.len(),
                pat@.len() == 0,
                replace_all(s@, pat@, rep@) == out@ + replace_all(s@.skip(pos as int), pat@, rep@),
            decreases s.len() - pos,
        {
            let ghost rest = s@.skip(pos as int);
            push_all(&mut out, rep);
            out.push(s[pos]);
            pos += 1;
            assert(rest.take(1) == seq![s@[pos - 1]]);
            assert(rest.skip(1) == s@.skip(pos as int));
        }
        push_all(&mut out, rep);
        assert(s@.skip(pos as int).len() == 0);
        return out;
    }
    loop
        invariant
            pos <= s.len(),
            pat@.len() > 0,
            replace_all(s@, pat@, rep@) == out@ + replace_all(s@.skip(pos as int), pat@, rep@),
        decreases s.len() - pos,
    {
        let ghost rest = s@.skip(pos as int);
        proof {
            lemma_find_skip(s@, pat@, pos as int);
        }
        match find_in(s, pat, pos) {
            None => {
                push_range(&mut out, s, pos, s.len());
                assert(s@.subrange(pos as int, s.len() as int) == rest);
                return out;
            },
            Some(i) => {
                push_range(&mut out, s, pos, i);
                push_all(&mut out, rep);
                assert(rest.take(i - pos) == s@.subrange(pos as int, i as int));
                assert(rest.skip(i - pos + pat@.len()) == s@.skip(i + pat@.len()));
                pos = i + pat.len();
            },
        }
    }
}

/// `s` with every occurrence of the text `pat` replaced by the text `rep`.
pub fn replace_str(s: &Vec<char>, pat: &str, rep: &str) -> (r: Vec<char>)
    ensures
        r@ == replace_all(s@, pat@, rep@),
{
    let p = to_chars(pat);
    let q = to_chars(rep);
    replace(s, &p, &q)
}

/// Whether `c` is white space.
pub fn white_space(c: char) -> (r: bool)
    ensures
        r == is_white_space(c),
{
    let n: u32 = c as u32;
    (0x09 <= n && n <= 0x0D) || n == 0x20 || n == 0x85 || n == 0xA0 || n == 0x1680 || (0x2000 <= n
        && n <= 0x200A) || n == 0x2028 || n == 0x2029 || n == 0x202F || n == 0x205F || n == 0x3000
}

/// `s[from..to]` without leading and trailing white space, as a new vector.
pub fn trimmed(s: &Vec<char>, from: usize, to: usize) -> (r: Vec<char>)
    requires
        from <= to <= s.len(),
    ensures
        r@ == trim(s@.subrange(from as int, to as int)),
{
    let ghost whole = s@.subrange(from as int, to as int);
    let mut lo: usize = from;
    while lo < to && white_space(s[lo])
        invariant
            from <= lo <= to <= s.len(),
            trim_start(whole) == trim_start(s@.subrange(lo as int, to as int)),
        decreases to - lo,
    {
        let ghost cur = s@.subrange(lo as int, to as int);
        assert(cur[0] == s@[lo as int]);
        assert(cur.skip(1) == s@.subrange(lo + 1, to as int));
        lo += 1;
    }
    let ghost mid = s@.subrange(lo as int, to as int);
    assert(trim_start(whole) == mid) by {
        if lo < to {
            assert(mid[0] == s@[lo as int]);
        }
    }
    let mut hi: usize = to;
    while lo < hi && white_space(s[hi - 1])
        invariant
            lo <= hi <= to <= s.len(),
            trim_end(mid) == trim_end(s@.subrange(lo as int, hi as int)),
        decreases hi - lo,
    {
        let ghost cur = s@.subrange(lo as int, hi as int);
        assert(cur.last() == s@[hi - 1]);
        assert(cur.drop_last() == s@.subrange(lo as int, hi - 1));
        hi -= 1;
    }
    assert(trim_end(mid) == s@.subrange(lo as int, hi as int)) by {
        if lo < hi {
            assert(s@.subrange(lo as int, hi as int).last() == s@[hi - 1]);
        }
    }
    let mut out: Vec<char> = Vec::new();
    push_range(&mut out, s, lo, hi);
    out
}

/// `s[from..]` without leading white space, as a new vector.
pub fn trimmed_start(s: &Vec<char>, from: usize) -> (r: Vec<char>)
    requires
        from <= s.len(),
    ensures
        r@ == trim_start(s@.skip(from as int)),
{
    let ghost whole = s@.skip(from as int);
    let mut lo: usize = from;
    while lo < s.len() && white_space(s[lo])
        invariant
            from <= lo <= s.len(),
            trim_start(whole) == trim_start(s@.skip(lo as int)),
        decreases s.len() - lo,
    {
        let ghost cur = s@.skip(lo as int);
        assert(cur[0] == s@[lo as int]);
        assert(cur.skip(1) == s@.skip(lo + 1));
        lo += 1;
    }
    assert(trim_start(whole) == s@.skip(lo as int)) by {
        if lo < s.len() {
            assert(s@.skip(lo as int)[0] == s@[lo as int]);
        }
    }
    let mut out: Vec<char> = Vec::new();
    push_range(&mut out, s, lo, s.len());
    assert(s@.subrange(lo as int, s.len() as int) == s@.skip(lo as int));
    out
}

/// A pair of owned strings with the given texts.
pub fn pair(first: &str, second: &str) -> (r: (String, String))
    ensures
        r.0@ == first@,
        r.1@ == second@,
{
    (from_chars(&to_chars(first)), from_chars(&to_chars(second)))
}

/// `s` with `ins` inserted before index `at`.
pub fn inserted(s: &Vec<char>, at: usize, ins: &Vec<char>) -> (r: Vec<char>)
    requires
        at <= s.len(),
    ensures
        r@ == insert_at(s@, at as int, ins@),
{
    let mut out: Vec<char> = Vec::new();
    push_range(&mut out, s, 0, at);
    push_all(&mut out, ins);
    push_range(&mut out, s, at, s.len());
    assert(s@.subrange(0, at as int) == s@.take(at as int));
    assert(s@.subrange(at as int, s@.len() as int) == s@.skip(at as int));
    out
}

/// A run of digits writes no less than any of its prefixes, and nothing
/// where a prefix writes nothing.
pub proof fn lemma_digits_grow(s: Seq<char>, k: int)
    requires
        0 <= k <= s.len(),
    ensures
        digits_value(s.take(k)) is None ==> digits_value(s) is None,
        digits_value(s) matches Some(v) ==> 0 <= digits_value(s.take(k))->0 <= v,
    decreases s.len() - k,
{
    if k == s.len() {
        assert(s.take(k) == s);
        lemma_digits_nonnegative(s);
    } else {
        lemma_digits_grow(s, k + 1);
        assert(s.take(k + 1).drop_last() == s.take(k));
        lemma_digits_nonnegative(s.take(k));
    }
}

/// A run of digits writes no negative number.
pub proof fn lemma_digits_nonnegative(s: Seq<char>)
    ensures
        digits_value(s) matches Some(v) ==> v >= 0,
    decreases s.len(),
{
    if s.len() > 0 {
        lemma_digits_nonnegative(s.drop_last());
    }
}

/// The integer that `s[from..to]` writes, where it lies between `min` and `max`.
#[verifier::loop_isolation(false)]
pub fn parse_integer(s: &Vec<char>, from: usize, to: usize, min: i64, max: i64) -> (r: Option<i64>)
    requires
        from <= to <= s.len(),
    ensures
        match parse_between(s@.subrange(from as int, to as int), min as int, max as int) {
            Some(v) => r == Some(v as i64),
            None => r is None,
        },
{
    let ghost whole = s@.subrange(from as int, to as int);
    if from == to {
        return None;
    }
    assert(whole[0] == s@[from as int]);
    let negative = s[from] == '-';
    let signed = negative || s[from] == '+';
    let start: usize = if signed {
        from + 1
    } else {
        from
    };
    if start == to {
        return None;
    }
    let ghost run = s@.subrange(start as int, to as int);
    assert(signed ==> run == whole.skip(1));
    assert(!signed ==> run == whole);
    let cap: i128 = 0x8000_0000_0000_0001;
    let mut acc: i128 = 0;
    let mut i: usize = start;
    assert(run.take(0) == Seq::<char>::empty());
    while i < to
        invariant
            start <= i <= to <= s.len(),
            run == s@.subrange(start as int, to as int),
            cap == 0x8000_0000_0000_0001,
            0 <= acc <= cap,
            digits_value(run.take(i - start)) matches Some(v) && (v < cap ==> acc == v) && (v
                >= cap ==> acc == cap),
        decreases to - i,
    {
        let c = s[i];
        let ghost before = run.take(i - start);
        proof {
            let upto = run.take(i - start + 1);
            assert(upto.drop_last() == before);
            assert(upto.last() == c);
        }
        if !('0' <= c && c <= '9') {
            proof {
                assert(digits_value(run.take(i - start + 1)) is None);
                lemma_digits_grow(run, i - start + 1);
            }
            return None;
        }
        let d: i128 = (c as u32 - '0' as u32) as i128;
        acc = acc * 10 + d;
        if acc > cap {
            acc = cap;
        }
        i += 1;
    }
    assert(run.take(to - start) == run);
    let value: i128 = if negative {
        -acc
    } else {
        acc
    };
    if value < min as i128 || value > max as i128 {
        return None;
    }
    Some(value as i64)
}

/// `replace` for each pair of `table` in turn.
pub fn substitute(xml: Vec<char>, table: &Vec<(String, String)>) -> (r: Vec<char>)
    ensures
        r@ == substituted(xml@, pair_views(table@)),
{
    let ghost all = pair_views(table@);
    let ghost start = xml@;
    let mut cur = xml;
    let mut k: usize = 0;
    assert(all.take(0) == Seq::<(Seq<char>, Seq<char>)>::empty());
    while k < table.len()
        invariant
            k <= table.len(),
            all == pair_views(table@),
            cur@ == substituted(start, all.take(k as int)),
        decreases table.len() - k,
    {
        proof {
            let upto = all.take(k + 1);
            assert(upto.drop_last() == all.take(k as int));
            assert(upto.last() == all[k as int]);
        }
        cur = replace_str(&cur, table[k].0.as_str(), table[k].1.as_str());
        k += 1;
    }
    assert(all.take(k as int) == all);
    cur
}

/// The executable form of `between`.
pub fn between_tags(s: &Vec<char>, open: &Vec<char>, close: &Vec<char>) -> (r: Option<
    (usize, usize),
>)
    ensures
        r matches Some(range) ==> between(s@, open@, close@) == Some(
            (range.0 as int, range.1 as int),
        ) && range.0 <= range.1 <= s@.len(),
        r is None ==> between(s@, open@, close@) is None,
{
    match find_in(s, open, 0) {
        Some(start) => {
            assert(start + open@.len() <= s@.len());
            assert(start + open.len() <= s.len());
            match find_in(s, close, start + open.len()) {
                Some(end) => {
                    assert(end + close@.len() <= s@.len());
                    Some((start + open.len(), end))
                },
                None => None,
            }
        },
        None => None,
    }
}

/// The executable form of `between_any`, from the first pair on.
pub fn between_any_tags(s: &Vec<char>, tags: &Vec<(String, String)>) -> (r: Option<
    (usize, usize),
>)
    ensures
        r matches Some(range) ==> between_any(s@, pair_views(tags@), 0) == Some(
            (range.0 as int, range.1 as int),
        ) && range.0 <= range.1 <= s@.len(),
        r is None ==> between_any(s@, pair_views(tags@), 0) is None,
{
    let mut k: usize = 0;
    while k < tags.len()
        invariant
            k <= tags.len(),
            between_any(s@, pair_views(tags@), 0) == between_any(s@, pair_views(tags@), k as int),
        decreases tags.len() - k,
    {
        let open = to_chars(tags[k].0.as_str());
        let close = to_chars(tags[k].1.as_str());
        match between_tags(s, &open, &close) {
            Some(range) => {
                return Some(range);
            },
            None => {},
        }
        k += 1;
    }
    None
}

/// The executable form of `rfind` on `s[from..to]`; the index returned
/// counts from the start of `s`.
pub fn rfind_between(s: &Vec<char>, pat: &Vec<char>, from: usize, to: usize) -> (r: Option<usize>)
    requires
        from <= to <= s.len(),
    ensures
        r matches Some(i) ==> rfind(s@.subrange(from as int, to as int), pat@) == Some(i - from)
            && from <= i && i + pat@.len() <= to,
        r is None ==> rfind(s@.subrange(from as int, to as int), pat@) is None,
{
    let mut part: Vec<char> = Vec::new();
    push_range(&mut part, s, from, to);
    match rfind_in(&part, pat) {
        Some(i) => Some(from + i),
        None => None,
    }
}

} // verus!
