//! Character-level text primitives: whitespace, trimming and splitting.

use vstd::prelude::*;
use vstd::string::*;

verus! {

/// Whether `c` is a white-space character: one of the characters that
/// Unicode marks as `White_Space`.
pub open spec fn is_whitespace(c: char) -> bool {
    ||| '\u{9}' <= c <= '\u{d}'
    ||| c == ' '
    ||| c == '\u{85}'
    ||| c == '\u{a0}'
    ||| c == '\u{1680}'
    ||| '\u{2000}' <= c <= '\u{200a}'
    ||| c == '\u{2028}'
    ||| c == '\u{2029}'
    ||| c == '\u{202f}'
    ||| c == '\u{205f}'
    ||| c == '\u{3000}'
}

/// Tests whether `c` is a white-space character.
pub fn is_whitespace_char(c: char) -> (b: bool)
    ensures
        b == is_whitespace(c),
{
    ('\u{9}' <= c && c <= '\u{d}')
        || c == ' '
        || c == '\u{85}'
        || c == '\u{a0}'
        || c == '\u{1680}'
        || ('\u{2000}' <= c && c <= '\u{200a}')
        || c == '\u{2028}'
        || c == '\u{2029}'
        || c == '\u{202f}'
        || c == '\u{205f}'
        || c == '\u{3000}'
}

/// Whether `s` holds nothing but white space; the empty sequence is blank.
pub open spec fn is_blank(s: Seq<char>) -> bool {
    forall|i: int| 0 <= i < s.len() ==> is_whitespace(#[trigger] s[i])
}

/// `s` without its leading white space.
pub open spec fn trim_start(s: Seq<char>) -> Seq<char>
    decreases s.len(),
{
    if s.len() > 0 && is_whitespace(s.first()) {
        trim_start(s.drop_first())
    } else {
        s
    }
}

/// `s` without its trailing white space.
pub open spec fn trim_end(s: Seq<char>) -> Seq<char>
    decreases s.len(),
{
    if s.len() > 0 && is_whitespace(s.last()) {
        trim_end(s.drop_last())
    } else {
        s
    }
}

/// `s` without its leading and trailing white space.
pub open spec fn trim(s: Seq<char>) -> Seq<char> {
    trim_end(trim_start(s))
}

/// Trimming at the front removes exactly the white space before position
/// `a`, when everything before `a` is white space and the character at `a`,
/// if there is one, is not.
pub proof fn lemma_trim_start_at(s: Seq<char>, a: int)
    requires
        0 <= a <= s.len(),
        forall|i: int| 0 <= i < a ==> is_whitespace(#[trigger] s[i]),
        a < s.len() ==> !is_whitespace(s[a]),
    ensures
        trim_start(s) == s.skip(a),
    decreases a,
{
    if a == 0 {
        assert(s.skip(0) =~= s);
    } else {
        let rest = s.drop_first();
        assert forall|i: int| 0 <= i < a - 1 implies is_whitespace(#[trigger] rest[i]) by {
            assert(rest[i] == s[i + 1]);
        }
        lemma_trim_start_at(rest, a - 1);
        assert(rest.skip(a - 1) =~= s.skip(a));
    }
}

/// Trimming at the back removes exactly the white space from position `b`
/// on, when everything from `b` on is white space and the character before
/// `b`, if there is one, is not.
pub proof fn lemma_trim_end_at(s: Seq<char>, b: int)
    requires
        0 <= b <= s.len(),
        forall|i: int| b <= i < s.len() ==> is_whitespace(#[trigger] s[i]),
        0 < b ==> !is_whitespace(s[b - 1]),
    ensures
        trim_end(s) == s.take(b),
    decreases s.len() - b,
{
    if b == s.len() {
        assert(s.take(b) =~= s);
    } else {
        let rest = s.drop_last();
        lemma_trim_end_at(rest, b);
        assert(rest.take(b) =~= s.take(b));
    }
}

/// Trimming keeps exactly the characters from the first to the last one
/// that is not white space: whenever everything outside `a..b` is white
/// space and a non-empty `a..b` starts and ends with a character that is
/// not, the trimmed sequence is the part `a..b`.
pub proof fn lemma_trim_is_subrange(s: Seq<char>, a: int, b: int)
    requires
        0 <= a <= b <= s.len(),
        forall|i: int| 0 <= i < a ==> is_whitespace(#[trigger] s[i]),
        forall|i: int| b <= i < s.len() ==> is_whitespace(#[trigger] s[i]),
        a < b ==> !is_whitespace(s[a]) && !is_whitespace(s[b - 1]),
    ensures
        trim(s) == s.subrange(a, b),
{
    if a < b {
        lemma_trim_start_at(s, a);
        let t = s.skip(a);
        assert forall|i: int| b - a <= i < t.len() implies is_whitespace(#[trigger] t[i]) by {
            assert(t[i] == s[i + a]);
        }
        lemma_trim_end_at(t, b - a);
        assert(t.take(b - a) =~= s.subrange(a, b));
    } else {
        lemma_trim_start_at(s, s.len() as int);
        assert(s.skip(s.len() as int) =~= Seq::<char>::empty());
        assert(s.subrange(a, b) =~= Seq::<char>::empty());
    }
}

/// A sequence is blank exactly when nothing is left of it after trimming.
pub proof fn lemma_blank_iff_trim_empty(s: Seq<char>)
    ensures
        is_blank(s) <==> trim(s).len() == 0,
    decreases s.len(),
{
    if s.len() > 0 && is_whitespace(s.first()) {
        let rest = s.drop_first();
        lemma_blank_iff_trim_empty(rest);
        if is_blank(s) {
            assert forall|i: int| 0 <= i < rest.len() implies is_whitespace(#[trigger] rest[i]) by {
                assert(rest[i] == s[i + 1]);
            }
        }
        if is_blank(rest) {
            assert forall|i: int| 0 <= i < s.len() implies is_whitespace(#[trigger] s[i]) by {
                if i > 0 {
                    assert(s[i] == rest[i - 1]);
                }
            }
        }
    } else if s.len() > 0 {
        lemma_trim_end_keeps_first(s);
    }
}

/// Trimming at the back never removes a first character that is not white
/// space.
proof fn lemma_trim_end_keeps_first(s: Seq<char>)
    requires
        s.len() > 0,
        !is_whitespace(s.first()),
    ensures
        trim_end(s).len() > 0,
    decreases s.len(),
{
    if is_whitespace(s.last()) {
        lemma_trim_end_keeps_first(s.drop_last());
    }
}

/// Tests whether `s` holds nothing but white space.
pub fn is_blank_line(s: &str) -> (b: bool)
    ensures
        b == is_blank(s@),
{
    for c in it: s.chars()
        invariant
            it.seq() == s@,
            forall|j: int| 0 <= j < it.index() ==> is_whitespace(#[trigger] s@[j]),
    {
        if !is_whitespace_char(c) {
            return false;
        }
    }
    true
}

/// The part of `s` between its leading and its trailing white space.
pub fn trim_whitespace(s: &str) -> (out: &str)
    ensures
        out@ == trim(s@),
{
    let n: usize = s.unicode_len();
    let mut i: usize = 0;
    let mut first: usize = 0;
    let mut end: usize = 0;
    for c in it: s.chars()
        invariant
            it.seq() == s@,
            n == s@.len(),
            i == it.index(),
            first <= end <= i,
            forall|j: int| 0 <= j < first ==> is_whitespace(#[trigger] s@[j]),
            forall|j: int| end <= j < i ==> is_whitespace(#[trigger] s@[j]),
            first < end ==> !is_whitespace(s@[first as int]) && !is_whitespace(s@[end - 1]),
            first == end ==> first == i,
    {
        if !is_whitespace_char(c) {
            if first == end {
                first = i;
            }
            end = i + 1;
        } else if first == end {
            first = i + 1;
            end = i + 1;
        }
        i += 1;
    }
    proof {
        lemma_trim_is_subrange(s@, first as int, end as int);
    }
    s.substring_char(first, end)
}

/// The position of the first `sep` in `s`, or `s.len()` when `s` holds none.
pub open spec fn first_index_of(s: Seq<char>, sep: char) -> int
    decreases s.len(),
{
    if s.len() == 0 || s.first() == sep {
        0
    } else {
        1 + first_index_of(s.drop_first(), sep)
    }
}

/// The parts of `s` that its separators delimit, in order. Every occurrence
/// of `sep` ends one part and starts the next, so a sequence with `k`
/// separators has `k + 1` parts, some of which may be empty, and the empty
/// sequence has one empty part. Nothing escapes a separator.
pub open spec fn split_on(s: Seq<char>, sep: char) -> Seq<Seq<char>>
    decreases s.len(),
{
    let i = first_index_of(s, sep);
    if 0 <= i < s.len() {
        seq![s.take(i)] + split_on(s.skip(i + 1), sep)
    } else {
        seq![s]
    }
}

/// How often `sep` occurs in `s`.
pub open spec fn count_of(s: Seq<char>, sep: char) -> nat
    decreases s.len(),
{
    if s.len() == 0 {
        0
    } else if s.first() == sep {
        1 + count_of(s.drop_first(), sep)
    } else {
        count_of(s.drop_first(), sep)
    }
}

/// The parts put together again, with one `sep` between neighbours.
pub open spec fn join(parts: Seq<Seq<char>>, sep: char) -> Seq<char>
    decreases parts.len(),
{
    if parts.len() == 0 {
        Seq::empty()
    } else if parts.len() == 1 {
        parts.first()
    } else {
        parts.first() + seq![sep] + join(parts.drop_first(), sep)
    }
}

/// The first index of `sep` lies within `s` or at its end; nothing before
/// it is `sep`, and if it lies within `s`, it holds `sep`.
pub proof fn lemma_first_index_of(s: Seq<char>, sep: char)
    ensures
        0 <= first_index_of(s, sep) <= s.len(),
        forall|j: int| 0 <= j < first_index_of(s, sep) ==> #[trigger] s[j] != sep,
        first_index_of(s, sep) < s.len() ==> s[first_index_of(s, sep)] == sep,
    decreases s.len(),
{
    if s.len() > 0 && s.first() != sep {
        let rest = s.drop_first();
        lemma_first_index_of(rest, sep);
        assert forall|j: int| 0 <= j < first_index_of(s, sep) implies #[trigger] s[j] != sep by {
            if j > 0 {
                assert(s[j] == rest[j - 1]);
            }
        }
    }
}

/// The first separator is at `k` when `k` holds one and nothing before `k`
/// does; with `k == s.len()`, when `s` holds none at all.
pub proof fn lemma_first_index_of_at(s: Seq<char>, sep: char, k: int)
    requires
        0 <= k <= s.len(),
        forall|j: int| 0 <= j < k ==> #[trigger] s[j] != sep,
        k < s.len() ==> s[k] == sep,
    ensures
        first_index_of(s, sep) == k,
    decreases k,
{
    if k > 0 {
        let rest = s.drop_first();
        assert(s.first() == s[0]);
        assert forall|j: int| 0 <= j < k - 1 implies #[trigger] rest[j] != sep by {
            assert(rest[j] == s[j + 1]);
        }
        lemma_first_index_of_at(rest, sep, k - 1);
    }
}

/// Splits `s` at every occurrence of `sep`.
pub fn split_on_char<'a>(s: &'a str, sep: char) -> (parts: Vec<&'a str>)
    ensures
        parts.deep_view() == split_on(s@, sep),
{
    let n: usize = s.unicode_len();
    let mut parts: Vec<&'a str> = Vec::new();
    let mut start: usize = 0;
    let mut i: usize = 0;
    proof {
        assert(s@.skip(0) =~= s@);
        assert(parts.deep_view() + split_on(s@, sep) =~= split_on(s@, sep));
    }
    for c in it: s.chars()
        invariant
            it.seq() == s@,
            n == s@.len(),
            i == it.index(),
            start <= i,
            forall|j: int| start <= j < i ==> #[trigger] s@[j] != sep,
            split_on(s@, sep) == parts.deep_view() + split_on(s@.skip(start as int), sep),
    {
        if c == sep {
            let part = s.substring_char(start, i);
            proof {
                let tail = s@.skip(start as int);
                assert forall|j: int| 0 <= j < i - start implies #[trigger] tail[j] != sep by {
                    assert(tail[j] == s@[j + start]);
                }
                lemma_first_index_of_at(tail, sep, i - start);
                assert(tail.take(i - start) =~= part@);
                assert(tail.skip(i - start + 1) =~= s@.skip(i + 1));
                assert(parts.deep_view().push(part@) + split_on(s@.skip(i + 1), sep)
                    =~= parts.deep_view() + (seq![part@] + split_on(s@.skip(i + 1), sep)));
            }
            let ghost before = parts.deep_view();
            parts.push(part);
            assert(parts.deep_view() =~= before.push(part@));
            start = i + 1;
        }
        i += 1;
    }
    let part = s.substring_char(start, n);
    proof {
        let tail = s@.skip(start as int);
        assert forall|j: int| 0 <= j < tail.len() implies #[trigger] tail[j] != sep by {
            assert(tail[j] == s@[j + start]);
        }
        lemma_first_index_of_at(tail, sep, tail.len() as int);
        assert(tail =~= part@);
    }
    let ghost before = parts.deep_view();
    parts.push(part);
    assert(parts.deep_view() =~= before.push(part@));
    parts
}

/// Splitting loses nothing: the parts, joined with the separator, are the
/// sequence that was split.
pub proof fn lemma_split_join(s: Seq<char>, sep: char)
    ensures
        join(split_on(s, sep), sep) == s,
    decreases s.len(),
{
    lemma_first_index_of(s, sep);
    let i = first_index_of(s, sep);
    if i < s.len() {
        let rest = split_on(s.skip(i + 1), sep);
        lemma_split_parts(s.skip(i + 1), sep);
        lemma_split_join(s.skip(i + 1), sep);
        let parts = split_on(s, sep);
        assert(parts.first() == s.take(i));
        assert(parts.drop_first() =~= rest);
        assert(s.take(i) + seq![sep] + s.skip(i + 1) =~= s);
    }
}

/// A sequence has one part more than it has separators, and no part holds
/// a separator.
pub proof fn lemma_split_parts(s: Seq<char>, sep: char)
    ensures
        split_on(s, sep).len() == count_of(s, sep) + 1,
        forall|k: int, j: int|
            0 <= k < split_on(s, sep).len() && 0 <= j < split_on(s, sep)[k].len()
                ==> #[trigger] split_on(s, sep)[k][j] != sep,
    decreases s.len(),
{
    lemma_first_index_of(s, sep);
    let i = first_index_of(s, sep);
    let parts = split_on(s, sep);
    if i < s.len() {
        let rest = split_on(s.skip(i + 1), sep);
        lemma_split_parts(s.skip(i + 1), sep);
        lemma_count_of_skip(s, sep, i);
        assert forall|k: int, j: int|
            0 <= k < parts.len() && 0 <= j < parts[k].len() implies #[trigger] parts[k][j]
            != sep by {
            if k == 0 {
                assert(parts[0][j] == s[j]);
            } else {
                assert(parts[k] == rest[k - 1]);
            }
        }
    } else {
        lemma_count_of_skip(s, sep, i);
        assert(s.skip(i) =~= Seq::<char>::empty());
    }
}

/// Where nothing before `i` is a separator, the separators of `s` are
/// those from `i` on.
proof fn lemma_count_of_skip(s: Seq<char>, sep: char, i: int)
    requires
        0 <= i <= s.len(),
        forall|j: int| 0 <= j < i ==> #[trigger] s[j] != sep,
    ensures
        count_of(s, sep) == count_of(s.skip(i), sep),
        i < s.len() && s[i] == sep ==> count_of(s, sep) == 1 + count_of(s.skip(i + 1), sep),
    decreases i,
{
    if i == 0 {
        assert(s.skip(0) =~= s);
        if s.len() > 0 {
            assert(s.drop_first() =~= s.skip(1));
        }
    } else {
        let rest = s.drop_first();
        assert(s.first() == s[0]);
        assert forall|j: int| 0 <= j < i - 1 implies #[trigger] rest[j] != sep by {
            assert(rest[j] == s[j + 1]);
        }
        lemma_count_of_skip(rest, sep, i - 1);
        assert(rest.skip(i - 1) =~= s.skip(i));
        if i < s.len() {
            assert(rest[i - 1] == s[i]);
            assert(rest.skip(i) =~= s.skip(i + 1));
        }
    }
}

} // verus!
