//! The mathematical model of text: a string is a sequence of characters, and
//! the operations below say what trimming, splitting and joining mean.

use vstd::prelude::*;

verus! {

/// Whether `c` is whitespace: one of the characters that Unicode lists as
/// `White_Space`.
pub open spec fn is_whitespace(c: char) -> bool {
    let u = c as u32;
    ||| 0x09 <= u <= 0x0D
    ||| u == 0x20
    ||| u == 0x85
    ||| u == 0xA0
    ||| u == 0x1680
    ||| 0x2000 <= u <= 0x200A
    ||| u == 0x2028
    ||| u == 0x2029
    ||| u == 0x202F
    ||| u == 0x205F
    ||| u == 0x3000
}

/// `s` without its leading whitespace.
pub open spec fn trim_start(s: Seq<char>) -> Seq<char>
    decreases s.len(),
{
    if s.len() > 0 && is_whitespace(s[0]) {
        trim_start(s.drop_first())
    } else {
        s
    }
}

/// `s` without its trailing whitespace.
pub open spec fn trim_end(s: Seq<char>) -> Seq<char>
    decreases s.len(),
{
    if s.len() > 0 && is_whitespace(s.last()) {
        trim_end(s.drop_last())
    } else {
        s
    }
}

/// `s` without its leading and trailing whitespace.
pub open spec fn trim(s: Seq<char>) -> Seq<char> {
    trim_end(trim_start(s))
}

/// Whether neither end of `s` is whitespace, so that trimming leaves `s` as
/// it is.
pub open spec fn is_trimmed(s: Seq<char>) -> bool {
    s.len() > 0 ==> !is_whitespace(s[0]) && !is_whitespace(s.last())
}

/// The index of the first element of `s` that satisfies `p`, or the length
/// of `s` where there is none.
pub open spec fn first_index<T>(s: Seq<T>, p: spec_fn(T) -> bool) -> int
    decreases s.len(),
{
    if s.len() == 0 || p(s[0]) {
        0
    } else {
        1 + first_index(s.drop_first(), p)
    }
}

/// The predicate that holds of `c` alone.
pub open spec fn is_char(c: char) -> spec_fn(char) -> bool {
    |x: char| x == c
}

/// The index of the first occurrence of `c` in `s`, or the length of `s`
/// where `c` does not occur.
pub open spec fn find(s: Seq<char>, c: char) -> int {
    first_index(s, is_char(c))
}

/// The pieces of `s` between occurrences of `sep`. There is always at least
/// one piece, and two adjacent separators have an empty piece between them.
pub open spec fn split(s: Seq<char>, sep: char) -> Seq<Seq<char>>
    decreases s.len(),
{
    let i = find(s, sep);
    if 0 <= i < s.len() {
        seq![s.take(i)] + split(s.skip(i + 1), sep)
    } else {
        seq![s]
    }
}

/// `line` without one carriage return at its end.
pub open spec fn strip_cr(line: Seq<char>) -> Seq<char> {
    if line.len() > 0 && line.last() == '\r' {
        line.drop_last()
    } else {
        line
    }
}

/// The lines of `s`. A line ends at a line feed, or at a carriage return
/// followed by a line feed; the line ending is not part of the line. Text
/// after the last line feed is a line of its own unless it is empty.
pub open spec fn lines(s: Seq<char>) -> Seq<Seq<char>>
    decreases s.len(),
{
    let i = find(s, '\n');
    if s.len() == 0 {
        seq![]
    } else if 0 <= i < s.len() {
        seq![strip_cr(s.take(i))] + lines(s.skip(i + 1))
    } else {
        seq![s]
    }
}

/// The pieces of `parts` in order, with `sep` between each two.
pub open spec fn join(parts: Seq<Seq<char>>, sep: char) -> Seq<char>
    decreases parts.len(),
{
    if parts.len() == 0 {
        seq![]
    } else if parts.len() == 1 {
        parts[0]
    } else {
        join(parts.drop_last(), sep) + seq![sep] + parts.last()
    }
}

/// Whether `needle` occurs in `s` as a run of adjacent characters.
pub open spec fn contains(s: Seq<char>, needle: Seq<char>) -> bool {
    exists|i: int| occurs_at(s, needle, i)
}

/// Whether `needle` occurs in `s` starting at index `i`.
pub open spec fn occurs_at(s: Seq<char>, needle: Seq<char>, i: int) -> bool {
    0 <= i && i + needle.len() <= s.len() && s.subrange(i, i + needle.len()) == needle
}

/// `first_index` is within bounds, nothing before it satisfies `p`, and the
/// element at it does.
pub proof fn lemma_first_index<T>(s: Seq<T>, p: spec_fn(T) -> bool)
    ensures
        0 <= first_index(s, p) <= s.len(),
        forall|k: int| 0 <= k < first_index(s, p) ==> !p(#[trigger] s[k]),
        first_index(s, p) < s.len() ==> p(s[first_index(s, p)]),
    decreases s.len(),
{
    if s.len() == 0 || p(s[0]) {
    } else {
        let t = s.drop_first();
        lemma_first_index(t, p);
        assert forall|k: int| 0 <= k < first_index(s, p) implies !p(#[trigger] s[k]) by {
            if k > 0 {
                assert(s[k] == t[k - 1]);
            }
        }
    }
}

/// An index within bounds, with nothing before it that satisfies `p` and
/// with an element at it that does, is `first_index`.
pub proof fn lemma_first_index_is<T>(s: Seq<T>, p: spec_fn(T) -> bool, i: int)
    requires
        0 <= i <= s.len(),
        forall|k: int| 0 <= k < i ==> !p(#[trigger] s[k]),
        i < s.len() ==> p(s[i]),
    ensures
        first_index(s, p) == i,
{
    lemma_first_index(s, p);
    let j = first_index(s, p);
    if j < i {
        assert(!p(s[j]));
    } else if i < j {
        assert(!p(s[i]));
    }
}

/// `find` is within bounds, `c` does not occur before it, and occurs at it.
pub proof fn lemma_find(s: Seq<char>, c: char)
    ensures
        0 <= find(s, c) <= s.len(),
        forall|k: int| 0 <= k < find(s, c) ==> #[trigger] s[k] != c,
        find(s, c) < s.len() ==> s[find(s, c)] == c,
{
    lemma_first_index(s, is_char(c));
}

/// An index within bounds, before which `c` does not occur and at which
/// it does, is `find`.
pub proof fn lemma_find_is(s: Seq<char>, c: char, i: int)
    requires
        0 <= i <= s.len(),
        forall|k: int| 0 <= k < i ==> #[trigger] s[k] != c,
        i < s.len() ==> s[i] == c,
    ensures
        find(s, c) == i,
{
    lemma_first_index_is(s, is_char(c), i);
}

/// Where `c` does not occur in `a`, its first occurrence in `a + b` is its
/// first occurrence in `b`, moved by the length of `a`.
pub proof fn lemma_find_concat(a: Seq<char>, b: Seq<char>, c: char)
    requires
        !a.contains(c),
    ensures
        find(a + b, c) == a.len() + find(b, c),
{
    lemma_find(b, c);
    let i = a.len() + find(b, c);
    assert forall|k: int| 0 <= k < i implies #[trigger] (a + b)[k] != c by {
        if k < a.len() {
            assert(a[k] != c);
        } else {
            assert((a + b)[k] == b[k - a.len()]);
        }
    }
    if i < (a + b).len() {
        assert((a + b)[i] == b[i - a.len()]);
    }
    lemma_find_is(a + b, c, i);
}

/// A text without the separator is one piece.
pub proof fn lemma_split_single(s: Seq<char>, sep: char)
    requires
        !s.contains(sep),
    ensures
        split(s, sep) == seq![s],
{
    assert forall|k: int| 0 <= k < s.len() implies #[trigger] s[k] != sep by {}
    lemma_find_is(s, sep, s.len() as int);
}

/// Where the separator does not occur in `a`, the pieces of `a`, the
/// separator and `b` are `a` and then the pieces of `b`.
pub proof fn lemma_split_concat(a: Seq<char>, b: Seq<char>, sep: char)
    requires
        !a.contains(sep),
    ensures
        split(a + seq![sep] + b, sep) == seq![a] + split(b, sep),
{
    let s = a + seq![sep] + b;
    let tail = seq![sep] + b;
    assert(s == a + tail);
    lemma_find_concat(a, tail, sep);
    assert(tail[0] == sep);
    assert(find(tail, sep) == 0);
    assert(s.take(a.len() as int) == a);
    assert(s.skip(a.len() as int + 1) == b);
}

/// A text that is not empty and holds no line feed is one line.
pub proof fn lemma_lines_single(s: Seq<char>)
    requires
        s.len() > 0,
        !s.contains('\n'),
    ensures
        lines(s) == seq![s],
{
    assert forall|k: int| 0 <= k < s.len() implies #[trigger] s[k] != '\n' by {}
    lemma_find_is(s, '\n', s.len() as int);
}

/// Where `a` holds no line feed, the lines of `a`, a line feed and `b` are
/// `a` without a carriage return at its end, and then the lines of `b`.
pub proof fn lemma_lines_concat(a: Seq<char>, b: Seq<char>)
    requires
        !a.contains('\n'),
    ensures
        lines(a + seq!['\n'] + b) == seq![strip_cr(a)] + lines(b),
{
    let s = a + seq!['\n'] + b;
    let tail = seq!['\n'] + b;
    assert(s == a + tail);
    lemma_find_concat(a, tail, '\n');
    assert(tail[0] == '\n');
    assert(find(tail, '\n') == 0);
    assert(s.take(a.len() as int) == a);
    assert(s.skip(a.len() as int + 1) == b);
}

/// Whitespace added at the end of a text is trimmed away.
pub proof fn lemma_trim_end_push(s: Seq<char>, c: char)
    requires
        is_whitespace(c),
    ensures
        trim_end(s.push(c)) == trim_end(s),
{
    assert(s.push(c).drop_last() == s);
}

/// What occurs in a part of a text occurs in the text.
pub proof fn lemma_contains_transitive(s: Seq<char>, part: Seq<char>, needle: Seq<char>)
    requires
        contains(s, part),
        contains(part, needle),
    ensures
        contains(s, needle),
{
    let a = choose|a: int| occurs_at(s, part, a);
    let b = choose|b: int| occurs_at(part, needle, b);
    assert(s.subrange(a + b, a + b + needle.len()) == part.subrange(b, b + needle.len()));
    assert(occurs_at(s, needle, a + b));
}

/// A run of adjacent characters of a text occurs in it.
pub proof fn lemma_contains_subrange(s: Seq<char>, from: int, to: int)
    requires
        0 <= from <= to <= s.len(),
    ensures
        contains(s, s.subrange(from, to)),
{
    assert(occurs_at(s, s.subrange(from, to), from));
}

/// A text holds what is left of it after trimming.
pub proof fn lemma_contains_trim(s: Seq<char>)
    ensures
        contains(s, trim_start(s)),
        contains(s, trim_end(s)),
        contains(s, trim(s)),
    decreases s.len(),
{
    lemma_contains_subrange(s, 0, s.len() as int);
    assert(s.subrange(0, s.len() as int) == s);
    if s.len() > 0 {
        lemma_contains_trim(s.drop_first());
        lemma_contains_subrange(s, 1, s.len() as int);
        lemma_contains_transitive(s, s.drop_first(), trim_start(s.drop_first()));
    }
    lemma_contains_trim_end(s);
    let t = trim_start(s);
    lemma_contains_trim_end(t);
    lemma_contains_transitive(s, t, trim_end(t));
}

/// A text holds what is left of it after trimming its end.
pub proof fn lemma_contains_trim_end(s: Seq<char>)
    ensures
        contains(s, trim_end(s)),
    decreases s.len(),
{
    lemma_contains_subrange(s, 0, s.len() as int);
    assert(s.subrange(0, s.len() as int) == s);
    if s.len() > 0 {
        lemma_contains_trim_end(s.drop_last());
        lemma_contains_subrange(s, 0, s.len() - 1);
        lemma_contains_transitive(s, s.drop_last(), trim_end(s.drop_last()));
    }
}

/// A text holds each of its lines.
pub proof fn lemma_contains_line(s: Seq<char>, i: int)
    requires
        0 <= i < lines(s).len(),
    ensures
        contains(s, lines(s)[i]),
    decreases s.len(),
{
    lemma_find(s, '\n');
    let j = find(s, '\n');
    if j < s.len() {
        let head = s.take(j);
        let tail = s.skip(j + 1);
        if i == 0 {
            lemma_contains_subrange(s, 0, j);
            if head.len() > 0 {
                lemma_contains_subrange(s, 0, j - 1);
                assert(head.drop_last() == s.subrange(0, j - 1));
            }
        } else {
            lemma_contains_line(tail, i - 1);
            lemma_contains_subrange(s, j + 1, s.len() as int);
            lemma_contains_transitive(s, tail, lines(tail)[i - 1]);
        }
    } else {
        lemma_contains_subrange(s, 0, s.len() as int);
        assert(s.subrange(0, s.len() as int) == s);
    }
}

/// Trimming the end of a text leaves a prefix of it.
pub proof fn lemma_trim_end_prefix(s: Seq<char>)
    ensures
        trim_end(s).is_prefix_of(s),
    decreases s.len(),
{
    if s.len() > 0 && is_whitespace(s.last()) {
        lemma_trim_end_prefix(s.drop_last());
    }
}

/// Two texts that lack a character lack it when put together.
pub proof fn lemma_concat_lacks(a: Seq<char>, b: Seq<char>, c: char)
    requires
        !a.contains(c),
        !b.contains(c),
    ensures
        !(a + b).contains(c),
{
    assert forall|k: int| 0 <= k < (a + b).len() implies (a + b)[k] != c by {
        if k < a.len() {
            assert(a[k] != c);
        } else {
            assert(b[k - a.len()] != c);
        }
    }
}

/// Trimming the end of a text keeps everything up to a character that is
/// not whitespace.
pub proof fn lemma_trim_end_keeps(s: Seq<char>, k: int)
    requires
        0 <= k < s.len(),
        !is_whitespace(s[k]),
    ensures
        trim_end(s).len() > k,
    decreases s.len(),
{
    if is_whitespace(s.last()) {
        lemma_trim_end_keeps(s.drop_last(), k);
    }
}

/// A text lacks every character that a text around it lacks.
pub proof fn lemma_contained_lacks(s: Seq<char>, part: Seq<char>, c: char)
    requires
        contains(s, part),
        !s.contains(c),
    ensures
        !part.contains(c),
{
    let a = choose|a: int| occurs_at(s, part, a);
    assert forall|k: int| 0 <= k < part.len() implies part[k] != c by {
        assert(part[k] == s.subrange(a, a + part.len())[k]);
        assert(s[a + k] != c);
    }
}

/// A text holds each of its pieces, and no piece holds the separator.
pub proof fn lemma_split_piece(s: Seq<char>, sep: char, i: int)
    requires
        0 <= i < split(s, sep).len(),
    ensures
        contains(s, split(s, sep)[i]),
        !split(s, sep)[i].contains(sep),
    decreases s.len(),
{
    lemma_find(s, sep);
    let j = find(s, sep);
    if j < s.len() {
        let tail = s.skip(j + 1);
        if i == 0 {
            lemma_contains_subrange(s, 0, j);
            assert forall|k: int| 0 <= k < j implies s.take(j)[k] != sep by {
                assert(s[k] != sep);
            }
        } else {
            lemma_split_piece(tail, sep, i - 1);
            lemma_contains_subrange(s, j + 1, s.len() as int);
            lemma_contains_transitive(s, tail, split(tail, sep)[i - 1]);
        }
    } else {
        lemma_contains_subrange(s, 0, s.len() as int);
        assert(s.subrange(0, s.len() as int) == s);
        assert forall|k: int| 0 <= k < s.len() implies s[k] != sep by {}
    }
}

/// No line holds a line feed.
pub proof fn lemma_line_lacks_line_feed(s: Seq<char>, i: int)
    requires
        0 <= i < lines(s).len(),
    ensures
        !lines(s)[i].contains('\n'),
    decreases s.len(),
{
    lemma_find(s, '\n');
    let j = find(s, '\n');
    if j < s.len() {
        if i == 0 {
            let head = s.take(j);
            assert forall|k: int| 0 <= k < strip_cr(head).len() implies strip_cr(head)[k]
                != '\n' by {
                assert(strip_cr(head)[k] == s[k]);
            }
        } else {
            lemma_line_lacks_line_feed(s.skip(j + 1), i - 1);
        }
    } else {
        assert forall|k: int| 0 <= k < s.len() implies s[k] != '\n' by {}
    }
}

/// A text always splits into at least one piece.
pub proof fn lemma_split_len(s: Seq<char>, sep: char)
    ensures
        split(s, sep).len() >= 1,
{
}

} // verus!
