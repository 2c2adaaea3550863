//! Character sequences: comparison, search, lines and trimming.
//!
//! The specification functions speak of `Seq<char>`, the view of `str` and
//! `String`. The executable functions work on a slice of characters, where
//! indexing takes constant time.

use vstd::prelude::*;

verus! {

/// Whether `pattern` stands in `text` with its first character at index `at`.
pub open spec fn occurs_at(text: Seq<char>, pattern: Seq<char>, at: int) -> bool {
    &&& 0 <= at
    &&& at + pattern.len() <= text.len()
    &&& text.subrange(at, at + pattern.len()) == pattern
}

/// Whether `pattern` stands anywhere in `text`.
pub open spec fn occurs(text: Seq<char>, pattern: Seq<char>) -> bool {
    exists|at: int| occurs_at(text, pattern, at)
}

/// Whether `at` is the leftmost index at which `pattern` stands in `text`.
pub open spec fn first_at(text: Seq<char>, pattern: Seq<char>, at: int) -> bool {
    &&& occurs_at(text, pattern, at)
    &&& forall|earlier: int| 0 <= earlier < at ==> !occurs_at(text, pattern, earlier)
}

/// The leftmost index at which `pattern` stands in `text`.
/// Meaningful only where `occurs(text, pattern)`.
pub open spec fn first_occurrence(text: Seq<char>, pattern: Seq<char>) -> int {
    choose|at: int| first_at(text, pattern, at)
}

/// The number of characters before the first line feed of `text`, or the
/// length of `text` where it holds none.
pub open spec fn line_end(text: Seq<char>) -> int
    decreases text.len(),
{
    if text.len() == 0 || text[0] == '\n' {
        0
    } else {
        1 + line_end(text.drop_first())
    }
}

/// The first line of `text`, without its line feed.
pub open spec fn first_line(text: Seq<char>) -> Seq<char> {
    text.take(line_end(text))
}

/// Whether `c` is white space: a character with the Unicode property
/// `White_Space`.
pub open spec fn is_whitespace(c: char) -> bool {
    ||| '\u{0009}' <= c <= '\u{000D}'
    ||| c == ' '
    ||| c == '\u{0085}'
    ||| c == '\u{00A0}'
    ||| c == '\u{1680}'
    ||| '\u{2000}' <= c <= '\u{200A}'
    ||| c == '\u{2028}'
    ||| c == '\u{2029}'
    ||| c == '\u{202F}'
    ||| c == '\u{205F}'
    ||| c == '\u{3000}'
}

/// `text` without the white space at its start.
pub open spec fn trim_start(text: Seq<char>) -> Seq<char>
    decreases text.len(),
{
    if text.len() > 0 && is_whitespace(text[0]) {
        trim_start(text.drop_first())
    } else {
        text
    }
}

/// `text` without the white space at its end.
pub open spec fn trim_end(text: Seq<char>) -> Seq<char>
    decreases text.len(),
{
    if text.len() > 0 && is_whitespace(text.last()) {
        trim_end(text.drop_last())
    } else {
        text
    }
}

/// `text` without the white space at its start and at its end.
pub open spec fn trim(text: Seq<char>) -> Seq<char> {
    trim_end(trim_start(text))
}

/// A pattern has one leftmost occurrence: an index that `first_at` accepts is
/// `first_occurrence`.
pub proof fn lemma_first_occurrence(text: Seq<char>, pattern: Seq<char>, at: int)
    requires
        first_at(text, pattern, at),
    ensures
        occurs(text, pattern),
        first_occurrence(text, pattern) == at,
{
    let chosen = first_occurrence(text, pattern);
    assert(first_at(text, pattern, chosen));
    if chosen < at {
        assert(!occurs_at(text, pattern, chosen));
    } else if at < chosen {
        assert(!occurs_at(text, pattern, at));
    }
}

/// Where `pattern` occurs in `text` it has a leftmost occurrence.
pub proof fn lemma_occurs_has_first(text: Seq<char>, pattern: Seq<char>)
    requires
        occurs(text, pattern),
    ensures
        first_at(text, pattern, first_occurrence(text, pattern)),
{
    let at = choose|at: int| occurs_at(text, pattern, at);
    lemma_first_before(text, pattern, at);
}

/// An occurrence at `at` leaves a leftmost occurrence at or before `at`.
proof fn lemma_first_before(text: Seq<char>, pattern: Seq<char>, at: int)
    requires
        occurs_at(text, pattern, at),
    ensures
        exists|first: int| first <= at && first_at(text, pattern, first),
    decreases at,
{
    if exists|earlier: int| 0 <= earlier < at && occurs_at(text, pattern, earlier) {
        let earlier = choose|earlier: int| 0 <= earlier < at && occurs_at(text, pattern, earlier);
        lemma_first_before(text, pattern, earlier);
    } else {
        assert(first_at(text, pattern, at));
    }
}

/// `line_end` is the index of the first line feed: no line feed stands before
/// `end`, and one stands at `end` unless the text ends there.
pub proof fn lemma_line_end(text: Seq<char>, end: int)
    requires
        0 <= end <= text.len(),
        forall|i: int| 0 <= i < end ==> text[i] != '\n',
        end == text.len() || text[end] == '\n',
    ensures
        line_end(text) == end,
    decreases end,
{
    if end > 0 {
        let rest = text.drop_first();
        assert forall|i: int| 0 <= i < end - 1 implies rest[i] != '\n' by {
            assert(rest[i] == text[i + 1]);
        }
        lemma_line_end(rest, end - 1);
    }
}

/// `trim_start` drops the leading run of white space: every character before
/// `start` is white space, and the one at `start`, if any, is not.
pub proof fn lemma_trim_start(text: Seq<char>, start: int)
    requires
        0 <= start <= text.len(),
        forall|i: int| 0 <= i < start ==> is_whitespace(text[i]),
        start == text.len() || !is_whitespace(text[start]),
    ensures
        trim_start(text) == text.skip(start),
    decreases start,
{
    if start > 0 {
        let rest = text.drop_first();
        assert forall|i: int| 0 <= i < start - 1 implies is_whitespace(rest[i]) by {
            assert(rest[i] == text[i + 1]);
        }
        lemma_trim_start(rest, start - 1);
        assert(rest.skip(start - 1) =~= text.skip(start));
    } else {
        assert(text.skip(0) =~= text);
    }
}

/// `trim_end` drops the trailing run of white space: every character from
/// `end` on is white space, and the one before `end`, if any, is not.
pub proof fn lemma_trim_end(text: Seq<char>, end: int)
    requires
        0 <= end <= text.len(),
        forall|i: int| end <= i < text.len() ==> is_whitespace(text[i]),
        end == 0 || !is_whitespace(text[end - 1]),
    ensures
        trim_end(text) == text.take(end),
    decreases text.len() - end,
{
    if end < text.len() {
        let rest = text.drop_last();
        lemma_trim_end(rest, end);
        assert(rest.take(end) =~= text.take(end));
    } else {
        assert(text.take(end) =~= text);
    }
}

/// Trimming keeps what stands between the white space and nothing else:
/// `core`, which neither starts nor ends with white space, is what is left of
/// it with white space on both sides.
pub proof fn lemma_trim_surrounded(left: Seq<char>, core: Seq<char>, right: Seq<char>)
    requires
        forall|i: int| 0 <= i < left.len() ==> is_whitespace(left[i]),
        forall|i: int| 0 <= i < right.len() ==> is_whitespace(right[i]),
        core.len() > 0 ==> !is_whitespace(core[0]) && !is_whitespace(core.last()),
    ensures
        trim(left + core + right) == core,
{
    let text = left + core + right;
    if core.len() > 0 {
        lemma_trim_start(text, left.len() as int);
        let tail = core + right;
        assert(text.skip(left.len() as int) =~= tail);
        lemma_trim_end(tail, core.len() as int);
        assert(tail.take(core.len() as int) =~= core);
    } else {
        lemma_trim_start(text, text.len() as int);
        assert(text.skip(text.len() as int) =~= core);
    }
}

/// The first line is the start of the text, and holds no line feed.
pub proof fn lemma_first_line_has_no_feed(text: Seq<char>)
    ensures
        0 <= line_end(text) <= text.len(),
        !first_line(text).contains('\n'),
    decreases text.len(),
{
    if text.len() > 0 && text[0] != '\n' {
        let rest = text.drop_first();
        lemma_first_line_has_no_feed(rest);
        assert forall|i: int| 0 <= i < first_line(text).len() implies first_line(text)[i]
            != '\n' by {
            if i > 0 {
                assert(first_line(rest)[i - 1] == text[i]);
                assert(first_line(rest).contains(text[i]));
            }
        }
    }
}

/// What `trim_start` leaves is the end of the text, and does not start with
/// white space.
pub proof fn lemma_trim_start_is_clean(text: Seq<char>)
    ensures
        trim_start(text).len() <= text.len(),
        trim_start(text) == text.skip(text.len() - trim_start(text).len()),
        trim_start(text).len() > 0 ==> !is_whitespace(trim_start(text)[0]),
    decreases text.len(),
{
    if text.len() > 0 && is_whitespace(text[0]) {
        let rest = text.drop_first();
        lemma_trim_start_is_clean(rest);
        assert(rest.skip(rest.len() - trim_start(rest).len()) =~= text.skip(
            text.len() - trim_start(rest).len(),
        ));
    } else {
        assert(text.skip(0) =~= text);
    }
}

/// What `trim_end` leaves is the start of the text, and does not end with
/// white space.
pub proof fn lemma_trim_end_is_clean(text: Seq<char>)
    ensures
        trim_end(text).len() <= text.len(),
        trim_end(text) == text.take(trim_end(text).len() as int),
        trim_end(text).len() > 0 ==> !is_whitespace(trim_end(text).last()),
    decreases text.len(),
{
    if text.len() > 0 && is_whitespace(text.last()) {
        let rest = text.drop_last();
        lemma_trim_end_is_clean(rest);
        assert(rest.take(trim_end(rest).len() as int) =~= text.take(trim_end(rest).len() as int));
    } else {
        assert(text.take(text.len() as int) =~= text);
    }
}

/// What trimming leaves is a part of the text that neither starts nor ends
/// with white space.
pub proof fn lemma_trim_is_clean(text: Seq<char>)
    ensures
        exists|start: int, end: int|
            0 <= start <= end <= text.len() && trim(text) == #[trigger] text.subrange(start, end),
        trim(text).len() > 0 ==> !is_whitespace(trim(text)[0]) && !is_whitespace(
            trim(text).last(),
        ),
{
    let tail = trim_start(text);
    lemma_trim_start_is_clean(text);
    lemma_trim_end_is_clean(tail);
    let start = text.len() - tail.len();
    let end = start + trim(text).len();
    assert(trim(text) =~= text.subrange(start, end));
    if trim(text).len() > 0 {
        assert(trim(text)[0] == tail[0]);
    }
}

/// The characters of `text`, in order.
pub fn chars_of(text: &str) -> (chars: Vec<char>)
    ensures
        chars@ == text@,
{
    let mut chars: Vec<char> = Vec::new();
    for c in it: text.chars()
        invariant
            chars@ == it.seq().take(it.index()),
            it.seq() == text@,
    {
        chars.push(c);
    }
    chars
}

/// Whether `a` and `b` hold the same characters.
pub fn same_text(a: &str, b: &str) -> (same: bool)
    ensures
        same == (a@ == b@),
{
    let x = a.as_bytes();
    let y = b.as_bytes();
    proof {
        // Two texts with the same UTF-8 bytes are the same text.
        vstd::utf8::encode_utf8_decode_utf8(a@);
        vstd::utf8::encode_utf8_decode_utf8(b@);
    }
    if x.len() != y.len() {
        return false;
    }
    let mut i: usize = 0;
    while i < x.len()
        invariant
            x.len() == y.len(),
            i <= x.len(),
            x@.take(i as int) == y@.take(i as int),
            a@ == b@ ==> x@ == y@,
        decreases x.len() - i,
    {
        if x[i] != y[i] {
            return false;
        }
        assert(x@.take(i + 1) == x@.take(i as int).push(x@[i as int]));
        assert(y@.take(i + 1) == y@.take(i as int).push(y@[i as int]));
        i = i + 1;
    }
    assert(x@ == x@.take(i as int) && y@ == y@.take(i as int));
    true
}

/// Whether `c` is white space.
pub fn whitespace(c: char) -> (white: bool)
    ensures
        white == is_whitespace(c),
{
    ('\u{0009}' <= c && c <= '\u{000D}') || c == ' ' || c == '\u{0085}' || c == '\u{00A0}' || c
        == '\u{1680}' || ('\u{2000}' <= c && c <= '\u{200A}') || c == '\u{2028}' || c == '\u{2029}'
        || c == '\u{202F}' || c == '\u{205F}' || c == '\u{3000}'
}

/// Whether `pattern` stands in `text` at index `at`.
pub fn matches_at(text: &[char], pattern: &[char], at: usize) -> (hit: bool)
    ensures
        hit == occurs_at(text@, pattern@, at as int),
{
    if at > text.len() || pattern.len() > text.len() - at {
        return false;
    }
    let mut k: usize = 0;
    while k < pattern.len()
        invariant
            at + pattern.len() <= text.len(),
            k <= pattern.len(),
            forall|j: int| 0 <= j < k ==> text@[at + j] == pattern@[j],
        decreases pattern.len() - k,
    {
        if text[at + k] != pattern[k] {
            assert(text@.subrange(at as int, at + pattern.len())[k as int] != pattern@[k as int]);
            return false;
        }
        k = k + 1;
    }
    assert(text@.subrange(at as int, at + pattern.len()) =~= pattern@);
    true
}

/// The leftmost index at which `pattern` stands in `text`, if it stands there
/// at all.
pub fn find_first(text: &[char], pattern: &[char]) -> (found: Option<usize>)
    ensures
        found is Some <==> occurs(text@, pattern@),
        found matches Some(at) ==> first_at(text@, pattern@, at as int),
{
    let mut at: usize = 0;
    while at <= text.len() && text.len() - at >= pattern.len()
        invariant
            forall|earlier: int| 0 <= earlier < at ==> !occurs_at(text@, pattern@, earlier),
        decreases text.len() - at,
    {
        if matches_at(text, pattern, at) {
            proof {
                lemma_first_occurrence(text@, pattern@, at as int);
            }
            return Some(at);
        }
        assert(pattern@.len() > 0) by {
            if pattern@.len() == 0 {
                assert(text@.subrange(at as int, at as int) =~= pattern@);
            }
        }
        at = at + 1;
    }
    assert forall|i: int| !occurs_at(text@, pattern@, i) by {
        if occurs_at(text@, pattern@, i) {
            assert(i < at);
        }
    }
    None
}

/// The index at which the line that starts at `from` ends: that of the next
/// line feed, or the length of `text`.
pub fn line_end_from(text: &[char], from: usize) -> (end: usize)
    requires
        from <= text.len(),
    ensures
        from <= end <= text.len(),
        end - from == line_end(text@.skip(from as int)),
        text@.subrange(from as int, end as int) == first_line(text@.skip(from as int)),
{
    let mut end: usize = from;
    while end < text.len() && text[end] != '\n'
        invariant
            from <= end <= text.len(),
            forall|i: int| from <= i < end ==> text@[i] != '\n',
        decreases text.len() - end,
    {
        end = end + 1;
    }
    proof {
        let rest = text@.skip(from as int);
        lemma_line_end(rest, end - from);
        assert(text@.subrange(from as int, end as int) =~= rest.take(end - from));
    }
    end
}

/// The bounds of what is left of `text[from..to]` once the white space at its
/// two ends is gone.
pub fn trim_bounds(text: &[char], from: usize, to: usize) -> (bounds: (usize, usize))
    requires
        from <= to <= text.len(),
    ensures
        from <= bounds.0 <= bounds.1 <= to,
        text@.subrange(bounds.0 as int, bounds.1 as int) == trim(
            text@.subrange(from as int, to as int),
        ),
{
    let mut start: usize = from;
    while start < to && whitespace(text[start])
        invariant
            from <= start <= to <= text.len(),
            forall|i: int| from <= i < start ==> is_whitespace(text@[i]),
        decreases to - start,
    {
        start = start + 1;
    }
    let mut end: usize = to;
    while end > start && whitespace(text[end - 1])
        invariant
            start <= end <= to <= text.len(),
            forall|i: int| end <= i < to ==> is_whitespace(text@[i]),
        decreases end - start,
    {
        end = end - 1;
    }
    proof {
        let part = text@.subrange(from as int, to as int);
        lemma_trim_start(part, start - from);
        let tail = part.skip(start - from);
        assert(tail =~= text@.subrange(start as int, to as int));
        lemma_trim_end(tail, end - start);
        assert(tail.take(end - start) =~= text@.subrange(start as int, end as int));
    }
    (start, end)
}

} // verus!
