//! The destination line of the downloader's output.
//!
//! The downloader announces the file it writes on a line of its standard
//! output: the marker `Destination:`, then the path.

use crate::text::{
    chars_of, find_first, first_at, first_line, first_occurrence, is_whitespace,
    lemma_first_line_has_no_feed, lemma_first_occurrence, lemma_line_end, lemma_occurs_has_first,
    lemma_trim_is_clean, line_end_from, occurs, occurs_at, trim, trim_bounds,
};
use vstd::prelude::*;

verus! {

/// The text that announces the destination.
pub open spec fn marker() -> Seq<char> {
    "Destination:"@
}

/// What follows the first marker of `output`.
/// Meaningful only where the marker occurs.
pub open spec fn after_marker(output: Seq<char>) -> Seq<char> {
    output.skip(first_occurrence(output, marker()) + marker().len())
}

/// The path that `output` announces: what follows its first marker, up to the
/// end of that line, without the white space around it. `None` where `output`
/// holds no marker.
///
/// A carriage return before the line feed is white space, so it never ends up
/// in the path.
pub open spec fn destination_of(output: Seq<char>) -> Option<Seq<char>> {
    if occurs(output, marker()) {
        Some(trim(first_line(after_marker(output))))
    } else {
        None
    }
}

/// Reads the announced path out of the downloader's output.
pub fn parse_destination(output: &str) -> (path: Option<String>)
    ensures
        path is Some <==> occurs(output@, marker()),
        path.deep_view() == destination_of(output@),
{
    let text = chars_of(output);
    let pattern = chars_of("Destination:");
    match find_first(text.as_slice(), pattern.as_slice()) {
        None => None,
        Some(at) => {
            proof {
                lemma_first_occurrence(text@, pattern@, at as int);
                assert(at + pattern.len() <= text.len());
            }
            let from: usize = at + pattern.len();
            let to: usize = line_end_from(text.as_slice(), from);
            let bounds: (usize, usize) = trim_bounds(text.as_slice(), from, to);
            Some(output.substring_char(bounds.0, bounds.1).to_owned())
        },
    }
}

/// Where the marker occurs, the output is what stands before the marker's
/// first occurrence, the marker, and what follows it.
pub proof fn lemma_output_splits_at_marker(output: Seq<char>)
    requires
        occurs(output, marker()),
    ensures
        first_at(output, marker(), first_occurrence(output, marker())),
        output == output.take(first_occurrence(output, marker())) + marker() + after_marker(
            output,
        ),
{
    lemma_occurs_has_first(output, marker());
    let at = first_occurrence(output, marker());
    assert(output =~= output.take(at) + output.subrange(at, at + marker().len()) + output.skip(
        at + marker().len(),
    ));
}

/// The path lies on one line and is trimmed: it holds no line feed, and
/// neither starts nor ends with white space.
pub proof fn lemma_path_is_clean(output: Seq<char>)
    ensures
        destination_of(output) matches Some(path) ==> {
            &&& !path.contains('\n')
            &&& path.len() > 0 ==> !is_whitespace(path[0]) && !is_whitespace(path.last())
        },
{
    if occurs(output, marker()) {
        let line = first_line(after_marker(output));
        let path = trim(line);
        lemma_first_line_has_no_feed(after_marker(output));
        lemma_trim_is_clean(line);
        let (start, end) = choose|start: int, end: int|
            0 <= start <= end <= line.len() && path == #[trigger] line.subrange(start, end);
        assert forall|i: int| 0 <= i < path.len() implies path[i] != '\n' by {
            assert(path[i] == line[start + i]);
            assert(line.contains(line[start + i]));
        }
    }
}

/// The path is read off the first destination line. Where the marker first
/// occurs at the end of `before`, and `line` is what follows it up to a line
/// feed or the end of the output, the path is `line` without the white space
/// around it, whatever comes after.
pub proof fn lemma_destination_line(before: Seq<char>, line: Seq<char>, rest: Seq<char>)
    requires
        first_at(before + marker(), marker(), before.len() as int),
        !line.contains('\n'),
        rest.len() > 0 ==> rest[0] == '\n',
    ensures
        destination_of(before + marker() + line + rest) == Some(trim(line)),
{
    let output = before + marker() + line + rest;
    let at = before.len() as int;
    let width = marker().len() as int;
    assert(output.subrange(at, at + width) =~= marker());
    assert forall|earlier: int| 0 <= earlier < at implies !occurs_at(
        output,
        marker(),
        earlier,
    ) by {
        assert(output.subrange(earlier, earlier + width) =~= (before + marker()).subrange(
            earlier,
            earlier + width,
        ));
        assert(!occurs_at(before + marker(), marker(), earlier));
    }
    lemma_first_occurrence(output, marker(), at);
    let tail = line + rest;
    assert(after_marker(output) =~= tail);
    assert forall|i: int| 0 <= i < line.len() implies tail[i] != '\n' by {
        assert(line.contains(line[i]));
    }
    lemma_line_end(tail, line.len() as int);
    assert(first_line(tail) =~= line);
}

} // verus!
