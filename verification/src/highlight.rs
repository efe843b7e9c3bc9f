//! Mapping the matches of a flat text onto its lines: for each line the
//! ranges of columns to highlight, and which of them is the current match.
//!
//! The offsets of a flat text count every line as its `char`s and one more
//! for its terminator; a match lies in a line where it starts and ends
//! between the line's first offset and the offset after its last `char`.

use vstd::prelude::*;
use crate::text::{chars_of, lines_of, split_lines, views};

verus! {

/// A range of columns to highlight on one line.
#[derive(Clone, Copy, Debug, PartialEq, Eq, Structural)]
pub struct Highlight {
    pub line: usize,
    pub start: usize,
    pub end: usize,
    /// The range is the current match.
    pub is_current: bool,
}

/// The offset in the flat text at which the line on `row` starts.
pub open spec fn line_start(lines: Seq<Seq<char>>, row: int) -> int
    decreases row,
{
    if row <= 0 {
        0
    } else {
        line_start(lines, row - 1) + lines[row - 1].len() + 1
    }
}

/// The span lies within the line on `row`. A span that ends before it starts
/// lies in no line.
pub open spec fn lies_in_line(lines: Seq<Seq<char>>, row: int, span: (usize, usize)) -> bool {
    line_start(lines, row) <= span.0 <= span.1 <= line_start(lines, row) + lines[row].len()
}

/// `index` is the first place in `matches` that holds `span`.
pub open spec fn is_first_at(
    matches: Seq<(usize, usize)>,
    span: (usize, usize),
    index: int,
) -> bool {
    &&& 0 <= index < matches.len()
    &&& matches[index] == span
    &&& forall|j: int| 0 <= j < index ==> matches[j] != span
}

/// The highlight of a span that lies in the line on `row`: the span counted
/// from the start of the line. It is the current match where the first place
/// of the span among the matches is `current`.
pub open spec fn highlight_of(
    lines: Seq<Seq<char>>,
    matches: Seq<(usize, usize)>,
    current: usize,
    row: int,
    span: (usize, usize),
) -> Highlight {
    Highlight {
        line: row as usize,
        start: (span.0 - line_start(lines, row)) as usize,
        end: (span.1 - line_start(lines, row)) as usize,
        is_current: is_first_at(matches, span, current as int),
    }
}

/// The highlights on the line on `row` of the first `count` matches, in the
/// order of the matches.
pub open spec fn line_highlights(
    lines: Seq<Seq<char>>,
    matches: Seq<(usize, usize)>,
    current: usize,
    row: int,
    count: int,
) -> Seq<Highlight>
    decreases count,
{
    if count <= 0 {
        Seq::empty()
    } else if lies_in_line(lines, row, matches[count - 1]) {
        line_highlights(lines, matches, current, row, count - 1).push(
            highlight_of(lines, matches, current, row, matches[count - 1]),
        )
    } else {
        line_highlights(lines, matches, current, row, count - 1)
    }
}

/// The highlights on the first `rows` lines, line by line.
pub open spec fn highlights_upto(
    lines: Seq<Seq<char>>,
    matches: Seq<(usize, usize)>,
    current: usize,
    rows: int,
) -> Seq<Highlight>
    decreases rows,
{
    if rows <= 0 {
        Seq::empty()
    } else {
        highlights_upto(lines, matches, current, rows - 1) + line_highlights(
            lines,
            matches,
            current,
            rows - 1,
            matches.len() as int,
        )
    }
}

/// All highlights of the matches on the given lines.
pub open spec fn highlights(
    lines: Seq<Seq<char>>,
    matches: Seq<(usize, usize)>,
    current: usize,
) -> Seq<Highlight> {
    highlights_upto(lines, matches, current, lines.len() as int)
}

/// Lines start at increasing offsets.
pub proof fn lemma_line_start_grows(lines: Seq<Seq<char>>, row: int, later: int)
    requires
        0 <= row <= later,
    ensures
        line_start(lines, row) <= line_start(lines, later),
    decreases later - row,
{
    if row < later {
        lemma_line_start_grows(lines, row, later - 1);
    }
}

/// A line that starts past every offset a span can have holds no highlight.
pub proof fn lemma_no_highlights_past_limit(
    lines: Seq<Seq<char>>,
    matches: Seq<(usize, usize)>,
    current: usize,
    row: int,
    count: int,
)
    requires
        line_start(lines, row) > usize::MAX,
    ensures
        line_highlights(lines, matches, current, row, count).len() == 0,
    decreases count,
{
    if count > 0 {
        lemma_no_highlights_past_limit(lines, matches, current, row, count - 1);
    }
}

/// Once a line starts past every offset a span can have, the lines after it
/// add no highlight.
pub proof fn lemma_highlights_end_at_limit(
    lines: Seq<Seq<char>>,
    matches: Seq<(usize, usize)>,
    current: usize,
    row: int,
    rows: int,
)
    requires
        0 <= row <= rows,
        line_start(lines, row) > usize::MAX,
    ensures
        highlights_upto(lines, matches, current, rows) == highlights_upto(
            lines,
            matches,
            current,
            row,
        ),
    decreases rows - row,
{
    if row < rows {
        lemma_highlights_end_at_limit(lines, matches, current, row, rows - 1);
        lemma_line_start_grows(lines, row, rows - 1);
        lemma_no_highlights_past_limit(lines, matches, current, rows - 1, matches.len() as int);
        assert(highlights_upto(lines, matches, current, rows - 1) + Seq::<Highlight>::empty()
            =~= highlights_upto(lines, matches, current, rows - 1));
    }
}

/// Whether the first place of `matches[index]` among the matches is
/// `current`.
fn is_current_match(matches: &[(usize, usize)], index: usize, current: usize) -> (found: bool)
    requires
        index < matches@.len(),
    ensures
        found == is_first_at(matches@, matches@[index as int], current as int),
{
    let span = matches[index];
    let mut first: usize = 0;
    while first < index && !(matches[first].0 == span.0 && matches[first].1 == span.1)
        invariant
            first <= index < matches@.len(),
            span == matches@[index as int],
            forall|j: int| 0 <= j < first ==> matches@[j] != span,
        decreases index - first,
    {
        first += 1;
    }
    assert(matches@[first as int] == span);
    first == current
}

/// The highlights of the matches on the given lines, line by line and in
/// the order of the matches within each line.
pub fn highlight_lines(
    lines: &Vec<Vec<char>>,
    matches: &[(usize, usize)],
    current: usize,
) -> (found: Vec<Highlight>)
    ensures
        found@ == highlights(views(lines@), matches@, current),
{
    let mut found: Vec<Highlight> = Vec::new();
    let mut row: usize = 0;
    let mut start: usize = 0;
    while row < lines.len()
        invariant
            row <= lines.len(),
            start == line_start(views(lines@), row as int),
            found@ == highlights_upto(views(lines@), matches@, current, row as int),
        decreases lines.len() - row,
    {
        let length = lines[row].len();
        proof {
            assert(views(lines@)[row as int].len() == length);
        }
        let ghost before = found@;
        let mut k: usize = 0;
        while k < matches.len()
            invariant
                k <= matches.len(),
                row < lines.len(),
                length == views(lines@)[row as int].len(),
                start == line_start(views(lines@), row as int),
                found@ == before + line_highlights(
                    views(lines@),
                    matches@,
                    current,
                    row as int,
                    k as int,
                ),
            decreases matches.len() - k,
        {
            let span = matches[k];
            let ghost sofar = line_highlights(
                views(lines@),
                matches@,
                current,
                row as int,
                k as int,
            );
            if start <= span.0 && span.0 <= span.1 && span.1 - start <= length {
                let is_current = is_current_match(matches, k, current);
                found.push(
                    Highlight { line: row, start: span.0 - start, end: span.1 - start, is_current },
                );
                proof {
                    assert(found@ =~= before + sofar.push(
                        highlight_of(views(lines@), matches@, current, row as int, span),
                    ));
                }
            }
            k += 1;
        }
        if length >= usize::MAX - start {
            proof {
                lemma_highlights_end_at_limit(
                    views(lines@),
                    matches@,
                    current,
                    row + 1,
                    lines@.len() as int,
                );
            }
            return found;
        }
        start = start + length + 1;
        row += 1;
    }
    found
}

/// The highlights of the matches on the lines of `text`.
pub fn highlight_matches(
    text: &str,
    matches: &[(usize, usize)],
    current_match_index: usize,
) -> (found: Vec<Highlight>)
    ensures
        found@ == highlights(lines_of(text@), matches@, current_match_index),
{
    let chars = chars_of(text);
    let lines = split_lines(chars.as_slice());
    highlight_lines(&lines, matches, current_match_index)
}

} // verus!
