//! What the session hands to the code that draws it: lines cut into plain
//! and highlighted segments, the numbers of the status line, and the search
//! prompt.

use vstd::prelude::*;
use vstd::string::StringExecFns;
use crate::buffer::CursorPosition;
use crate::text::{chars_of, string_of};

verus! {

/// How a segment of a line is drawn.
#[derive(Clone, Copy, Debug, PartialEq, Eq, Structural)]
pub enum Style {
    /// Text outside any match.
    Plain,
    /// A match that is not the current one.
    Match,
    /// The current match.
    CurrentMatch,
}

/// A range of columns of one line to be highlighted.
#[derive(Clone, Copy, Debug, PartialEq, Eq, Structural)]
pub struct Mark {
    pub start: usize,
    pub end: usize,
    /// The range is the current match.
    pub current: bool,
}

/// A run of `char`s of one line, all drawn in one style.
#[derive(Debug)]
pub struct Segment {
    pub text: String,
    pub style: Style,
}

/// The mathematical content of a `Segment`.
pub struct SegmentView {
    pub text: Seq<char>,
    pub style: Style,
}

impl View for Segment {
    type V = SegmentView;

    open spec fn view(&self) -> SegmentView {
        SegmentView { text: self.text@, style: self.style }
    }
}

/// The numbers of the status line. Lines, columns and the scroll offset count
/// from zero; the ordinal of the current match counts from one and is zero
/// where there is no match.
#[derive(Clone, Copy, Debug, PartialEq, Eq, Structural)]
pub struct StatusSummary {
    pub current_line: usize,
    pub total_lines: usize,
    pub current_column: usize,
    pub scroll_offset: usize,
    pub match_count: usize,
    pub current_match_ordinal: usize,
}

/// What the search line says of the matches.
#[derive(Clone, Copy, Debug, PartialEq, Eq, Structural)]
pub enum SearchInfo {
    /// Nothing: the query is empty.
    Blank,
    /// The query has no match.
    NoMatches,
    /// The number of matches, and the ordinal of the current one, counted
    /// from one.
    Matches { count: usize, current: usize },
}

/// The search line: the query and what is known of its matches.
#[derive(Debug)]
pub struct SearchPrompt {
    pub query: String,
    pub info: SearchInfo,
}

/// All that is drawn of a session at one time.
#[derive(Debug)]
pub struct Frame {
    /// The visible lines from the top down, each cut into segments.
    pub lines: Vec<Vec<Segment>>,
    /// The place of the cursor on the screen, where it is in view.
    pub cursor: Option<CursorPosition>,
    /// The search line, while a search is being typed.
    pub search: Option<SearchPrompt>,
    pub status: StatusSummary,
}

/// The content of each line of segments.
pub open spec fn line_views(lines: Seq<Vec<Segment>>) -> Seq<Seq<SegmentView>> {
    Seq::new(lines.len(), |i: int| segment_views(lines[i]@))
}

/// The content of each segment of a sequence.
pub open spec fn segment_views(segments: Seq<Segment>) -> Seq<SegmentView> {
    Seq::new(segments.len(), |i: int| segments[i]@)
}

/// The style of a mark.
pub open spec fn mark_style(mark: Mark) -> Style {
    if mark.current {
        Style::CurrentMatch
    } else {
        Style::Match
    }
}

/// The plain segment that holds the columns from `from` to `to`, or nothing
/// where there are no such columns.
pub open spec fn plain_run(line: Seq<char>, from: int, to: int) -> Seq<SegmentView> {
    if from < to {
        seq![SegmentView { text: line.subrange(from, to), style: Style::Plain }]
    } else {
        Seq::empty()
    }
}

/// A mark fits a line from column `from` on: it starts at or after `from`,
/// does not end before it starts, and ends within the line.
pub open spec fn mark_fits(line: Seq<char>, mark: Mark, from: int) -> bool {
    from <= mark.start <= mark.end <= line.len()
}

/// The segments of a line from column `from` on: for each mark in turn the
/// plain text before it, where there is any, and the marked text in the
/// mark's style; then the plain text after the last mark. A mark that does
/// not fit the line after the marks before it is passed over.
pub open spec fn segments_from(line: Seq<char>, marks: Seq<Mark>, from: int) -> Seq<SegmentView>
    decreases marks.len(),
{
    if marks.len() == 0 {
        plain_run(line, from, line.len() as int)
    } else if mark_fits(line, marks[0], from) {
        plain_run(line, from, marks[0].start as int) + seq![
            SegmentView {
                text: line.subrange(marks[0].start as int, marks[0].end as int),
                style: mark_style(marks[0]),
            },
        ] + segments_from(line, marks.drop_first(), marks[0].end as int)
    } else {
        segments_from(line, marks.drop_first(), from)
    }
}

/// The texts of the segments, one after the other.
pub open spec fn segments_text(segments: Seq<SegmentView>) -> Seq<char>
    decreases segments.len(),
{
    if segments.len() == 0 {
        Seq::empty()
    } else {
        segments[0].text + segments_text(segments.drop_first())
    }
}

/// The three dots that end a line cut to fit.
pub open spec fn ellipsis() -> Seq<char> {
    "..."@
}

/// A line of text as it is drawn in `width` columns: the text itself where
/// it fits; otherwise its first `width - 3` `char`s, or none where the width
/// is under three, followed by three dots.
pub open spec fn fitted(text: Seq<char>, width: int) -> Seq<char> {
    if text.len() <= width {
        text
    } else if width >= 3 {
        text.subrange(0, width - 3) + ellipsis()
    } else {
        ellipsis()
    }
}

/// A line cut to fit takes no more columns than the width, as long as the
/// width has room for the three dots.
pub proof fn lemma_fitted_fits(text: Seq<char>, width: int)
    requires
        width >= 3,
    ensures
        fitted(text, width).len() <= width,
{
    reveal_strlit("...");
}

/// Cuts a line of text to fit `width` columns.
pub fn fit_to_width(text: &str, width: usize) -> (line: String)
    ensures
        line@ == fitted(text@, width as int),
{
    let chars = chars_of(text);
    if chars.len() <= width {
        return string_of(chars.as_slice());
    }
    let keep = if width >= 3 {
        width - 3
    } else {
        0
    };
    let mut line = substring(chars.as_slice(), 0, keep);
    line.append("...");
    proof {
        assert(text@.subrange(0, 0) + ellipsis() =~= ellipsis());
    }
    line
}

/// The `char`s of `line` from column `from` up to column `to`, as a string.
pub fn substring(line: &[char], from: usize, to: usize) -> (text: String)
    requires
        from <= to <= line@.len(),
    ensures
        text@ == line@.subrange(from as int, to as int),
{
    let mut text = String::new();
    let mut i: usize = from;
    while i < to
        invariant
            from <= i <= to <= line@.len(),
            text@ == line@.subrange(from as int, i as int),
        decreases to - i,
    {
        proof {
            assert(line@.subrange(from as int, i as int).push(line@[i as int]) =~= line@.subrange(
                from as int,
                i + 1,
            ));
        }
        text.push(line[i]);
        i += 1;
    }
    text
}

/// Cuts a line into segments along the given marks.
pub fn line_segments(line: &[char], marks: &[Mark]) -> (segments: Vec<Segment>)
    ensures
        segment_views(segments@) == segments_from(line@, marks@, 0),
{
    let mut segments: Vec<Segment> = Vec::new();
    let mut from: usize = 0;
    let mut k: usize = 0;
    proof {
        assert(marks@.subrange(0, marks@.len() as int) =~= marks@);
        assert(segment_views(segments@) + segments_from(line@, marks@, 0) =~= segments_from(
            line@,
            marks@,
            0,
        ));
    }
    while k < marks.len()
        invariant
            k <= marks.len(),
            from <= line@.len(),
            segments_from(line@, marks@, 0) == segment_views(segments@) + segments_from(
                line@,
                marks@.subrange(k as int, marks@.len() as int),
                from as int,
            ),
        decreases marks.len() - k,
    {
        let mark = marks[k];
        let ghost rest = marks@.subrange(k as int, marks@.len() as int);
        let ghost done = segment_views(segments@);
        proof {
            assert(rest[0] == mark);
            assert(rest.drop_first() =~= marks@.subrange(k + 1, marks@.len() as int));
        }
        if from <= mark.start && mark.start <= mark.end && mark.end <= line.len() {
            if from < mark.start {
                segments.push(
                    Segment { text: substring(line, from, mark.start), style: Style::Plain },
                );
            }
            let ghost gap = plain_run(line@, from as int, mark.start as int);
            proof {
                assert(segment_views(segments@) =~= done + gap);
            }
            let style = if mark.current {
                Style::CurrentMatch
            } else {
                Style::Match
            };
            segments.push(Segment { text: substring(line, mark.start, mark.end), style });
            proof {
                let marked = seq![
                    SegmentView {
                        text: line@.subrange(mark.start as int, mark.end as int),
                        style: mark_style(mark),
                    },
                ];
                let tail = segments_from(line@, rest.drop_first(), mark.end as int);
                assert(segment_views(segments@) =~= done + gap + marked);
                assert(done + (gap + marked + tail) =~= (done + gap + marked) + tail);
            }
            from = mark.end;
        }
        k += 1;
    }
    let ghost done = segment_views(segments@);
    proof {
        assert(marks@.subrange(marks@.len() as int, marks@.len() as int).len() == 0);
    }
    if from < line.len() {
        segments.push(Segment { text: substring(line, from, line.len()), style: Style::Plain });
    }
    proof {
        assert(segment_views(segments@) =~= done + plain_run(
            line@,
            from as int,
            line@.len() as int,
        ));
    }
    segments
}

/// The segments of a line hold, one after the other, exactly the `char`s of
/// the line from the starting column on: nothing is lost, doubled or
/// reordered by the cutting.
pub proof fn lemma_segments_cover_line(line: Seq<char>, marks: Seq<Mark>, from: int)
    requires
        0 <= from <= line.len(),
    ensures
        segments_text(segments_from(line, marks, from)) == line.subrange(from, line.len() as int),
    decreases marks.len(),
{
    let whole = line.subrange(from, line.len() as int);
    if marks.len() == 0 {
        lemma_plain_run_text(line, from, line.len() as int);
    } else if mark_fits(line, marks[0], from) {
        let start = marks[0].start as int;
        let end = marks[0].end as int;
        let gap = plain_run(line, from, start);
        let marked = seq![
            SegmentView { text: line.subrange(start, end), style: mark_style(marks[0]) },
        ];
        let tail = segments_from(line, marks.drop_first(), end);
        lemma_segments_cover_line(line, marks.drop_first(), end);
        lemma_plain_run_text(line, from, start);
        lemma_segments_text_concat(marked, tail);
        lemma_segments_text_concat(gap, marked + tail);
        assert(gap + marked + tail =~= gap + (marked + tail));
        lemma_single_segment_text(marked[0]);
        assert(line.subrange(from, start) + (line.subrange(start, end) + line.subrange(
            end,
            line.len() as int,
        )) =~= whole);
    } else {
        lemma_segments_cover_line(line, marks.drop_first(), from);
    }
}

/// The text of a plain run is the columns it holds.
pub proof fn lemma_plain_run_text(line: Seq<char>, from: int, to: int)
    requires
        0 <= from <= to <= line.len(),
    ensures
        segments_text(plain_run(line, from, to)) == line.subrange(from, to),
{
    let run = plain_run(line, from, to);
    if from < to {
        lemma_single_segment_text(run[0]);
        assert(run =~= seq![run[0]]);
    } else {
        assert(segments_text(run) =~= line.subrange(from, to));
    }
}

/// The text of one segment alone is that segment's text.
pub proof fn lemma_single_segment_text(segment: SegmentView)
    ensures
        segments_text(seq![segment]) == segment.text,
{
    let single = seq![segment];
    assert(single.drop_first() =~= Seq::<SegmentView>::empty());
    assert(segments_text(single.drop_first()) =~= Seq::<char>::empty());
    assert(segments_text(single) =~= segment.text);
}

/// The text of two runs of segments, one after the other, is the text of
/// the first followed by the text of the second.
pub proof fn lemma_segments_text_concat(first: Seq<SegmentView>, second: Seq<SegmentView>)
    ensures
        segments_text(first + second) == segments_text(first) + segments_text(second),
    decreases first.len(),
{
    if first.len() == 0 {
        assert(first + second =~= second);
        assert(segments_text(first) + segments_text(second) =~= segments_text(second));
    } else {
        lemma_segments_text_concat(first.drop_first(), second);
        assert((first + second).drop_first() =~= first.drop_first() + second);
        assert(segments_text(first + second) =~= segments_text(first) + segments_text(second));
    }
}

} // verus!
